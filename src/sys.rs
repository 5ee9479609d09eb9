//! The system calls the control channel and the monitor are built on.
use vstd::prelude::*;

use crate::ifreq::IfReq;

verus! {

/// Protocol family of local sockets.
pub const PF_LOCAL: i32 = 1;

/// Protocol family of routing sockets.
pub const PF_ROUTE: i32 = 17;

/// Datagram socket type.
pub const SOCK_DGRAM: i32 = 2;

/// Raw socket type.
pub const SOCK_RAW: i32 = 3;

/// The calls into the kernel: a program passes the real system, a test a
/// simulated one. Each returns what the kernel answered; the library decides
/// what that means.
pub trait Sys {
    /// Opens a socket; a negative descriptor is a failure.
    fn socket(&mut self, domain: i32, ty: i32, protocol: i32) -> i32;

    /// Issues an ioctl with an interface request record; zero is success.
    fn ioctl(&mut self, fd: i32, request: u32, ifreq: &mut IfReq) -> i32;

    /// Reads one message into the buffer; zero is the end of the stream, a
    /// negative number a failure, else the number of bytes read.
    fn read(&mut self, fd: i32, buf: &mut Vec<u8>) -> isize;

    /// Closes a descriptor; zero is success.
    fn close(&mut self, fd: i32) -> i32;

    /// The error number of the last failed call.
    fn errno(&mut self) -> i32;
}

/// One call into the kernel: what was handed to it and what it answered.
pub enum SysCall {
    Socket { domain: i32, ty: i32, protocol: i32, ret: i32 },
    Ioctl { fd: i32, request: u32, sent: Seq<u8>, received: Seq<u8>, ret: i32 },
    Read { fd: i32, received: Seq<u8>, ret: isize },
    Close { fd: i32, ret: i32 },
    Errno { ret: i32 },
}

/// A system together with the history of the calls the library made to it.
pub struct Kernel<S: Sys> {
    sys: S,
    history: Ghost<Seq<SysCall>>,
}

impl<S: Sys> Kernel<S> {
    /// The calls made so far, oldest first.
    pub closed spec fn calls(&self) -> Seq<SysCall> {
        self.history@
    }

    /// A kernel reached through `sys`, with no calls made yet.
    pub fn new(sys: S) -> (r: Kernel<S>)
        ensures
            r.calls() == Seq::<SysCall>::empty(),
    {
        Kernel { sys, history: Ghost(Seq::empty()) }
    }

    /// The system.
    pub fn sys(&self) -> &S {
        &self.sys
    }

    /// Gives back the system.
    pub fn into_sys(self) -> S {
        self.sys
    }

    /// Opens a socket; a negative descriptor is a failure.
    pub fn socket(&mut self, domain: i32, ty: i32, protocol: i32) -> (r: i32)
        ensures
            final(self).calls() == old(self).calls().push(
                SysCall::Socket { domain, ty, protocol, ret: r },
            ),
    {
        let r = self.sys.socket(domain, ty, protocol);
        self.history = Ghost(self.history@.push(SysCall::Socket { domain, ty, protocol, ret: r }));
        r
    }

    /// Issues an ioctl with an interface request record, which the kernel may
    /// rewrite; zero is success.
    pub fn ioctl(&mut self, fd: i32, request: u32, ifreq: &mut IfReq) -> (r: i32)
        ensures
            final(self).calls() == old(self).calls().push(
                SysCall::Ioctl { fd, request, sent: old(ifreq)@, received: final(ifreq)@, ret: r },
            ),
    {
        let ghost sent = ifreq@;
        let r = self.sys.ioctl(fd, request, ifreq);
        self.history = Ghost(
            self.history@.push(SysCall::Ioctl { fd, request, sent, received: ifreq@, ret: r }),
        );
        r
    }

    /// Reads one message into the buffer; zero is the end of the stream, a
    /// negative number a failure, else the number of bytes read.
    pub fn read(&mut self, fd: i32, buf: &mut Vec<u8>) -> (r: isize)
        ensures
            final(self).calls() == old(self).calls().push(
                SysCall::Read { fd, received: final(buf)@, ret: r },
            ),
    {
        let r = self.sys.read(fd, buf);
        self.history = Ghost(self.history@.push(SysCall::Read { fd, received: buf@, ret: r }));
        r
    }

    /// Closes a descriptor; zero is success.
    pub fn close(&mut self, fd: i32) -> (r: i32)
        ensures
            final(self).calls() == old(self).calls().push(SysCall::Close { fd, ret: r }),
    {
        let r = self.sys.close(fd);
        self.history = Ghost(self.history@.push(SysCall::Close { fd, ret: r }));
        r
    }

    /// The error number of the last failed call.
    pub fn errno(&mut self) -> (r: i32)
        ensures
            final(self).calls() == old(self).calls().push(SysCall::Errno { ret: r }),
    {
        let r = self.sys.errno();
        self.history = Ghost(self.history@.push(SysCall::Errno { ret: r }));
        r
    }
}

} // verus!
