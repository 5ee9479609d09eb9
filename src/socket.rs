//! Sockets for the control channel and the monitor, and their errors.
use vstd::prelude::*;

use crate::ifname::{name_text, IfName};
use crate::ifreq::IfReq;
use crate::ioccom::{ioc_spec, iorw, iow, GROUP_IF, IFREQ_SIZE, IOC_IN, IOC_INOUT};
use crate::lladdr::{hex_colon, LinkLevelAddress};
use crate::sys::{Kernel, Sys, SysCall, PF_LOCAL, PF_ROUTE, SOCK_DGRAM, SOCK_RAW};
use crate::text::{append_dec, ascii_chars, debug_quoted, debug_text, dec_text, strerror};

verus! {

/// Ioctl number that gets the link-level address of an interface.
pub open spec fn siocgiflladdr_spec() -> u32 {
    ioc_spec(IOC_INOUT, GROUP_IF, 158, IFREQ_SIZE)
}

/// Ioctl number that sets the link-level address of an interface.
pub open spec fn siocsiflladdr_spec() -> u32 {
    ioc_spec(IOC_IN, GROUP_IF, 60, IFREQ_SIZE)
}

/// The "get link-level address" ioctl number.
pub fn siocgiflladdr() -> (r: u32)
    ensures
        r == siocgiflladdr_spec(),
        r == 0xc020699e,
{
    proof {
        assert(ioc_spec(0xc0000000u32, 105u32, 158u32, 32u32) == 0xc020699eu32) by (bit_vector);
    }
    iorw(GROUP_IF, 158, IFREQ_SIZE)
}

/// The "set link-level address" ioctl number.
pub fn siocsiflladdr() -> (r: u32)
    ensures
        r == siocsiflladdr_spec(),
        r == 0x8020693c,
{
    proof {
        assert(ioc_spec(0x80000000u32, 105u32, 60u32, 32u32) == 0x8020693cu32) by (bit_vector);
    }
    iow(GROUP_IF, 60, IFREQ_SIZE)
}

/// A failed system call, with what the kernel answered.
#[derive(Clone, Debug, PartialEq, Eq)]
pub enum SocketError {
    OpenLocalDgram { ret: i32, errno: i32 },
    OpenRouteRaw { ret: i32, errno: i32 },
    GetLinkLevelAddress { fd: i32, ifname: IfName, ret: i32, errno: i32 },
    SetLinkLevelAddress { fd: i32, ifname: IfName, lladdr: LinkLevelAddress, ret: i32, errno: i32 },
    Read { fd: i32, ret: isize, errno: i32 },
    Close { fd: i32, ret: i32, errno: i32 },
}

/// What a read gave, when it did not fail.
#[derive(Copy, Clone, Debug, PartialEq, Eq, Structural)]
pub enum ReadResult {
    ReadLength(isize),
    EndOfRead,
}

/// An open socket descriptor.
#[derive(Debug)]
pub struct OpenSocket {
    fd: i32,
}

/// Decimal notation of a number as text.
pub open spec fn num(n: int) -> Seq<char> {
    ascii_chars(dec_text(n))
}

/// The closing fields of an error: the error number and its description.
pub open spec fn errno_tail(errno: i32, description: Seq<char>) -> Seq<char> {
    ", errno: "@ + num(errno as int) + ", strerror: "@ + debug_text(description) + " }"@
}

/// The text of an error: its name, then its fields as `{:?}` shows a struct,
/// with `description` as the description of the error number.
pub open spec fn socket_error_text(e: SocketError, description: Seq<char>) -> Seq<char> {
    match e {
        SocketError::OpenLocalDgram { ret, errno } => "Socket::OpenLocalDgramError { ret: "@ + num(
            ret as int,
        ) + errno_tail(errno, description),
        SocketError::OpenRouteRaw { ret, errno } => "Socket::OpenRouteRawError { ret: "@ + num(
            ret as int,
        ) + errno_tail(errno, description),
        SocketError::GetLinkLevelAddress { fd, ifname, ret, errno } =>
            "Socket::GetLinkLevelAddressError { fd: "@ + num(fd as int) + ", ifname: "@ + debug_text(
            name_text(ifname@),
        ) + ", ret: "@ + num(ret as int) + errno_tail(errno, description),
        SocketError::SetLinkLevelAddress { fd, ifname, lladdr, ret, errno } =>
            "Socket::SetLinkLevelAddressError { fd: "@ + num(fd as int) + ", ifname: "@ + debug_text(
            name_text(ifname@),
        ) + ", lladdr: "@ + debug_text(ascii_chars(hex_colon(lladdr@))) + ", ret: "@ + num(
            ret as int,
        ) + errno_tail(errno, description),
        SocketError::Read { fd, ret, errno } => "Socket::Read { fd: "@ + num(fd as int)
            + ", ret: "@ + num(ret as int) + errno_tail(errno, description),
        SocketError::Close { fd, ret, errno } => "Socket::CloseError { fd: "@ + num(fd as int)
            + ", ret: "@ + num(ret as int) + errno_tail(errno, description),
    }
}

fn append_errno_tail(r: &mut String, errno: i32, description: &str)
    ensures
        final(r)@ == old(r)@ + errno_tail(errno, description@),
{
    r.append(", errno: ");
    append_dec(r, errno as i64);
    r.append(", strerror: ");
    r.append(debug_quoted(description).as_str());
    r.append(" }");
}

impl SocketError {
    /// The error number the kernel gave.
    pub fn errno(&self) -> (r: i32)
        ensures
            r == match *self {
                SocketError::OpenLocalDgram { errno, .. } => errno,
                SocketError::OpenRouteRaw { errno, .. } => errno,
                SocketError::GetLinkLevelAddress { errno, .. } => errno,
                SocketError::SetLinkLevelAddress { errno, .. } => errno,
                SocketError::Read { errno, .. } => errno,
                SocketError::Close { errno, .. } => errno,
            },
    {
        match self {
            SocketError::OpenLocalDgram { errno, .. } => *errno,
            SocketError::OpenRouteRaw { errno, .. } => *errno,
            SocketError::GetLinkLevelAddress { errno, .. } => *errno,
            SocketError::SetLinkLevelAddress { errno, .. } => *errno,
            SocketError::Read { errno, .. } => *errno,
            SocketError::Close { errno, .. } => *errno,
        }
    }

    /// Describes the failed call with the kernel's answer and the system's
    /// description of the error number.
    pub fn to_string(&self) -> (r: String)
        ensures
            exists|t: Seq<char>| r@ == #[trigger] socket_error_text(*self, t),
    {
        let description = strerror(self.errno());
        self.describe(description.as_str())
    }

    /// Describes the failed call with the kernel's answer and the given
    /// description of the error number.
    pub fn describe(&self, description: &str) -> (r: String)
        ensures
            r@ == socket_error_text(*self, description@),
    {
        match self {
            SocketError::OpenLocalDgram { ret, errno } => {
                let mut r = String::from_str("Socket::OpenLocalDgramError { ret: ");
                append_dec(&mut r, *ret as i64);
                append_errno_tail(&mut r, *errno, description);
                r
            },
            SocketError::OpenRouteRaw { ret, errno } => {
                let mut r = String::from_str("Socket::OpenRouteRawError { ret: ");
                append_dec(&mut r, *ret as i64);
                append_errno_tail(&mut r, *errno, description);
                r
            },
            SocketError::GetLinkLevelAddress { fd, ifname, ret, errno } => {
                let mut r = String::from_str("Socket::GetLinkLevelAddressError { fd: ");
                append_dec(&mut r, *fd as i64);
                r.append(", ifname: ");
                r.append(ifname.debug_string().as_str());
                r.append(", ret: ");
                append_dec(&mut r, *ret as i64);
                append_errno_tail(&mut r, *errno, description);
                r
            },
            SocketError::SetLinkLevelAddress { fd, ifname, lladdr, ret, errno } => {
                let mut r = String::from_str("Socket::SetLinkLevelAddressError { fd: ");
                append_dec(&mut r, *fd as i64);
                r.append(", ifname: ");
                r.append(ifname.debug_string().as_str());
                r.append(", lladdr: ");
                let a = lladdr.to_string();
                r.append(debug_quoted(a.as_str()).as_str());
                r.append(", ret: ");
                append_dec(&mut r, *ret as i64);
                append_errno_tail(&mut r, *errno, description);
                r
            },
            SocketError::Read { fd, ret, errno } => {
                let mut r = String::from_str("Socket::Read { fd: ");
                append_dec(&mut r, *fd as i64);
                r.append(", ret: ");
                append_dec(&mut r, *ret as i64);
                append_errno_tail(&mut r, *errno, description);
                r
            },
            SocketError::Close { fd, ret, errno } => {
                let mut r = String::from_str("Socket::CloseError { fd: ");
                append_dec(&mut r, *fd as i64);
                r.append(", ret: ");
                append_dec(&mut r, *ret as i64);
                append_errno_tail(&mut r, *errno, description);
                r
            },
        }
    }
}

/// The calls made after those of `o`, when the history `c` starts with `o`.
pub open spec fn calls_after(c: Seq<SysCall>, o: Seq<SysCall>) -> Seq<SysCall> {
    c.skip(o.len() as int)
}

/// The history `c` continues the history `o`.
pub open spec fn continues(c: Seq<SysCall>, o: Seq<SysCall>) -> bool {
    o.len() <= c.len() && c.take(o.len() as int) == o
}

/// The descriptor an opening gave, or its error.
pub open spec fn socket_fd(r: Result<OpenSocket, SocketError>) -> Result<i32, SocketError> {
    match r {
        Ok(s) => Ok(s.fd()),
        Err(e) => Err(e),
    }
}

/// Opening a socket: the `socket` call, and the error number when it failed;
/// `domain` and `ty` pick the socket, `local` the error.
pub open spec fn open_conversation(
    new: Seq<SysCall>,
    domain: i32,
    ty: i32,
    local: bool,
    r: Result<i32, SocketError>,
) -> bool {
    new.len() >= 1 && match new[0] {
        SysCall::Socket { domain: d, ty: t, protocol, ret: fd } => d == domain && t == ty
            && protocol == 0 && if fd >= 0 {
            new.len() == 1 && r == Ok::<i32, SocketError>(fd)
        } else {
            new.len() == 2 && match new[1] {
                SysCall::Errno { ret: errno } => r == if local {
                    Err::<i32, SocketError>(SocketError::OpenLocalDgram { ret: fd, errno })
                } else {
                    Err::<i32, SocketError>(SocketError::OpenRouteRaw { ret: fd, errno })
                },
                _ => false,
            }
        },
        _ => false,
    }
}

/// Opens the local datagram socket that carries interface ioctls.
pub fn open_local_dgram<S: Sys>(k: &mut Kernel<S>) -> (r: Result<OpenSocket, SocketError>)
    ensures
        continues(final(k).calls(), old(k).calls()),
        open_conversation(calls_after(final(k).calls(), old(k).calls()), PF_LOCAL, SOCK_DGRAM, true, socket_fd(r)),
{
    let fd = k.socket(PF_LOCAL, SOCK_DGRAM, 0);
    if fd >= 0 {
        let r = Ok(OpenSocket { fd });
        proof {
            lemma_calls_after(final(k).calls(), old(k).calls(), 1);
        }
        r
    } else {
        let errno = k.errno();
        proof {
            lemma_calls_after(final(k).calls(), old(k).calls(), 2);
        }
        Err(SocketError::OpenLocalDgram { ret: fd, errno })
    }
}

/// Opens the raw routing socket the kernel reports interface changes on.
pub fn open_route_raw<S: Sys>(k: &mut Kernel<S>) -> (r: Result<OpenSocket, SocketError>)
    ensures
        continues(final(k).calls(), old(k).calls()),
        open_conversation(calls_after(final(k).calls(), old(k).calls()), PF_ROUTE, SOCK_RAW, false, socket_fd(r)),
{
    let fd = k.socket(PF_ROUTE, SOCK_RAW, 0);
    if fd >= 0 {
        let r = Ok(OpenSocket { fd });
        proof {
            lemma_calls_after(final(k).calls(), old(k).calls(), 1);
        }
        r
    } else {
        let errno = k.errno();
        proof {
            lemma_calls_after(final(k).calls(), old(k).calls(), 2);
        }
        Err(SocketError::OpenRouteRaw { ret: fd, errno })
    }
}

/// Histories that continue one another: what came after the first is what
/// came after the second, then what came after that.
pub proof fn lemma_continues(c2: Seq<SysCall>, c1: Seq<SysCall>, c0: Seq<SysCall>)
    requires
        continues(c2, c1),
        continues(c1, c0),
    ensures
        continues(c2, c0),
        calls_after(c2, c0) == calls_after(c1, c0) + calls_after(c2, c1),
{
    assert(c2.take(c0.len() as int) =~= c1.take(c0.len() as int));
    assert(calls_after(c2, c0) =~= calls_after(c1, c0) + calls_after(c2, c1));
}

/// A history that grew by `n` calls: what comes after the old part.
pub proof fn lemma_calls_after(c: Seq<SysCall>, o: Seq<SysCall>, n: nat)
    requires
        c.len() == o.len() + n,
        forall|i: int| 0 <= i < o.len() ==> c[i] == o[i],
    ensures
        continues(c, o),
        calls_after(c, o).len() == n,
        forall|i: int| 0 <= i < n ==> #[trigger] calls_after(c, o)[i] == c[o.len() + i],
{
    assert(c.take(o.len() as int) =~= o);
}

/// An ioctl on `fd` with `request`, and the error number when it failed.
pub open spec fn ioctl_conversation(new: Seq<SysCall>, fd: i32, request: u32, sent: Seq<u8>, received: Seq<u8>, get: bool, r: Result<(), SocketError>) -> bool {
    new.len() >= 1 && match new[0] {
        SysCall::Ioctl { fd: f, request: q, sent: s, received: v, ret } => f == fd && q == request
            && s == sent && v == received && if ret == 0 {
            new.len() == 1 && r is Ok
        } else {
            new.len() == 2 && match new[1] {
                SysCall::Errno { ret: errno } => if get {
                    (r matches Err(SocketError::GetLinkLevelAddress { fd: ef, ifname, ret: er, errno: ee })
                        && ef == fd && ifname@ == received.take(16) && er == ret && ee == errno)
                } else {
                    (r matches Err(SocketError::SetLinkLevelAddress { fd: ef, ifname, lladdr, ret: er, errno: ee })
                        && ef == fd && ifname@ == received.take(16) && lladdr@ == received.subrange(18, 24)
                        && er == ret && ee == errno)
                },
                _ => false,
            }
        },
        _ => false,
    }
}

/// A read on `fd`: what it gave, and the error number when it failed.
pub open spec fn read_conversation(new: Seq<SysCall>, fd: i32, received: Seq<u8>, r: Result<ReadResult, SocketError>) -> bool {
    new.len() >= 1 && match new[0] {
        SysCall::Read { fd: f, received: v, ret } => f == fd && v == received && if ret == 0 {
            new.len() == 1 && r == Ok::<ReadResult, SocketError>(ReadResult::EndOfRead)
        } else if ret > 0 {
            new.len() == 1 && r == Ok::<ReadResult, SocketError>(ReadResult::ReadLength(ret))
        } else {
            new.len() == 2 && match new[1] {
                SysCall::Errno { ret: errno } => r == Err::<ReadResult, SocketError>(SocketError::Read { fd, ret, errno }),
                _ => false,
            }
        },
        _ => false,
    }
}

/// Closing `fd`, and the error number when it failed.
pub open spec fn close_conversation(new: Seq<SysCall>, fd: i32, r: Result<(), SocketError>) -> bool {
    new.len() >= 1 && match new[0] {
        SysCall::Close { fd: f, ret } => f == fd && if ret == 0 {
            new.len() == 1 && r is Ok
        } else {
            new.len() == 2 && match new[1] {
                SysCall::Errno { ret: errno } => r == Err::<(), SocketError>(SocketError::Close { fd, ret, errno }),
                _ => false,
            }
        },
        _ => false,
    }
}

impl OpenSocket {
    /// The descriptor.
    pub closed spec fn fd(&self) -> i32 {
        self.fd
    }

    /// The socket for a descriptor that is open.
    pub fn from_fd(fd: i32) -> (r: OpenSocket)
        requires
            fd >= 0,
        ensures
            r.fd() == fd,
    {
        OpenSocket { fd }
    }

    /// The descriptor.
    pub fn as_fd(&self) -> (r: i32)
        ensures
            r == self.fd(),
    {
        self.fd
    }

    /// Asks the kernel for the link-level address of the interface named in
    /// the record, which the kernel writes into it.
    pub fn get_lladdr<S: Sys>(&self, k: &mut Kernel<S>, ifreq: &mut IfReq) -> (r: Result<(), SocketError>)
        ensures
            continues(final(k).calls(), old(k).calls()),
            ioctl_conversation(calls_after(final(k).calls(), old(k).calls()), self.fd(),
                siocgiflladdr_spec(), old(ifreq)@, final(ifreq)@, true, r),
    {
        let fd = self.fd;
        let request = siocgiflladdr();
        let ret = k.ioctl(fd, request, ifreq);
        if ret == 0 {
            proof {
                lemma_calls_after(final(k).calls(), old(k).calls(), 1);
            }
            Ok(())
        } else {
            let ifname = ifreq.name();
            let errno = k.errno();
            proof {
                lemma_calls_after(final(k).calls(), old(k).calls(), 2);
            }
            Err(SocketError::GetLinkLevelAddress { fd, ifname, ret, errno })
        }
    }

    /// Asks the kernel to give the interface named in the record the
    /// link-level address in it.
    pub fn set_lladdr<S: Sys>(&self, k: &mut Kernel<S>, ifreq: &mut IfReq) -> (r: Result<(), SocketError>)
        ensures
            continues(final(k).calls(), old(k).calls()),
            ioctl_conversation(calls_after(final(k).calls(), old(k).calls()), self.fd(),
                siocsiflladdr_spec(), old(ifreq)@, final(ifreq)@, false, r),
    {
        let fd = self.fd;
        let request = siocsiflladdr();
        let ret = k.ioctl(fd, request, ifreq);
        if ret == 0 {
            proof {
                lemma_calls_after(final(k).calls(), old(k).calls(), 1);
            }
            Ok(())
        } else {
            let ifname = ifreq.name();
            let lladdr = ifreq.lladdr();
            let errno = k.errno();
            proof {
                lemma_calls_after(final(k).calls(), old(k).calls(), 2);
            }
            Err(SocketError::SetLinkLevelAddress { fd, ifname, lladdr, ret, errno })
        }
    }

    /// Reads one message: zero bytes is the end of the stream, a negative
    /// answer a failure, anything else the length read.
    pub fn read<S: Sys>(&self, k: &mut Kernel<S>, buf: &mut Vec<u8>) -> (r: Result<ReadResult, SocketError>)
        ensures
            continues(final(k).calls(), old(k).calls()),
            read_conversation(calls_after(final(k).calls(), old(k).calls()), self.fd(), final(buf)@, r),
    {
        let fd = self.fd;
        let ret = k.read(fd, buf);
        if ret == 0 {
            proof {
                lemma_calls_after(final(k).calls(), old(k).calls(), 1);
            }
            Ok(ReadResult::EndOfRead)
        } else if ret < 0 {
            let errno = k.errno();
            proof {
                lemma_calls_after(final(k).calls(), old(k).calls(), 2);
            }
            Err(SocketError::Read { fd, ret, errno })
        } else {
            proof {
                lemma_calls_after(final(k).calls(), old(k).calls(), 1);
            }
            Ok(ReadResult::ReadLength(ret))
        }
    }

    /// Closes the descriptor, once: the socket is consumed.
    pub fn close<S: Sys>(self, k: &mut Kernel<S>) -> (r: Result<(), SocketError>)
        ensures
            continues(final(k).calls(), old(k).calls()),
            close_conversation(calls_after(final(k).calls(), old(k).calls()), self.fd(), r),
    {
        let fd = self.fd;
        let ret = k.close(fd);
        if ret == 0 {
            proof {
                lemma_calls_after(final(k).calls(), old(k).calls(), 1);
            }
            Ok(())
        } else {
            let errno = k.errno();
            proof {
                lemma_calls_after(final(k).calls(), old(k).calls(), 2);
            }
            Err(SocketError::Close { fd, ret, errno })
        }
    }
}

} // verus!
