//! Reading and changing the link-level address of an interface, and watching
//! the kernel report interfaces joining and leaving.
use vstd::prelude::*;

use crate::defs::{rtm_spec, Rtm, AF_LINK, IFT_ETHER, RTA_IFP, RTM_NEWMADDR, RTM_VERSION};
use crate::ifname::{IfName, IfNameError, name_fault, padded};
use crate::ifreq::{with_lladdr_bytes, with_name_bytes, IfReq};
use crate::lladdr::{hex_colon, parse_lladdr, LinkLevelAddress, ParseLinkLevelAddressError};
use crate::rtmsg::{
    ifmam_addrs_spec, link_ether, rta_index_from, rta_record, sdl_addr_bytes, sdl_name_bytes, u16_le,
    IfMaMsgHdr, RtMsgHdr, IFMA_HDR_SIZE, SDL_DATA_SIZE, SDL_SIZE,
};
use crate::socket::{
    calls_after, close_conversation, continues, ioctl_conversation, lemma_continues, open_conversation,
    open_local_dgram, open_route_raw, siocgiflladdr_spec, siocsiflladdr_spec, OpenSocket, ReadResult,
    SocketError,
};
use crate::sys::{Kernel, Sys, SysCall, PF_LOCAL, PF_ROUTE, SOCK_DGRAM, SOCK_RAW};
use crate::text::{append_dec_usize, ascii_chars, dec_text};
use vstd::string::StringSliceAdditionalSpecFns;

verus! {

/// A change the kernel reported: an Ethernet interface, with its index, name
/// and address, joined or left; or a message of no interest.
#[derive(Debug)]
pub enum NicEvent {
    NicNew((u16, IfName, LinkLevelAddress)),
    NicDel((u16, IfName, LinkLevelAddress)),
    NicNoop,
}

/// A reported change, over the bytes of names and addresses.
pub enum EventView {
    New(u16, Seq<u8>, Seq<u8>),
    Del(u16, Seq<u8>, Seq<u8>),
    Noop,
}

impl NicEvent {
    pub open spec fn view(&self) -> EventView {
        match self {
            NicEvent::NicNew((i, n, a)) => EventView::New(*i, n@, a@),
            NicEvent::NicDel((i, n, a)) => EventView::Del(*i, n@, a@),
            NicEvent::NicNoop => EventView::Noop,
        }
    }
}

/// The change a routing message reports: only a message of the known version
/// that adds or removes a multicast address of an Ethernet interface reports
/// one; every other message is of no interest.
pub open spec fn msg_event(b: Seq<u8>) -> EventView {
    if b.len() < IFMA_HDR_SIZE || b[2] != RTM_VERSION {
        EventView::Noop
    } else {
        let rtm = rtm_spec(b[3]);
        if rtm != Rtm::RtmNewmaddr && rtm != Rtm::RtmDelmaddr {
            EventView::Noop
        } else {
            match rta_record(b, RTA_IFP) {
                None => EventView::Noop,
                Some(s) => match link_ether(s) {
                    None => EventView::Noop,
                    Some((i, n, a)) => if rtm == Rtm::RtmNewmaddr {
                        EventView::New(i, n, a)
                    } else {
                        EventView::Del(i, n, a)
                    },
                },
            }
        }
    }
}

/// The change reported by the routing message in `buf`.
pub fn parse_msg(buf: &[u8]) -> (r: NicEvent)
    ensures
        r@ == msg_event(buf@),
{
    if buf.len() < IFMA_HDR_SIZE {
        return NicEvent::NicNoop;
    }
    let rtm = RtMsgHdr { buf };
    if rtm.rtm_version() != RTM_VERSION {
        return NicEvent::NicNoop;
    }
    let ty = rtm.rtm_type();
    let is_new = ty == Rtm::RtmNewmaddr;
    if !is_new && !(ty == Rtm::RtmDelmaddr) {
        return NicEvent::NicNoop;
    }
    let ifma = IfMaMsgHdr { buf };
    let sdl = match ifma.get_ifp() {
        Some(s) => s,
        None => return NicEvent::NicNoop,
    };
    match sdl.get_link_ether() {
        None => NicEvent::NicNoop,
        Some(nic) => if is_new {
            NicEvent::NicNew(nic)
        } else {
            NicEvent::NicDel(nic)
        },
    }
}

/// A message of the known version that adds a multicast address, whose only
/// address entry is the interface's link-level address, reports a new
/// interface with that entry's index, name and address when the interface is
/// Ethernet, and nothing otherwise.
pub proof fn lemma_new_interface_message(b: Seq<u8>, index: u16, name: Seq<u8>, addr: Seq<u8>)
    requires
        b.len() >= IFMA_HDR_SIZE + SDL_SIZE,
        b[2] == RTM_VERSION,
        b[3] == RTM_NEWMADDR,
        ifmam_addrs_spec(b) == RTA_IFP,
        b[17] == AF_LINK,
        u16_le(b[18], b[19]) == index,
        b[21] == name.len(),
        b[22] == 6,
        name.len() + 6 <= SDL_DATA_SIZE,
        b.subrange(24, 24 + name.len() as int) == name,
        b.subrange(24 + name.len() as int, 30 + name.len() as int) == addr,
        name_fault(name) is None,
    ensures
        b[20] == IFT_ETHER ==> msg_event(b) == EventView::New(index, padded(name), addr),
        b[20] != IFT_ETHER ==> msg_event(b) == EventView::Noop,
{
    let m = RTA_IFP;
    assert((m >> 0u32) & 1u32 != 1u32) by (bit_vector)
        requires
            m == 0x10u32,
    ;
    assert((m >> 1u32) & 1u32 != 1u32) by (bit_vector)
        requires
            m == 0x10u32,
    ;
    assert((m >> 2u32) & 1u32 != 1u32) by (bit_vector)
        requires
            m == 0x10u32,
    ;
    assert((m >> 3u32) & 1u32 != 1u32) by (bit_vector)
        requires
            m == 0x10u32,
    ;
    assert((m >> 4u32) & 1u32 == 1u32) by (bit_vector)
        requires
            m == 0x10u32,
    ;
    assert(rta_index_from(m, m, 4, 0) == Some(0nat));
    assert(rta_index_from(m, m, 3, 0) == Some(0nat));
    assert(rta_index_from(m, m, 2, 0) == Some(0nat));
    assert(rta_index_from(m, m, 1, 0) == Some(0nat));
    assert(rta_index_from(m, m, 0, 0) == Some(0nat));
    let s = b.subrange(16, 36);
    assert(rta_record(b, RTA_IFP) == Some(s));
    assert(s[1] == b[17] && s[2] == b[18] && s[3] == b[19] && s[4] == b[20]);
    assert(s[5] == b[21] && s[6] == b[22]);
    assert(sdl_name_bytes(s) =~= name);
    assert(sdl_addr_bytes(s) =~= addr);
}

/// The diagnostic a routing message calls for: one of a version this library
/// does not read, or of a type the kernel does not define. Both report no
/// change.
pub open spec fn msg_note_text(b: Seq<u8>) -> Option<Seq<char>> {
    if b.len() < IFMA_HDR_SIZE {
        None
    } else if b[2] != RTM_VERSION {
        Some("routing message version "@ + ascii_chars(dec_text(b[2] as int)) + " is not understood"@)
    } else if rtm_spec(b[3]) is RtmInvalid {
        Some("routing message type "@ + ascii_chars(dec_text(b[3] as int)) + " is not understood"@)
    } else {
        None
    }
}

/// The diagnostic the routing message in `buf` calls for, if any.
pub fn msg_note(buf: &[u8]) -> (r: Option<String>)
    ensures
        match msg_note_text(buf@) {
            None => r is None,
            Some(t) => (r matches Some(x) && x@ == t),
        },
{
    if buf.len() < IFMA_HDR_SIZE {
        return None;
    }
    let rtm = RtMsgHdr { buf };
    let version = rtm.rtm_version();
    if version != RTM_VERSION {
        let mut t = String::from_str("routing message version ");
        append_dec_usize(&mut t, version as usize);
        t.append(" is not understood");
        return Some(t);
    }
    match rtm.rtm_type() {
        Rtm::RtmInvalid(v) => {
            let mut t = String::from_str("routing message type ");
            append_dec_usize(&mut t, v as usize);
            t.append(" is not understood");
            Some(t)
        },
        _ => None,
    }
}

/// A monitor of interface changes, over an open routing socket. `close`
/// releases the socket; a monitor dropped without it leaves the socket open.
#[derive(Debug)]
pub struct NicMonitor {
    socket: OpenSocket,
}

/// The descriptor of the monitor an opening gave, or its error.
pub open spec fn monitor_fd(r: Result<NicMonitor, SocketError>) -> Result<i32, SocketError> {
    match r {
        Ok(m) => Ok(m.fd()),
        Err(e) => Err(e),
    }
}

/// Opens a monitor of interface changes: a raw routing socket.
pub fn monitor<S: Sys>(k: &mut Kernel<S>) -> (r: Result<NicMonitor, SocketError>)
    ensures
        continues(final(k).calls(), old(k).calls()),
        open_conversation(calls_after(final(k).calls(), old(k).calls()), PF_ROUTE, SOCK_RAW, false, monitor_fd(r)),
{
    match open_route_raw(k) {
        Ok(socket) => Ok(NicMonitor { socket }),
        Err(e) => Err(e),
    }
}

/// Reading the next change: the read, and the error number when it failed.
/// The stream ends on an empty read; a failed read is reported; any other
/// read gives the change its message reports.
pub open spec fn next_conversation(new: Seq<SysCall>, fd: i32, r: Option<Result<NicEvent, SocketError>>) -> bool {
    new.len() >= 1 && match new[0] {
        SysCall::Read { fd: f, received, ret } => f == fd && if ret == 0 {
            new.len() == 1 && r is None
        } else if ret > 0 {
            new.len() == 1 && (r matches Some(Ok(ev)) && ev@ == msg_event(received))
        } else {
            new.len() == 2 && match new[1] {
                SysCall::Errno { ret: errno } => r == Some(Err::<NicEvent, SocketError>(SocketError::Read { fd, ret, errno })),
                _ => false,
            }
        },
        _ => false,
    }
}

impl NicMonitor {
    /// The descriptor of the routing socket.
    pub closed spec fn fd(&self) -> i32 {
        self.socket.fd()
    }

    /// The next change: reads one message and reports what it says. `None`
    /// when the kernel ends the stream; a failed read is reported, and the
    /// monitor can be asked again.
    pub fn next<S: Sys>(&mut self, k: &mut Kernel<S>) -> (r: Option<Result<NicEvent, SocketError>>)
        ensures
            continues(final(k).calls(), old(k).calls()),
            next_conversation(calls_after(final(k).calls(), old(k).calls()), old(self).fd(), r),
            final(self).fd() == old(self).fd(),
    {
        let (r, _) = self.next_with_note(k);
        r
    }

    /// The next change, as `next` gives it, with the diagnostic its message
    /// calls for, if one was read.
    pub fn next_with_note<S: Sys>(&mut self, k: &mut Kernel<S>) -> (r: (Option<Result<NicEvent, SocketError>>, Option<String>))
        ensures
            continues(final(k).calls(), old(k).calls()),
            next_conversation(calls_after(final(k).calls(), old(k).calls()), old(self).fd(), r.0),
            final(self).fd() == old(self).fd(),
            match calls_after(final(k).calls(), old(k).calls())[0] {
                SysCall::Read { received, ret, .. } => if ret > 0 {
                    match msg_note_text(received) {
                        None => r.1 is None,
                        Some(t) => (r.1 matches Some(x) && x@ == t),
                    }
                } else {
                    r.1 is None
                },
                _ => false,
            },
    {
        let mut buf = crate::rtmsg::new();
        match self.socket.read(k, &mut buf) {
            Ok(ReadResult::ReadLength(_)) => {
                let note = msg_note(buf.as_slice());
                (Some(Ok(parse_msg(buf.as_slice()))), note)
            },
            Ok(ReadResult::EndOfRead) => (None, None),
            Err(e) => (Some(Err(e)), None),
        }
    }

    /// Stops the monitor and closes its socket.
    pub fn close<S: Sys>(self, k: &mut Kernel<S>) -> (r: Result<(), SocketError>)
        ensures
            continues(final(k).calls(), old(k).calls()),
            close_conversation(calls_after(final(k).calls(), old(k).calls()), self.fd(), r),
    {
        self.socket.close(k)
    }
}

/// The record the "get" call hands to the kernel: all zero but the name.
pub open spec fn get_request(ifname: Seq<u8>) -> Seq<u8> {
    with_name_bytes(Seq::new(32, |i: int| 0u8), ifname)
}

/// The record the "set" call hands to the kernel: all zero but the name and
/// the address.
pub open spec fn set_request(ifname: Seq<u8>, addr: Seq<u8>) -> Seq<u8> {
    with_lladdr_bytes(get_request(ifname), addr)
}

/// `fd` is closed: the close call, and the error number when it failed.
pub open spec fn closes(new: Seq<SysCall>, fd: i32) -> bool {
    new.len() >= 1 && match new[0] {
        SysCall::Close { fd: f, ret } => f == fd && if ret == 0 {
            new.len() == 1
        } else {
            new.len() == 2 && new[1] is Errno
        },
        _ => false,
    }
}

/// Asking for an address over the control socket: open it, issue the ioctl
/// `request` with the record `sent`, close it; `get` tells the "get" call
/// from the "set" call. A failed open ends the exchange; a failed ioctl is
/// reported with what the kernel left in the record; a failed close is not
/// reported. A "get" gives the address field of the record the kernel
/// handed back, a "set" nothing.
pub open spec fn control_conversation(new: Seq<SysCall>, request: u32, sent: Seq<u8>, get: bool, r: Result<Seq<u8>, SocketError>) -> bool {
    new.len() >= 1 && match new[0] {
        SysCall::Socket { domain, ty, protocol, ret: fd } => domain == PF_LOCAL && ty == SOCK_DGRAM
            && protocol == 0 && if fd < 0 {
            new.len() == 2 && match new[1] {
                SysCall::Errno { ret: errno } => r == Err::<Seq<u8>, SocketError>(SocketError::OpenLocalDgram { ret: fd, errno }),
                _ => false,
            }
        } else {
            new.len() >= 2 && match new[1] {
                SysCall::Ioctl { fd: f, request: q, sent: s, received, ret } => f == fd && q == request
                    && s == sent && if ret == 0 {
                    closes(new.skip(2), fd) && r == Ok::<Seq<u8>, SocketError>(
                        if get { received.subrange(18, 24) } else { Seq::empty() },
                    )
                } else {
                    new.len() >= 3 && match new[2] {
                        SysCall::Errno { ret: errno } => closes(new.skip(3), fd) && if get {
                            (r matches Err(SocketError::GetLinkLevelAddress { fd: ef, ifname, ret: er, errno: ee })
                                && ef == fd && ifname@ == received.take(16) && er == ret && ee == errno)
                        } else {
                            (r matches Err(SocketError::SetLinkLevelAddress { fd: ef, ifname, lladdr, ret: er, errno: ee })
                                && ef == fd && ifname@ == received.take(16)
                                && lladdr@ == received.subrange(18, 24) && er == ret && ee == errno)
                        },
                        _ => false,
                    }
                },
                _ => false,
            }
        },
        _ => false,
    }
}

/// An address result, over the octets.
pub open spec fn addr_view(r: Result<LinkLevelAddress, SocketError>) -> Result<Seq<u8>, SocketError> {
    match r {
        Ok(a) => Ok(a@),
        Err(e) => Err(e),
    }
}

/// A result without a value, with an empty value.
pub open spec fn unit_view(r: Result<(), SocketError>) -> Result<Seq<u8>, SocketError> {
    match r {
        Ok(()) => Ok(Seq::empty()),
        Err(e) => Err(e),
    }
}

/// Where an open-ioctl-close exchange stands after each step.
proof fn lemma_control(
    c0: Seq<SysCall>,
    c1: Seq<SysCall>,
    c2: Seq<SysCall>,
    c3: Seq<SysCall>,
    fd: i32,
    request: u32,
    sent: Seq<u8>,
    received: Seq<u8>,
    get: bool,
    rio: Result<(), SocketError>,
    rc: Result<(), SocketError>,
    r: Result<Seq<u8>, SocketError>,
)
    requires
        continues(c1, c0),
        continues(c2, c1),
        continues(c3, c2),
        fd >= 0,
        calls_after(c1, c0) == seq![SysCall::Socket { domain: PF_LOCAL, ty: SOCK_DGRAM, protocol: 0, ret: fd }],
        ioctl_conversation(calls_after(c2, c1), fd, request, sent, received, get, rio),
        close_conversation(calls_after(c3, c2), fd, rc),
        rio is Ok ==> r == Ok::<Seq<u8>, SocketError>(if get { received.subrange(18, 24) } else { Seq::empty() }),
        rio is Err ==> r == Err::<Seq<u8>, SocketError>(rio->Err_0),
    ensures
        continues(c3, c0),
        control_conversation(calls_after(c3, c0), request, sent, get, r),
{
    lemma_continues(c2, c1, c0);
    lemma_continues(c3, c2, c0);
    let a = calls_after(c1, c0);
    let b = calls_after(c2, c1);
    let c = calls_after(c3, c2);
    let n = calls_after(c3, c0);
    assert(n =~= a + b + c);
    assert(n[0] == a[0]);
    assert(n[1] == b[0]);
    if rio is Ok {
        assert(b.len() == 1);
        assert(n.skip(2) =~= c);
    } else {
        assert(b.len() == 2);
        assert(n[2] == b[1]);
        assert(n.skip(3) =~= c);
    }
}

/// The link-level address of an interface: opens the control socket, asks the
/// kernel, closes the socket. A failure to close is not reported.
pub fn get_lladdr<S: Sys>(k: &mut Kernel<S>, ifname: &IfName) -> (r: Result<LinkLevelAddress, SocketError>)
    ensures
        continues(final(k).calls(), old(k).calls()),
        control_conversation(calls_after(final(k).calls(), old(k).calls()), siocgiflladdr_spec(),
            get_request(ifname@), true, addr_view(r)),
{
    let mut ifreq = IfReq::new().with_name(ifname);
    let ghost sent = ifreq@;
    let ghost c0 = k.calls();
    let socket = match open_local_dgram(k) {
        Ok(s) => s,
        Err(e) => {
            proof {
                let n = calls_after(k.calls(), c0);
                assert(n.len() == 2);
            }
            return Err(e);
        },
    };
    let ghost c1 = k.calls();
    let ghost fd = socket.fd();
    proof {
        let n = calls_after(c1, c0);
        assert(n =~= seq![SysCall::Socket { domain: PF_LOCAL, ty: SOCK_DGRAM, protocol: 0, ret: fd }]);
    }
    let res = socket.get_lladdr(k, &mut ifreq);
    let ghost c2 = k.calls();
    let ghost received = ifreq@;
    let closed = socket.close(k);
    let r = match res {
        Ok(()) => Ok(ifreq.lladdr()),
        Err(e) => Err(e),
    };
    proof {
        lemma_control(c0, c1, c2, k.calls(), fd, siocgiflladdr_spec(), sent, received, true, res,
            closed, addr_view(r));
    }
    r
}

/// Gives an interface a link-level address: opens the control socket, asks the
/// kernel, closes the socket. A failure to close is not reported.
pub fn set_lladdr<S: Sys>(k: &mut Kernel<S>, ifname: &IfName, lladdr: &LinkLevelAddress) -> (r: Result<(), SocketError>)
    ensures
        continues(final(k).calls(), old(k).calls()),
        control_conversation(calls_after(final(k).calls(), old(k).calls()), siocsiflladdr_spec(),
            set_request(ifname@, lladdr@), false, unit_view(r)),
{
    let mut ifreq = IfReq::new().with_name(ifname).with_lladdr(lladdr);
    let ghost sent = ifreq@;
    let ghost c0 = k.calls();
    let socket = match open_local_dgram(k) {
        Ok(s) => s,
        Err(e) => {
            proof {
                let n = calls_after(k.calls(), c0);
                assert(n.len() == 2);
            }
            return Err(e);
        },
    };
    let ghost c1 = k.calls();
    let ghost fd = socket.fd();
    proof {
        let n = calls_after(c1, c0);
        assert(n =~= seq![SysCall::Socket { domain: PF_LOCAL, ty: SOCK_DGRAM, protocol: 0, ret: fd }]);
    }
    let res = socket.set_lladdr(k, &mut ifreq);
    let ghost c2 = k.calls();
    let ghost received = ifreq@;
    let closed = socket.close(k);
    proof {
        lemma_control(c0, c1, c2, k.calls(), fd, siocsiflladdr_spec(), sent, received, false, res,
            closed, unit_view(res));
    }
    res
}

/// Asking twice for the address of an interface gives the same answer when
/// the kernel answered the two requests alike (as it does when nothing set
/// the address in between): the value comes from the kernel's answer alone.
pub proof fn lemma_get_twice(
    n1: Seq<SysCall>,
    n2: Seq<SysCall>,
    name: Seq<u8>,
    r1: Result<Seq<u8>, SocketError>,
    r2: Result<Seq<u8>, SocketError>,
)
    requires
        control_conversation(n1, siocgiflladdr_spec(), get_request(name), true, r1),
        control_conversation(n2, siocgiflladdr_spec(), get_request(name), true, r2),
        n1.len() >= 2 && n2.len() >= 2,
        n1[0] == n2[0],
        n1[1] == n2[1],
    ensures
        r1 is Ok <==> r2 is Ok,
        r1 is Ok ==> r1 == r2,
{
}

/// Why a request by name and text failed.
#[derive(Clone, Debug, PartialEq, Eq)]
pub enum NicError {
    Name(IfNameError),
    Address(ParseLinkLevelAddressError),
    Socket(SocketError),
}

/// What a text result says, given the address result it came from.
pub open spec fn text_of(a: Result<LinkLevelAddress, SocketError>, r: Result<String, NicError>) -> bool {
    match a {
        Ok(x) => (r matches Ok(t) && t@ == ascii_chars(hex_colon(x@))),
        Err(e) => r == Err::<String, NicError>(NicError::Socket(e)),
    }
}

/// Reads and changes link-level addresses through a system.
pub struct Nic<S: Sys> {
    kernel: Kernel<S>,
}

impl<S: Sys> Nic<S> {
    /// The calls made so far.
    pub closed spec fn calls(&self) -> Seq<SysCall> {
        self.kernel.calls()
    }

    /// The controller that calls into `sys`.
    pub fn new(sys: S) -> (r: Nic<S>)
        ensures
            r.calls() == Seq::<SysCall>::empty(),
    {
        Nic { kernel: Kernel::new(sys) }
    }

    /// Gives back the system.
    pub fn into_sys(self) -> S {
        self.kernel.into_sys()
    }

    /// The link-level address of an interface.
    pub fn get_lladd(&mut self, ifname: &IfName) -> (r: Result<LinkLevelAddress, SocketError>)
        ensures
            continues(final(self).calls(), old(self).calls()),
            control_conversation(calls_after(final(self).calls(), old(self).calls()),
                siocgiflladdr_spec(), get_request(ifname@), true, addr_view(r)),
    {
        get_lladdr(&mut self.kernel, ifname)
    }

    /// Gives an interface a link-level address.
    pub fn set_lladd(&mut self, ifname: &IfName, lladdr: &LinkLevelAddress) -> (r: Result<(), SocketError>)
        ensures
            continues(final(self).calls(), old(self).calls()),
            control_conversation(calls_after(final(self).calls(), old(self).calls()),
                siocsiflladdr_spec(), set_request(ifname@, lladdr@), false, unit_view(r)),
    {
        set_lladdr(&mut self.kernel, ifname, lladdr)
    }

    /// The link-level address of the interface with the given name, as text.
    /// A name that is not one is refused before any call.
    pub fn get_mac_address(&mut self, name: &str) -> (r: Result<String, NicError>)
        ensures
            match name_fault(name.spec_bytes()) {
                Some(_) => (r matches Err(NicError::Name(_))) && final(self).calls() == old(self).calls(),
                None => continues(final(self).calls(), old(self).calls()) && exists|a: Result<LinkLevelAddress, SocketError>|
                    #[trigger] control_conversation(calls_after(final(self).calls(), old(self).calls()),
                        siocgiflladdr_spec(), get_request(padded(name.spec_bytes())), true, addr_view(a))
                        && text_of(a, r),
            },
    {
        let ifname = match IfName::try_from(name) {
            Ok(n) => n,
            Err(e) => return Err(NicError::Name(e)),
        };
        let a = get_lladdr(&mut self.kernel, &ifname);
        let r = match a {
            Ok(x) => Ok(x.to_string()),
            Err(e) => Err(NicError::Socket(e)),
        };
        proof {
            assert(text_of(a, r));
        }
        r
    }

    /// Gives the interface with the given name the link-level address written
    /// in `mac_address`. A name or an address that is not one is refused
    /// before any call.
    pub fn set_mac_address(&mut self, name: &str, mac_address: &str) -> (r: Result<(), NicError>)
        ensures
            match (name_fault(name.spec_bytes()), parse_lladdr(mac_address@)) {
                (Some(_), _) => (r matches Err(NicError::Name(_))) && final(self).calls() == old(self).calls(),
                (None, Err(_)) => (r matches Err(NicError::Address(_))) && final(self).calls() == old(self).calls(),
                (None, Ok(o)) => continues(final(self).calls(), old(self).calls()) && exists|a: Result<(), SocketError>|
                    #[trigger] control_conversation(calls_after(final(self).calls(), old(self).calls()),
                        siocsiflladdr_spec(), set_request(padded(name.spec_bytes()), o), false, unit_view(a))
                        && r == match a {
                            Ok(()) => Ok::<(), NicError>(()),
                            Err(e) => Err(NicError::Socket(e)),
                        },
            },
    {
        let ifname = match IfName::try_from(name) {
            Ok(n) => n,
            Err(e) => return Err(NicError::Name(e)),
        };
        let lladdr = match LinkLevelAddress::from_str(mac_address) {
            Ok(a) => a,
            Err(e) => return Err(NicError::Address(e)),
        };
        let a = set_lladdr(&mut self.kernel, &ifname, &lladdr);
        match a {
            Ok(()) => Ok(()),
            Err(e) => Err(NicError::Socket(e)),
        }
    }
}

} // verus!
