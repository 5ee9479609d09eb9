use std::collections::VecDeque;

use net_sys::ifname::IfName;
use net_sys::ifreq::IfReq;
use net_sys::lladdr::LinkLevelAddress;
use net_sys::nic::{self, parse_msg, Nic, NicError, NicEvent};
use net_sys::socket::{
    open_local_dgram, siocgiflladdr, siocsiflladdr, OpenSocket, ReadResult, SocketError,
};
use net_sys::sys::{Kernel, Sys, PF_LOCAL, PF_ROUTE, SOCK_DGRAM, SOCK_RAW};
use net_sys::text::strerror;

const EPERM: i32 = 1;
const EBADF: i32 = 9;
const EINTR: i32 = 4;
const EINVAL: i32 = 22;
const MOCK_FD: i32 = 3;
const MOCK_SUCCESS: i32 = 0;
const MOCK_FAILURE: i32 = -1;

/// What the simulated kernel answers to one read.
enum ReadStep {
    Message(Vec<u8>),
    End,
    Fail,
}

/// A simulated kernel: interfaces with their addresses, scripted answers,
/// and a log of the calls it received.
struct FakeSys {
    nics: Vec<(IfName, LinkLevelAddress)>,
    socket_ret: i32,
    ioctl_ret: Option<i32>,
    close_ret: i32,
    errno: i32,
    reads: VecDeque<ReadStep>,
    calls: Vec<String>,
}

impl FakeSys {
    fn new() -> FakeSys {
        FakeSys {
            nics: Vec::new(),
            socket_ret: MOCK_FD,
            ioctl_ret: None,
            close_ret: MOCK_SUCCESS,
            errno: 0,
            reads: VecDeque::new(),
            calls: Vec::new(),
        }
    }

    fn with_nic(mut self, ifname: IfName, lladdr: LinkLevelAddress) -> FakeSys {
        self.nics.push((ifname, lladdr));
        self
    }

    fn has_nic(&self, ifname: &IfName, lladdr: &LinkLevelAddress) -> bool {
        self.nics.iter().any(|(n, a)| n == ifname && a == lladdr)
    }
}

impl Sys for FakeSys {
    fn socket(&mut self, domain: i32, ty: i32, protocol: i32) -> i32 {
        self.calls.push(format!("socket({domain}, {ty}, {protocol})"));
        self.socket_ret
    }

    fn ioctl(&mut self, fd: i32, request: u32, ifreq: &mut IfReq) -> i32 {
        let ifname = ifreq.name();
        self.calls.push(format!("ioctl({fd}, {request:#x}, {})", ifname.to_string()));
        if let Some(ret) = self.ioctl_ret {
            return ret;
        }
        if request == siocgiflladdr() {
            match self.nics.iter().find(|(n, _)| *n == ifname) {
                Some((_, lladdr)) => {
                    ifreq.change_lladdr(lladdr);
                    0
                }
                None => -1,
            }
        } else if request == siocsiflladdr() {
            let lladdr = ifreq.lladdr();
            self.nics.retain(|(n, _)| *n != ifname);
            self.nics.push((ifname, lladdr));
            0
        } else {
            -1
        }
    }

    fn read(&mut self, fd: i32, buf: &mut Vec<u8>) -> isize {
        self.calls.push(format!("read({fd})"));
        match self.reads.pop_front() {
            Some(ReadStep::Message(m)) => {
                buf[..m.len()].copy_from_slice(&m);
                m.len() as isize
            }
            Some(ReadStep::Fail) => -1,
            Some(ReadStep::End) | None => 0,
        }
    }

    fn close(&mut self, fd: i32) -> i32 {
        self.calls.push(format!("close({fd})"));
        self.close_ret
    }

    fn errno(&mut self) -> i32 {
        self.calls.push("errno()".to_string());
        self.errno
    }
}

fn ifname() -> IfName {
    IfName::try_from("enx").unwrap()
}

fn lladdr() -> LinkLevelAddress {
    LinkLevelAddress::from_str("00:11:22:33:44:55").unwrap()
}

fn local_socket_call() -> String {
    format!("socket({PF_LOCAL}, {SOCK_DGRAM}, 0)")
}

/// A routing message of the given type about an interface, with the
/// interface's link-level socket address as the only entry of its array.
fn ifma_message(rtm_type: u8, sdl_type: u8, index: u16, name: &[u8], addr: &[u8]) -> Vec<u8> {
    let mut m = vec![0u8; 36];
    m[0] = 36;
    m[2] = 5;
    m[3] = rtm_type;
    m[4] = 0x10;
    m[12] = index as u8;
    let sdl = &mut m[16..36];
    sdl[0] = 20;
    sdl[1] = 18;
    sdl[2..4].copy_from_slice(&index.to_le_bytes());
    sdl[4] = sdl_type;
    sdl[5] = name.len() as u8;
    sdl[6] = addr.len() as u8;
    sdl[7] = 0;
    sdl[8..8 + name.len()].copy_from_slice(name);
    sdl[8 + name.len()..8 + name.len() + addr.len()].copy_from_slice(addr);
    m
}

fn in_buffer(m: &[u8]) -> Vec<u8> {
    let mut buf = net_sys::rtmsg::new();
    buf[..m.len()].copy_from_slice(m);
    buf
}

#[test]
fn test_get_lladdr() {
    let sys = FakeSys::new().with_nic(ifname(), lladdr());

    let mut k = Kernel::new(sys);
    let got = nic::get_lladdr(&mut k, &ifname()).unwrap();

    assert_eq!(got, lladdr());
    assert_eq!(
        k.sys().calls,
        vec![local_socket_call(), format!("ioctl(3, 0xc020699e, enx)"), "close(3)".to_string()]
    );
}

#[test]
fn test_get_lladdr_open_error() {
    let mut sys = FakeSys::new();
    sys.socket_ret = MOCK_FAILURE;
    sys.errno = EPERM;

    let mut k = Kernel::new(sys);
    let error = nic::get_lladdr(&mut k, &ifname()).unwrap_err();

    assert_eq!(error, SocketError::OpenLocalDgram { ret: -1, errno: EPERM });
    assert_eq!(k.sys().calls, vec![local_socket_call(), "errno()".to_string()]);
}

#[test]
fn test_get_lladdr_error() {
    let mut sys = FakeSys::new();
    sys.errno = EBADF;

    let mut k = Kernel::new(sys);
    let error = nic::get_lladdr(&mut k, &ifname()).unwrap_err();

    assert_eq!(
        error,
        SocketError::GetLinkLevelAddress { fd: MOCK_FD, ifname: ifname(), ret: -1, errno: EBADF }
    );
    assert_eq!(k.sys().calls.last().unwrap(), "close(3)");
}

#[test]
fn test_set_lladdr() {
    let sys = FakeSys::new();

    let mut k = Kernel::new(sys);
    nic::set_lladdr(&mut k, &ifname(), &lladdr()).unwrap();

    assert!(k.sys().has_nic(&ifname(), &lladdr()));
    assert_eq!(k.sys().calls[1], "ioctl(3, 0x8020693c, enx)");
}

#[test]
fn test_set_lladdr_open_error() {
    let mut sys = FakeSys::new();
    sys.socket_ret = MOCK_FAILURE;
    sys.errno = EPERM;

    let mut k = Kernel::new(sys);
    let error = nic::set_lladdr(&mut k, &ifname(), &lladdr()).unwrap_err();

    assert_eq!(error, SocketError::OpenLocalDgram { ret: -1, errno: EPERM });
}

#[test]
fn test_set_lladdr_error() {
    let mut sys = FakeSys::new();
    sys.ioctl_ret = Some(MOCK_FAILURE);
    sys.errno = EINVAL;

    let mut k = Kernel::new(sys);
    let error = nic::set_lladdr(&mut k, &ifname(), &lladdr()).unwrap_err();

    assert_eq!(
        error,
        SocketError::SetLinkLevelAddress {
            fd: MOCK_FD,
            ifname: ifname(),
            lladdr: lladdr(),
            ret: -1,
            errno: EINVAL
        }
    );
    assert_eq!(k.sys().calls.last().unwrap(), "close(3)");
}

#[test]
fn test_socket_open_local_dgram() {
    let mut sys = FakeSys::new();
    sys.socket_ret = 10;
    let expected_open_socket = "OpenSocket { fd: 10 }";

    let mut k = Kernel::new(sys);
    let open_socket = open_local_dgram(&mut k).unwrap();

    assert_eq!(format!("{:?}", open_socket), expected_open_socket);
    assert_eq!(k.sys().calls, vec![local_socket_call()]);
    open_socket.close(&mut k).unwrap();
    assert_eq!(k.sys().calls[1], "close(10)");
}

#[test]
fn test_socket_open_local_dgram_error() {
    let mut sys = FakeSys::new();
    sys.socket_ret = MOCK_FAILURE;
    sys.errno = EPERM;
    let expected_error =
        "Socket::OpenLocalDgramError { ret: -1, errno: 1, strerror: \"Operation not permitted\" }";

    let mut k = Kernel::new(sys);
    let error = open_local_dgram(&mut k).unwrap_err();

    assert_eq!(error.to_string(), expected_error);
}

#[test]
fn test_open_socket_debug() {
    let expected_debug = "OpenSocket { fd: 3 }";

    let open_socket = OpenSocket::from_fd(MOCK_FD);

    assert_eq!(format!("{:?}", open_socket), expected_debug);
}

#[test]
fn test_open_socket_get_lladdr() {
    let mut sys = FakeSys::new().with_nic(ifname(), lladdr());
    let mut ifreq = IfReq::new().with_name(&ifname());

    let mut k = Kernel::new(sys);
    let socket = open_local_dgram(&mut k).unwrap();
    socket.get_lladdr(&mut k, &mut ifreq).unwrap();

    assert_eq!(ifreq.lladdr(), lladdr());
    assert_eq!(k.sys().calls[1], "ioctl(3, 0xc020699e, enx)");
}

#[test]
fn test_open_socket_get_lladdr_error() {
    let mut sys = FakeSys::new();
    sys.ioctl_ret = Some(MOCK_FAILURE);
    sys.errno = EBADF;
    let expected_error = "Socket::GetLinkLevelAddressError { fd: 3, ifname: \"enx\", ret: -1, errno: 9, strerror: \"Bad file descriptor\" }";
    let mut ifreq = IfReq::new().with_name(&ifname());

    let mut k = Kernel::new(sys);
    let error = open_local_dgram(&mut k)
        .unwrap()
        .get_lladdr(&mut k, &mut ifreq)
        .unwrap_err();

    assert_eq!(error.to_string(), expected_error);
}

#[test]
fn test_open_socket_set_lladdr() {
    let mut sys = FakeSys::new();
    let mut ifreq = IfReq::new().with_name(&ifname()).with_lladdr(&lladdr());

    let mut k = Kernel::new(sys);
    open_local_dgram(&mut k).unwrap().set_lladdr(&mut k, &mut ifreq).unwrap();

    assert!(k.sys().has_nic(&ifname(), &lladdr()));
}

#[test]
fn test_open_socket_set_lladdr_error() {
    let mut sys = FakeSys::new();
    sys.ioctl_ret = Some(MOCK_FAILURE);
    sys.errno = EINVAL;
    let expected_error = "Socket::SetLinkLevelAddressError { fd: 3, ifname: \"enx\", lladdr: \"00:11:22:33:44:55\", ret: -1, errno: 22, strerror: \"Invalid argument\" }";
    let mut ifreq = IfReq::new().with_name(&ifname()).with_lladdr(&lladdr());

    let mut k = Kernel::new(sys);
    let error = open_local_dgram(&mut k)
        .unwrap()
        .set_lladdr(&mut k, &mut ifreq)
        .unwrap_err();

    assert_eq!(error.to_string(), expected_error);
}

#[test]
fn test_open_socket_close() {
    let sys = FakeSys::new();

    let mut k = Kernel::new(sys);
    let open_socket = open_local_dgram(&mut k).unwrap();
    let closed = open_socket.close(&mut k);

    assert_eq!(closed, Ok(()));
    assert_eq!(k.sys().calls, vec![local_socket_call(), "close(3)".to_string()]);
}

#[test]
fn test_open_socket_close_error() {
    let mut sys = FakeSys::new();
    sys.close_ret = MOCK_FAILURE;
    sys.errno = EINTR;

    let mut k = Kernel::new(sys);
    let open_socket = open_local_dgram(&mut k).unwrap();
    let closed = open_socket.close(&mut k);

    assert_eq!(closed, Err(SocketError::Close { fd: MOCK_FD, ret: -1, errno: EINTR }));
    assert_eq!(k.sys().calls.last().unwrap(), "errno()");
}

#[test]
fn test_sys_strerror() {
    let errno = 1;

    let strerror = strerror(errno);

    assert_eq!(strerror, "Operation not permitted");
}

#[test]
fn socket_test_local_dgram_socket_get_lladdr() {
    let ifname = IfName::try_from("en").unwrap();
    let expected_lladdr = LinkLevelAddress::from_str("00:11:22:33:44:55").unwrap();
    let mut sys = FakeSys::new().with_nic(ifname, expected_lladdr);
    let mut ifreq = IfReq::new();
    ifreq.change_name(&ifname);

    let mut k = Kernel::new(sys);
    open_local_dgram(&mut k).unwrap().get_lladdr(&mut k, &mut ifreq).unwrap();

    assert_eq!(ifreq.lladdr(), expected_lladdr);
}

#[test]
fn socket_test_local_dgram_socket_set_lladdr() {
    let ifname = IfName::try_from("en").unwrap();
    let lladdr = LinkLevelAddress::from_str("00:11:22:33:44:55").unwrap();
    let mut sys = FakeSys::new();
    let mut ifreq = IfReq::new();
    ifreq.change_name(&ifname);
    ifreq.change_lladdr(&lladdr);

    let mut k = Kernel::new(sys);
    open_local_dgram(&mut k).unwrap().set_lladdr(&mut k, &mut ifreq).unwrap();

    assert!(k.sys().has_nic(&ifname, &lladdr));
}

#[test]
fn test_get_lladd() {
    let ifname = IfName::try_from("en").unwrap();
    let expected_lladdr = LinkLevelAddress::from_str("00:11:22:33:44:55").unwrap();
    let sys = FakeSys::new().with_nic(ifname, expected_lladdr);

    let lladdr = Nic::new(sys).get_lladd(&ifname).unwrap();

    assert_eq!(lladdr, expected_lladdr);
}

#[test]
fn test_set_lladd() {
    let ifname = IfName::try_from("en").unwrap();
    let lladdr = LinkLevelAddress::from_str("00:11:22:33:44:55").unwrap();
    let mut nic = Nic::new(FakeSys::new());

    nic.set_lladd(&ifname, &lladdr).unwrap();

    assert!(nic.into_sys().has_nic(&ifname, &lladdr));
}

#[test]
fn test_get_mac_address() {
    let name = "en";
    let expected_mac_address = "00:11:22:33:44:55";
    let sys = FakeSys::new().with_nic(
        IfName::try_from(name).unwrap(),
        LinkLevelAddress::from_str(expected_mac_address).unwrap(),
    );

    let mac_address = Nic::new(sys).get_mac_address(name).unwrap();

    assert_eq!(mac_address, expected_mac_address);
}

#[test]
fn test_set_mac_address() {
    let name = "en";
    let mac_address = "00:11:22:33:44:55";
    let mut nic = Nic::new(FakeSys::new());

    let _ = nic.set_mac_address(name, mac_address);

    assert!(nic.into_sys().has_nic(
        &IfName::try_from(name).unwrap(),
        &LinkLevelAddress::from_str(mac_address).unwrap()
    ));
}

#[test]
fn mac_address_requests_check_their_text() {
    let mut nic = Nic::new(FakeSys::new());
    assert!(matches!(nic.get_mac_address(""), Err(NicError::Name(_))));
    assert!(matches!(nic.set_mac_address("en0", "00:11"), Err(NicError::Address(_))));
    assert!(nic.into_sys().calls.is_empty());
}

#[test]
fn get_twice_gives_the_same_address() {
    let sys = FakeSys::new().with_nic(ifname(), lladdr());

    let mut k = Kernel::new(sys);
    let first = nic::get_lladdr(&mut k, &ifname()).unwrap();
    let second = nic::get_lladdr(&mut k, &ifname()).unwrap();

    assert_eq!(first, second);
}

#[test]
fn get_reads_the_address_of_en0() {
    let en0 = IfName::try_from("en0").unwrap();
    let sys = FakeSys::new().with_nic(en0, LinkLevelAddress::from_str("00:11:22:33:44:55").unwrap());

    let mut k = Kernel::new(sys);
    let lladdr = nic::get_lladdr(&mut k, &en0).unwrap();

    assert_eq!(lladdr.to_string(), "00:11:22:33:44:55");
}

#[test]
fn get_when_open_is_not_permitted() {
    let mut sys = FakeSys::new();
    sys.socket_ret = MOCK_FAILURE;
    sys.errno = EPERM;

    let mut k = Kernel::new(sys);
    let error = nic::get_lladdr(&mut k, &IfName::try_from("en0").unwrap()).unwrap_err();

    assert!(matches!(error, SocketError::OpenLocalDgram { .. }));
    assert!(error.to_string().contains("Operation not permitted"));
}

#[test]
fn set_then_get_gives_the_new_address() {
    let en0 = IfName::try_from("en0").unwrap();
    let mut sys = FakeSys::new().with_nic(en0, lladdr());
    let new_addr = LinkLevelAddress::from_str("aa:bb:cc:dd:ee:ff").unwrap();

    let mut k = Kernel::new(sys);
    nic::set_lladdr(&mut k, &en0, &new_addr).unwrap();
    let got = nic::get_lladdr(&mut k, &en0).unwrap();

    assert_eq!(got.to_string(), "aa:bb:cc:dd:ee:ff");
}

#[test]
fn monitor_reports_a_new_ethernet_interface() {
    let m = ifma_message(0xf, 6, 7, b"en1", &[1, 2, 3, 4, 5, 6]);
    let mut sys = FakeSys::new();
    sys.reads.push_back(ReadStep::Message(m));
    let mut k = Kernel::new(sys);
    let mut monitor = nic::monitor(&mut k).unwrap();
    assert_eq!(k.sys().calls[0], format!("socket({PF_ROUTE}, {SOCK_RAW}, 0)"));

    match monitor.next(&mut k) {
        Some(Ok(NicEvent::NicNew((index, ifname, lladdr)))) => {
            assert_eq!(index, 7);
            assert_eq!(ifname.to_string(), "en1");
            assert_eq!(lladdr.to_string(), "01:02:03:04:05:06");
        }
        other => panic!("unexpected {:?}", other),
    }
}

#[test]
fn monitor_ignores_an_interface_that_is_not_ethernet() {
    let m = ifma_message(0xf, 0x18, 7, b"en1", &[1, 2, 3, 4, 5, 6]);

    assert!(matches!(parse_msg(&in_buffer(&m)), NicEvent::NicNoop));
}

#[test]
fn monitor_reports_a_removed_interface() {
    let m = ifma_message(0x10, 6, 2, b"en5", &[0xaa, 0, 0, 0, 0, 0xbb]);

    match parse_msg(&in_buffer(&m)) {
        NicEvent::NicDel((index, ifname, lladdr)) => {
            assert_eq!(index, 2);
            assert_eq!(ifname.to_string(), "en5");
            assert_eq!(lladdr.to_string(), "aa:00:00:00:00:bb");
        }
        other => panic!("unexpected {:?}", other),
    }
}

#[test]
fn monitor_names_an_unnamed_interface_by_index() {
    let m = ifma_message(0xf, 6, 12, b"", &[1, 2, 3, 4, 5, 6]);

    match parse_msg(&in_buffer(&m)) {
        NicEvent::NicNew((12, ifname, _)) => assert_eq!(ifname.to_string(), "index12"),
        other => panic!("unexpected {:?}", other),
    }
}

#[test]
fn monitor_ignores_other_messages() {
    let mut wrong_version = ifma_message(0xf, 6, 7, b"en1", &[1, 2, 3, 4, 5, 6]);
    wrong_version[2] = 4;
    assert!(matches!(parse_msg(&in_buffer(&wrong_version)), NicEvent::NicNoop));
    let other_type = ifma_message(0xc, 6, 7, b"en1", &[1, 2, 3, 4, 5, 6]);
    assert!(matches!(parse_msg(&in_buffer(&other_type)), NicEvent::NicNoop));
    let unknown_type = ifma_message(0x7f, 6, 7, b"en1", &[1, 2, 3, 4, 5, 6]);
    assert!(matches!(parse_msg(&in_buffer(&unknown_type)), NicEvent::NicNoop));
    let short_address = ifma_message(0xf, 6, 7, b"en1", &[1, 2, 3, 4, 5]);
    assert!(matches!(parse_msg(&in_buffer(&short_address)), NicEvent::NicNoop));
    let mut no_interface = ifma_message(0xf, 6, 7, b"en1", &[1, 2, 3, 4, 5, 6]);
    no_interface[4] = 0x01;
    assert!(matches!(parse_msg(&in_buffer(&no_interface)), NicEvent::NicNoop));
}

#[test]
fn monitor_finds_the_interface_entry_among_others() {
    let inner = ifma_message(0xf, 6, 3, b"en2", &[9, 8, 7, 6, 5, 4]);
    let mut m = vec![0u8; 56];
    m[..16].copy_from_slice(&inner[..16]);
    m[4] = 0x01 | 0x10;
    m[36..56].copy_from_slice(&inner[16..36]);

    match parse_msg(&in_buffer(&m)) {
        NicEvent::NicNew((3, ifname, lladdr)) => {
            assert_eq!(ifname.to_string(), "en2");
            assert_eq!(lladdr.to_string(), "09:08:07:06:05:04");
        }
        other => panic!("unexpected {:?}", other),
    }
}

#[test]
fn monitor_stream_ends_on_an_empty_read() {
    let mut sys = FakeSys::new();
    sys.reads.push_back(ReadStep::End);
    let mut k = Kernel::new(sys);
    let mut monitor = nic::monitor(&mut k).unwrap();

    assert!(monitor.next(&mut k).is_none());
}

#[test]
fn monitor_reports_a_failed_read_and_goes_on() {
    let mut sys = FakeSys::new();
    sys.errno = EINTR;
    sys.reads.push_back(ReadStep::Fail);
    sys.reads.push_back(ReadStep::Message(ifma_message(0xc, 6, 1, b"en0", &[0; 6])));
    sys.reads.push_back(ReadStep::End);
    let mut k = Kernel::new(sys);
    let mut monitor = nic::monitor(&mut k).unwrap();

    assert_eq!(
        monitor.next(&mut k).unwrap().unwrap_err(),
        SocketError::Read { fd: MOCK_FD, ret: -1, errno: EINTR }
    );
    assert!(matches!(monitor.next(&mut k), Some(Ok(NicEvent::NicNoop))));
    assert!(monitor.next(&mut k).is_none());
    assert_eq!(monitor.close(&mut k), Ok(()));
}

#[test]
fn read_results_follow_the_kernel_answer() {
    let mut sys = FakeSys::new();
    sys.reads.push_back(ReadStep::Message(vec![1, 2, 3]));
    let socket = OpenSocket::from_fd(5);
    let mut buf = net_sys::rtmsg::new();

    let mut k = Kernel::new(sys);
    assert_eq!(socket.read(&mut k, &mut buf), Ok(ReadResult::ReadLength(3)));
    assert_eq!(buf[..3], [1, 2, 3]);
    assert_eq!(socket.read(&mut k, &mut buf), Ok(ReadResult::EndOfRead));
}

#[test]
fn monitor_reads_past_a_selector() {
    let mut m = ifma_message(0xf, 6, 7, b"en1", &[1, 2, 3, 4, 5, 6]);
    m[16 + 7] = 3;

    assert!(matches!(parse_msg(&in_buffer(&m)), NicEvent::NicNew((7, _, _))));
}

#[test]
fn monitor_notes_unknown_messages() {
    let mut wrong_version = ifma_message(0xf, 6, 7, b"en1", &[1, 2, 3, 4, 5, 6]);
    wrong_version[2] = 4;
    assert_eq!(
        nic::msg_note(&in_buffer(&wrong_version)),
        Some("routing message version 4 is not understood".to_string())
    );
    let unknown_type = ifma_message(0x7f, 6, 7, b"en1", &[1, 2, 3, 4, 5, 6]);
    assert_eq!(
        nic::msg_note(&in_buffer(&unknown_type)),
        Some("routing message type 127 is not understood".to_string())
    );
    let known = ifma_message(0xc, 6, 7, b"en1", &[1, 2, 3, 4, 5, 6]);
    assert_eq!(nic::msg_note(&in_buffer(&known)), None);

    let mut sys = FakeSys::new();
    sys.reads.push_back(ReadStep::Message(unknown_type));
    let mut k = Kernel::new(sys);
    let mut monitor = nic::monitor(&mut k).unwrap();
    let (event, note) = monitor.next_with_note(&mut k);
    assert!(matches!(event, Some(Ok(NicEvent::NicNoop))));
    assert_eq!(note, Some("routing message type 127 is not understood".to_string()));
    let (event, note) = monitor.next_with_note(&mut k);
    assert!(event.is_none());
    assert!(note.is_none());
}
