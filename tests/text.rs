use net_sys::ifname::IfName;
use net_sys::lladdr::LinkLevelAddress;
use net_sys::rtmsg::{IfMaMsgHdr, RtMsgHdr, SockaddrDl};
use net_sys::defs::{Af, Ift, Rtm};
use net_sys::socket::SocketError;
use net_sys::text::{decimal, escaped_text, without_os_error_suffix};

#[test]
fn decimal_writes_signed_numbers() {
    assert_eq!(decimal(0), "0");
    assert_eq!(decimal(7), "7");
    assert_eq!(decimal(-1), "-1");
    assert_eq!(decimal(1234567890), "1234567890");
    assert_eq!(decimal(i64::MIN), "-9223372036854775808");
}

#[test]
fn escaped_text_matches_escape_ascii() {
    let bytes = b"a\tb\r\n'\"\\\x00\x7f\xff~ ";
    assert_eq!(escaped_text(bytes), bytes.escape_ascii().to_string());
}

#[test]
fn os_error_suffix_is_removed() {
    assert_eq!(without_os_error_suffix("Bad file descriptor (os error 9)", 9), "Bad file descriptor");
    assert_eq!(without_os_error_suffix("Bad file descriptor (os error 9)", 8), "Bad file descriptor (os error 9)");
    assert_eq!(without_os_error_suffix("Unknown error -1 (os error -1)", -1), "Unknown error -1");
    assert_eq!(without_os_error_suffix("short", 1), "short");
}

#[test]
fn socket_errors_describe_their_call() {
    let ifname = IfName::try_from("en0").unwrap();
    let lladdr = LinkLevelAddress::from(&[0xaa, 0xbb, 0xcc, 0xdd, 0xee, 0xff]);
    assert_eq!(
        SocketError::OpenRouteRaw { ret: -1, errno: 13 }.describe("Permission denied"),
        "Socket::OpenRouteRawError { ret: -1, errno: 13, strerror: \"Permission denied\" }"
    );
    assert_eq!(
        SocketError::SetLinkLevelAddress { fd: 4, ifname, lladdr, ret: -1, errno: 1 }.describe("x"),
        "Socket::SetLinkLevelAddressError { fd: 4, ifname: \"en0\", lladdr: \"aa:bb:cc:dd:ee:ff\", ret: -1, errno: 1, strerror: \"x\" }"
    );
    assert_eq!(
        SocketError::Read { fd: 5, ret: -1, errno: 4 }.describe("Interrupted system call"),
        "Socket::Read { fd: 5, ret: -1, errno: 4, strerror: \"Interrupted system call\" }"
    );
    assert_eq!(
        SocketError::Close { fd: 5, ret: -1, errno: 9 }.describe("Bad file descriptor"),
        "Socket::CloseError { fd: 5, ret: -1, errno: 9, strerror: \"Bad file descriptor\" }"
    );
    assert_eq!(SocketError::Close { fd: 5, ret: -1, errno: 9 }.errno(), 9);
}

#[test]
fn kernel_numbers_name_their_kinds() {
    assert_eq!(Af::from(18), Af::AfLink);
    assert_eq!(Af::from(2), Af::AfInet);
    assert_eq!(Af::from(30), Af::AfInet6);
    assert_eq!(Af::from(99), Af::AfInvalid(99));
    assert_eq!(Ift::from(6), Ift::IftEther);
    assert_eq!(Ift::from(0x18), Ift::IftLoop);
    assert_eq!(Ift::from(1), Ift::IftInvalid(1));
    assert_eq!(Rtm::from(0xf), Rtm::RtmNewmaddr);
    assert_eq!(Rtm::from(0x10), Rtm::RtmDelmaddr);
    assert_eq!(Rtm::from(0x15), Rtm::RtmGetExtPrivate);
    assert_eq!(Rtm::from(0), Rtm::RtmInvalid(0));
    assert_eq!(Rtm::from(0x16), Rtm::RtmInvalid(0x16));
}

#[test]
fn message_headers_read_their_fields() {
    let mut buf = net_sys::rtmsg::new();
    buf[2] = 5;
    buf[3] = 0xf;
    buf[4] = 0x15;
    let rtm = RtMsgHdr { buf: &buf };
    assert_eq!(rtm.rtm_version(), 5);
    assert_eq!(rtm.rtm_type(), Rtm::RtmNewmaddr);
    let ifma = IfMaMsgHdr { buf: &buf };
    assert_eq!(ifma.ifmam_type(), Rtm::RtmNewmaddr);
    assert_eq!(ifma.ifmam_addrs(), 0x15);
    assert_eq!(ifma.get_rta_index(0x01), Some(0));
    assert_eq!(ifma.get_rta_index(0x04), Some(1));
    assert_eq!(ifma.get_rta_index(0x10), Some(2));
    assert_eq!(ifma.get_rta_index(0x02), None);
    assert_eq!(ifma.get_rta_buf(0x10).map(|b| b.len()), Some(20));
    assert_eq!(net_sys::rtmsg::new().len(), 2048);
}

#[test]
fn link_addresses_read_their_fields() {
    let mut sdl = [0u8; 20];
    sdl[1] = 18;
    sdl[2] = 0x34;
    sdl[3] = 0x12;
    sdl[4] = 6;
    sdl[5] = 2;
    sdl[6] = 6;
    sdl[8..10].copy_from_slice(b"en");
    sdl[10..16].copy_from_slice(&[1, 2, 3, 4, 5, 6]);
    let dl = SockaddrDl { buf: &sdl };
    assert_eq!(dl.sdl_family(), Af::AfLink);
    assert_eq!(dl.sdl_type(), Ift::IftEther);
    assert_eq!(dl.sdl_index(), 0x1234);
    let (index, ifname, lladdr) = dl.get_link_ether().unwrap();
    assert_eq!(index, 0x1234);
    assert_eq!(ifname.to_string(), "en");
    assert_eq!(lladdr.to_string(), "01:02:03:04:05:06");
    sdl[7] = 5;
    assert!(SockaddrDl { buf: &sdl }.get_link_ether().is_some());
    sdl[5] = 7;
    assert!(SockaddrDl { buf: &sdl }.get_link_ether().is_none());
}
