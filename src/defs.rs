//! Numbers the kernel uses in routing messages and link-layer addresses.
use vstd::prelude::*;

verus! {

/// Version of the routing message format this library reads.
pub const RTM_VERSION: u8 = 5;

/// Routing message type: a multicast address was added to an interface.
pub const RTM_NEWMADDR: u8 = 0xf;

/// Routing message type: a multicast address was removed from an interface.
pub const RTM_DELMADDR: u8 = 0x10;

/// Number of address kinds a routing message can carry.
pub const RTAX_MAX: u32 = 8;

/// Presence bit of the interface address kind.
pub const RTA_IFP: u32 = 0x10;

/// Address family of IPv4 addresses.
pub const AF_INET: u8 = 2;

/// Address family of IPv6 addresses.
pub const AF_INET6: u8 = 30;

/// Address family of link-level addresses.
pub const AF_LINK: u8 = 18;

/// Interface type of Ethernet.
pub const IFT_ETHER: u8 = 0x06;

/// Interface type of the loopback interface.
pub const IFT_LOOP: u8 = 0x18;

/// Address families.
#[derive(Copy, Clone, Debug, PartialEq, Eq, Structural)]
pub enum Af {
    AfInet,
    AfInet6,
    AfLink,
    AfInvalid(u8),
}

/// Interface types.
#[derive(Copy, Clone, Debug, PartialEq, Eq, Structural)]
pub enum Ift {
    IftEther,
    IftLoop,
    IftInvalid(u8),
}

/// Routing message types.
#[derive(Copy, Clone, Debug, PartialEq, Eq, Structural)]
pub enum Rtm {
    RtmAdd,
    RtmDelete,
    RtmChange,
    RtmGet,
    RtmLosing,
    RtmRedirect,
    RtmMiss,
    RtmLock,
    RtmOldadd,
    RtmOlddel,
    RtmResolve,
    RtmNewaddr,
    RtmDeladdr,
    RtmIfinfo,
    RtmNewmaddr,
    RtmDelmaddr,
    RtmGetSilentPrivate,
    RtmIfinfo2,
    RtmNewmaddr2,
    RtmGet2,
    RtmGetExtPrivate,
    RtmInvalid(u8),
}

/// The address family with the given number.
pub open spec fn af_spec(v: u8) -> Af {
    if v == AF_INET {
        Af::AfInet
    } else if v == AF_INET6 {
        Af::AfInet6
    } else if v == AF_LINK {
        Af::AfLink
    } else {
        Af::AfInvalid(v)
    }
}

/// The interface type with the given number.
pub open spec fn ift_spec(v: u8) -> Ift {
    if v == IFT_ETHER {
        Ift::IftEther
    } else if v == IFT_LOOP {
        Ift::IftLoop
    } else {
        Ift::IftInvalid(v)
    }
}

/// The routing message type with the given number: 1 to 0x15 are known.
pub open spec fn rtm_spec(v: u8) -> Rtm {
    match v {
        1 => Rtm::RtmAdd,
        2 => Rtm::RtmDelete,
        3 => Rtm::RtmChange,
        4 => Rtm::RtmGet,
        5 => Rtm::RtmLosing,
        6 => Rtm::RtmRedirect,
        7 => Rtm::RtmMiss,
        8 => Rtm::RtmLock,
        9 => Rtm::RtmOldadd,
        10 => Rtm::RtmOlddel,
        11 => Rtm::RtmResolve,
        12 => Rtm::RtmNewaddr,
        13 => Rtm::RtmDeladdr,
        14 => Rtm::RtmIfinfo,
        15 => Rtm::RtmNewmaddr,
        16 => Rtm::RtmDelmaddr,
        17 => Rtm::RtmGetSilentPrivate,
        18 => Rtm::RtmIfinfo2,
        19 => Rtm::RtmNewmaddr2,
        20 => Rtm::RtmGet2,
        21 => Rtm::RtmGetExtPrivate,
        _ => Rtm::RtmInvalid(v),
    }
}

impl Af {
    /// The address family with the given number.
    pub fn from(v: u8) -> (r: Af)
        ensures
            r == af_spec(v),
    {
        if v == AF_INET {
            Af::AfInet
        } else if v == AF_INET6 {
            Af::AfInet6
        } else if v == AF_LINK {
            Af::AfLink
        } else {
            Af::AfInvalid(v)
        }
    }
}

impl Ift {
    /// The interface type with the given number.
    pub fn from(v: u8) -> (r: Ift)
        ensures
            r == ift_spec(v),
    {
        if v == IFT_ETHER {
            Ift::IftEther
        } else if v == IFT_LOOP {
            Ift::IftLoop
        } else {
            Ift::IftInvalid(v)
        }
    }
}

impl Rtm {
    /// The routing message type with the given number.
    pub fn from(v: u8) -> (r: Rtm)
        ensures
            r == rtm_spec(v),
    {
        match v {
            1 => Rtm::RtmAdd,
            2 => Rtm::RtmDelete,
            3 => Rtm::RtmChange,
            4 => Rtm::RtmGet,
            5 => Rtm::RtmLosing,
            6 => Rtm::RtmRedirect,
            7 => Rtm::RtmMiss,
            8 => Rtm::RtmLock,
            9 => Rtm::RtmOldadd,
            10 => Rtm::RtmOlddel,
            11 => Rtm::RtmResolve,
            12 => Rtm::RtmNewaddr,
            13 => Rtm::RtmDeladdr,
            14 => Rtm::RtmIfinfo,
            15 => Rtm::RtmNewmaddr,
            16 => Rtm::RtmDelmaddr,
            17 => Rtm::RtmGetSilentPrivate,
            18 => Rtm::RtmIfinfo2,
            19 => Rtm::RtmNewmaddr2,
            20 => Rtm::RtmGet2,
            21 => Rtm::RtmGetExtPrivate,
            _ => Rtm::RtmInvalid(v),
        }
    }
}

} // verus!
