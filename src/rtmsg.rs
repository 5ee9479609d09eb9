//! Reading routing messages: the message header, the interface multicast
//! address header with its address array, and link-level socket addresses.
use vstd::prelude::*;
use vstd::slice::slice_subrange;

use crate::defs::{af_spec, ift_spec, rtm_spec, Af, Ift, Rtm, AF_LINK, IFT_ETHER, RTAX_MAX};
use crate::ifname::{name_fault, padded, IfName};
use crate::lladdr::LinkLevelAddress;
use crate::text::{dec_text, push_dec};

verus! {

/// Size of the buffer one routing message is read into.
pub const RT_BUF_SIZE: usize = 2048;

/// Size of the interface multicast address message header.
pub const IFMA_HDR_SIZE: usize = 16;

/// Size of one entry of the address array: a link-level socket address.
pub const SDL_SIZE: usize = 20;

/// Offset of the name, address and selector bytes in a link-level socket address.
pub const SDL_DATA_OFFSET: usize = 8;

/// Room for name, address and selector bytes in a link-level socket address.
pub const SDL_DATA_SIZE: usize = 12;

/// A zeroed buffer for one routing message.
pub fn new() -> (r: Vec<u8>)
    ensures
        r@ == Seq::new(RT_BUF_SIZE as nat, |i: int| 0u8),
{
    let mut r: Vec<u8> = Vec::new();
    let mut i: usize = 0;
    while i < RT_BUF_SIZE
        invariant
            i <= RT_BUF_SIZE,
            r@ == Seq::new(i as nat, |j: int| 0u8),
        decreases RT_BUF_SIZE - i,
    {
        r.push(0u8);
        proof {
            assert(r@ =~= Seq::new(i as nat + 1, |j: int| 0u8));
        }
        i = i + 1;
    }
    r
}

/// Little-endian 16-bit number.
pub open spec fn u16_le(lo: u8, hi: u8) -> u16 {
    (lo as int + 256 * hi as int) as u16
}

/// Little-endian 32-bit number.
pub open spec fn u32_le(b0: u8, b1: u8, b2: u8, b3: u8) -> u32 {
    (b0 as int + 256 * b1 as int + 65536 * b2 as int + 16777216 * b3 as int) as u32
}

/// Address kind `k` is present in the bitmask.
pub open spec fn has_kind(mask: u32, k: nat) -> bool {
    (mask >> (k as u32)) & 1u32 == 1u32
}

/// Scanning kinds from `k` upward, with `pos` kinds present in `addrs` below
/// `k`: the position among the present kinds of the first one that is also in
/// `rta`.
pub open spec fn rta_index_from(addrs: u32, rta: u32, k: nat, pos: nat) -> Option<nat>
    decreases RTAX_MAX - k,
{
    if k >= RTAX_MAX {
        None
    } else if !has_kind(addrs, k) {
        rta_index_from(addrs, rta, k + 1, pos)
    } else if has_kind(rta, k) {
        Some(pos)
    } else {
        rta_index_from(addrs, rta, k + 1, pos + 1)
    }
}

/// Index into the address array of the entry for the kind `rta`, if present.
pub open spec fn rta_index(addrs: u32, rta: u32) -> Option<nat> {
    rta_index_from(addrs, rta, 0, 0)
}

/// Presence bitmask of an interface multicast address message.
pub open spec fn ifmam_addrs_spec(b: Seq<u8>) -> u32 {
    u32_le(b[4], b[5], b[6], b[7])
}

/// The entry of the address array for kind `rta`, when present and in the buffer.
pub open spec fn rta_record(b: Seq<u8>, rta: u32) -> Option<Seq<u8>> {
    match rta_index(ifmam_addrs_spec(b), rta) {
        None => None,
        Some(k) => {
            let start = IFMA_HDR_SIZE + SDL_SIZE * k;
            if start + SDL_SIZE <= b.len() {
                Some(b.subrange(start, start + SDL_SIZE))
            } else {
                None
            }
        },
    }
}

/// Interface index of a link-level socket address.
pub open spec fn sdl_index_spec(s: Seq<u8>) -> u16 {
    u16_le(s[2], s[3])
}

/// The name `index<N>` given to an interface whose own name is unusable.
pub open spec fn index_name(index: u16) -> Seq<u8> {
    seq![105u8, 110u8, 100u8, 101u8, 120u8] + dec_text(index as int)
}

/// The name field of a link-level socket address.
pub open spec fn sdl_name_bytes(s: Seq<u8>) -> Seq<u8> {
    s.subrange(SDL_DATA_OFFSET as int, SDL_DATA_OFFSET + s[5] as int)
}

/// The address field of a link-level socket address.
pub open spec fn sdl_addr_bytes(s: Seq<u8>) -> Seq<u8> {
    s.subrange(SDL_DATA_OFFSET + s[5] as int, SDL_DATA_OFFSET + s[5] as int + s[6] as int)
}

/// The interface name of a link-level socket address: its name field when that
/// is a valid name, else `index<N>`, else none.
pub open spec fn sdl_ifname(s: Seq<u8>) -> Option<Seq<u8>> {
    if name_fault(sdl_name_bytes(s)) is None {
        Some(padded(sdl_name_bytes(s)))
    } else if name_fault(index_name(sdl_index_spec(s))) is None {
        Some(padded(index_name(sdl_index_spec(s))))
    } else {
        None
    }
}

/// Index, name and address of an Ethernet interface described by a link-level
/// socket address; none for any other family or type, for a name and address
/// that overrun the record, or for an address that is not six bytes. The
/// selector, which follows them, is not read.
pub open spec fn link_ether(s: Seq<u8>) -> Option<(u16, Seq<u8>, Seq<u8>)> {
    if af_spec(s[1]) != Af::AfLink || ift_spec(s[4]) != Ift::IftEther {
        None
    } else if s[5] as int + s[6] as int > SDL_DATA_SIZE {
        None
    } else if s[6] != 6 {
        None
    } else {
        match sdl_ifname(s) {
            None => None,
            Some(n) => Some((sdl_index_spec(s), n, sdl_addr_bytes(s))),
        }
    }
}

/// The generic header of a routing message.
pub struct RtMsgHdr<'a> {
    pub buf: &'a [u8],
}

impl<'a> RtMsgHdr<'a> {
    /// Long enough to hold the version and the type.
    pub open spec fn wf(&self) -> bool {
        self.buf@.len() >= 4
    }

    /// Version of the message format.
    pub fn rtm_version(&self) -> (r: u8)
        requires
            self.wf(),
        ensures
            r == self.buf@[2],
    {
        self.buf[2]
    }

    /// Type of the message.
    pub fn rtm_type(&self) -> (r: Rtm)
        requires
            self.wf(),
        ensures
            r == rtm_spec(self.buf@[3]),
    {
        Rtm::from(self.buf[3])
    }
}

/// The header of an interface multicast address message, followed by its
/// address array.
pub struct IfMaMsgHdr<'a> {
    pub buf: &'a [u8],
}

impl<'a> IfMaMsgHdr<'a> {
    /// Long enough to hold the header.
    pub open spec fn wf(&self) -> bool {
        self.buf@.len() >= IFMA_HDR_SIZE
    }

    /// Type of the message.
    pub fn ifmam_type(&self) -> (r: Rtm)
        requires
            self.wf(),
        ensures
            r == rtm_spec(self.buf@[3]),
    {
        Rtm::from(self.buf[3])
    }

    /// Bitmask of the address kinds present in the address array.
    pub fn ifmam_addrs(&self) -> (r: u32)
        requires
            self.wf(),
        ensures
            r == ifmam_addrs_spec(self.buf@),
    {
        let b0 = self.buf[4] as u32;
        let b1 = self.buf[5] as u32;
        let b2 = self.buf[6] as u32;
        let b3 = self.buf[7] as u32;
        proof {
            assert(b0 + 256 * b1 + 65536 * b2 + 16777216 * b3 <= 0xffffffff) by (nonlinear_arith)
                requires
                    b0 <= 255,
                    b1 <= 255,
                    b2 <= 255,
                    b3 <= 255,
            ;
        }
        b0 + 256 * b1 + 65536 * b2 + 16777216 * b3
    }

    /// Index into the address array of the entry for kind `rta`, if it is present.
    pub fn get_rta_index(&self, rta: u32) -> (r: Option<usize>)
        requires
            self.wf(),
        ensures
            match rta_index(ifmam_addrs_spec(self.buf@), rta) {
                None => r is None,
                Some(k) => r matches Some(i) && i == k,
            },
    {
        let addrs = self.ifmam_addrs();
        let mut k: u32 = 0;
        let mut pos: usize = 0;
        while k < RTAX_MAX
            invariant
                k <= RTAX_MAX,
                pos <= k,
                addrs == ifmam_addrs_spec(self.buf@),
                rta_index(addrs, rta) == rta_index_from(addrs, rta, k as nat, pos as nat),
            decreases RTAX_MAX - k,
        {
            if (addrs >> k) & 1u32 == 1u32 {
                proof {
                    assert(has_kind(addrs, k as nat));
                }
                if (rta >> k) & 1u32 == 1u32 {
                    proof {
                        assert(has_kind(rta, k as nat));
                        assert(rta_index_from(addrs, rta, k as nat, pos as nat) == Some(pos as nat));
                    }
                    return Some(pos);
                }
                pos = pos + 1;
            }
            k = k + 1;
        }
        None
    }

    /// The entry of the address array for kind `rta`, when present and in the buffer.
    pub fn get_rta_buf(&self, rta: u32) -> (r: Option<&'a [u8]>)
        requires
            self.wf(),
        ensures
            match rta_record(self.buf@, rta) {
                None => r is None,
                Some(s) => r is Some && r->Some_0@ == s,
            },
    {
        let index = match self.get_rta_index(rta) {
            Some(i) => i,
            None => return None,
        };
        proof {
            assert(index < RTAX_MAX) by {
                lemma_rta_index_bound(ifmam_addrs_spec(self.buf@), rta, 0, 0);
            }
        }
        let start = IFMA_HDR_SIZE + SDL_SIZE * index;
        if start + SDL_SIZE > self.buf.len() {
            return None;
        }
        Some(slice_subrange(self.buf, start, start + SDL_SIZE))
    }

    /// The link-level socket address of the interface the message is about.
    pub fn get_ifp(&self) -> (r: Option<SockaddrDl<'a>>)
        requires
            self.wf(),
        ensures
            match rta_record(self.buf@, crate::defs::RTA_IFP) {
                None => r is None,
                Some(s) => r is Some && r->Some_0.buf@ == s,
            },
    {
        match self.get_rta_buf(crate::defs::RTA_IFP) {
            Some(buf) => Some(SockaddrDl { buf }),
            None => None,
        }
    }
}

proof fn lemma_rta_index_bound(addrs: u32, rta: u32, k: nat, pos: nat)
    requires
        pos <= k,
    ensures
        match rta_index_from(addrs, rta, k, pos) {
            Some(i) => i < RTAX_MAX,
            None => true,
        },
    decreases RTAX_MAX - k,
{
    if k < RTAX_MAX {
        lemma_rta_index_bound(addrs, rta, k + 1, pos);
        lemma_rta_index_bound(addrs, rta, k + 1, pos + 1);
    }
}

/// A link-level socket address: family, interface index and type, then the
/// lengths of the name, address and selector held in its data bytes.
pub struct SockaddrDl<'a> {
    pub buf: &'a [u8],
}

impl<'a> SockaddrDl<'a> {
    /// Exactly one entry of the address array.
    pub open spec fn wf(&self) -> bool {
        self.buf@.len() == SDL_SIZE
    }

    /// Address family.
    pub fn sdl_family(&self) -> (r: Af)
        requires
            self.wf(),
        ensures
            r == af_spec(self.buf@[1]),
    {
        Af::from(self.buf[1])
    }

    /// Interface type.
    pub fn sdl_type(&self) -> (r: Ift)
        requires
            self.wf(),
        ensures
            r == ift_spec(self.buf@[4]),
    {
        Ift::from(self.buf[4])
    }

    /// Interface index the kernel assigned.
    pub fn sdl_index(&self) -> (r: u16)
        requires
            self.wf(),
        ensures
            r == sdl_index_spec(self.buf@),
    {
        (self.buf[2] as u16) + 256 * (self.buf[3] as u16)
    }

    /// Index, name and address of the Ethernet interface this address describes.
    pub fn get_link_ether(&self) -> (r: Option<(u16, IfName, LinkLevelAddress)>)
        requires
            self.wf(),
        ensures
            match link_ether(self.buf@) {
                None => r is None,
                Some((i, n, a)) => r matches Some((ri, rn, ra)) && ri == i && rn@ == n && ra@ == a,
            },
    {
        let family = self.sdl_family();
        let ty = self.sdl_type();
        if !(family == Af::AfLink) || !(ty == Ift::IftEther) {
            return None;
        }
        let nlen = self.buf[5] as usize;
        let alen = self.buf[6] as usize;
        if nlen + alen > SDL_DATA_SIZE {
            return None;
        }
        if alen != 6 {
            return None;
        }
        let index = self.sdl_index();
        let name = slice_subrange(self.buf, SDL_DATA_OFFSET, SDL_DATA_OFFSET + nlen);
        let ifname = match IfName::try_from_octets(name) {
            Ok(n) => n,
            Err(_) => {
                let mut alt: Vec<u8> = Vec::new();
                alt.push(105u8);
                alt.push(110u8);
                alt.push(100u8);
                alt.push(101u8);
                alt.push(120u8);
                push_dec(&mut alt, index as i64);
                proof {
                    assert(alt@ =~= index_name(index));
                }
                match IfName::try_from_octets(alt.as_slice()) {
                    Ok(n) => n,
                    Err(_) => return None,
                }
            },
        };
        let a = slice_subrange(self.buf, SDL_DATA_OFFSET + nlen, SDL_DATA_OFFSET + nlen + 6);
        let octets: [u8; 6] = [a[0], a[1], a[2], a[3], a[4], a[5]];
        let lladdr = LinkLevelAddress::from(&octets);
        proof {
            assert(lladdr@ =~= sdl_addr_bytes(self.buf@));
        }
        Some((index, ifname, lladdr))
    }
}

} // verus!
