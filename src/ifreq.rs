//! The kernel's interface request record: a name field followed by a socket
//! address whose data bytes carry a link-level address.
use vstd::prelude::*;

use crate::ifname::IfName;
use crate::lladdr::LinkLevelAddress;

verus! {

/// Size in bytes of an interface request record.
pub const IFREQ_SIZE: usize = 32;

/// Offset of the address length byte of the socket address.
pub const SA_LEN_OFFSET: usize = 16;

/// Offset of the socket address data, where a link-level address is carried.
pub const SA_DATA_OFFSET: usize = 18;

/// An interface request record, byte for byte as the kernel lays it out.
#[derive(Copy, Clone, Debug, PartialEq, Eq)]
pub struct IfReq {
    bytes: [u8; 32],
}

/// Record `b` with its name field replaced by `name`.
pub open spec fn with_name_bytes(b: Seq<u8>, name: Seq<u8>) -> Seq<u8> {
    name + b.skip(16)
}

/// Record `b` with a link-level address written: the address length set to six
/// and the address in the socket address data.
pub open spec fn with_lladdr_bytes(b: Seq<u8>, addr: Seq<u8>) -> Seq<u8> {
    b.take(16) + seq![6u8] + b.subrange(17, 18) + addr + b.skip(24)
}

impl IfReq {
    /// The bytes of the record.
    pub closed spec fn view(&self) -> Seq<u8> {
        self.bytes@
    }

    /// A record holds `IFREQ_SIZE` bytes.
    pub proof fn lemma_view_len(&self)
        ensures
            self@.len() == IFREQ_SIZE,
    {
    }

    /// A record with every byte zero.
    pub fn new() -> (r: IfReq)
        ensures
            r@ == Seq::new(32, |i: int| 0u8),
    {
        let r = IfReq { bytes: [0u8; 32] };
        proof {
            assert(r@ =~= Seq::new(32, |i: int| 0u8));
        }
        r
    }

    /// The record holding the given bytes.
    pub fn from_bytes(bytes: [u8; 32]) -> (r: IfReq)
        ensures
            r@ == bytes@,
    {
        IfReq { bytes }
    }

    /// The bytes of the record, to hand to the kernel.
    pub fn as_bytes(&self) -> (r: [u8; 32])
        ensures
            r@ == self@,
    {
        self.bytes
    }

    /// Writes the whole name buffer into the name field.
    pub fn change_name(&mut self, ifname: &IfName)
        ensures
            final(self)@ == with_name_bytes(old(self)@, ifname@),
    {
        let src = ifname.octets();
        let mut i: usize = 0;
        while i < 16
            invariant
                i <= 16,
                src@ == ifname@,
                src@.len() == 16,
                self@.len() == 32,
                forall|j: int| 0 <= j < i ==> self@[j] == src@[j],
                forall|j: int| i <= j < 32 ==> self@[j] == old(self)@[j],
            decreases 16 - i,
        {
            self.bytes[i] = src[i];
            i = i + 1;
        }
        proof {
            assert(self@ =~= with_name_bytes(old(self)@, ifname@));
        }
    }

    /// Writes the link-level address into the socket address data, and its length.
    pub fn change_lladdr(&mut self, lladdr: &LinkLevelAddress)
        ensures
            final(self)@ == with_lladdr_bytes(old(self)@, lladdr@),
    {
        let src = lladdr.octets();
        let mut i: usize = 0;
        while i < 6
            invariant
                i <= 6,
                src@ == lladdr@,
                src@.len() == 6,
                self@.len() == 32,
                forall|j: int| 0 <= j < i ==> self@[18 + j] == src@[j],
                forall|j: int| 0 <= j < 18 ==> self@[j] == old(self)@[j],
                forall|j: int| 18 + i <= j < 32 ==> self@[j] == old(self)@[j],
            decreases 6 - i,
        {
            self.bytes[SA_DATA_OFFSET + i] = src[i];
            i = i + 1;
        }
        self.bytes[SA_LEN_OFFSET] = 6u8;
        proof {
            assert(self@ =~= with_lladdr_bytes(old(self)@, lladdr@));
        }
    }

    /// The record with its name field set.
    pub fn with_name(self, ifname: &IfName) -> (r: IfReq)
        ensures
            r@ == with_name_bytes(self@, ifname@),
    {
        let mut r = self;
        r.change_name(ifname);
        r
    }

    /// The record with a link-level address written.
    pub fn with_lladdr(self, lladdr: &LinkLevelAddress) -> (r: IfReq)
        ensures
            r@ == with_lladdr_bytes(self@, lladdr@),
    {
        let mut r = self;
        r.change_lladdr(lladdr);
        r
    }

    /// The name field, as it stands.
    pub fn name(&self) -> (r: IfName)
        ensures
            r@ == self@.take(16),
    {
        let mut b: [u8; 16] = [0u8; 16];
        let mut i: usize = 0;
        while i < 16
            invariant
                i <= 16,
                self@.len() == 32,
                b@.len() == 16,
                forall|j: int| 0 <= j < i ==> b@[j] == self@[j],
            decreases 16 - i,
        {
            b[i] = self.bytes[i];
            i = i + 1;
        }
        let r = IfName::from(&b);
        proof {
            assert(r@ =~= self@.take(16));
        }
        r
    }

    /// The link-level address in the socket address data.
    pub fn lladdr(&self) -> (r: LinkLevelAddress)
        ensures
            r@ == self@.subrange(18, 24),
    {
        let mut b: [u8; 6] = [0u8; 6];
        let mut i: usize = 0;
        while i < 6
            invariant
                i <= 6,
                self@.len() == 32,
                b@.len() == 6,
                forall|j: int| 0 <= j < i ==> b@[j] == self@[18 + j],
            decreases 6 - i,
        {
            b[i] = self.bytes[SA_DATA_OFFSET + i];
            i = i + 1;
        }
        let r = LinkLevelAddress::from(&b);
        proof {
            assert(r@ =~= self@.subrange(18, 24));
        }
        r
    }
}

/// Reading back what was written: the name field gives the name, the address
/// field the address, and writing the address leaves the name alone.
pub proof fn lemma_ifreq_round_trip(b: Seq<u8>, name: Seq<u8>, addr: Seq<u8>)
    requires
        b.len() == 32,
        name.len() == 16,
        addr.len() == 6,
    ensures
        with_name_bytes(b, name).take(16) == name,
        with_lladdr_bytes(b, addr).subrange(18, 24) == addr,
        with_lladdr_bytes(with_name_bytes(b, name), addr).take(16) == name,
        with_lladdr_bytes(b, addr).len() == 32,
        with_name_bytes(b, name).len() == 32,
{
    assert(with_name_bytes(b, name).take(16) =~= name);
    assert(with_lladdr_bytes(b, addr).subrange(18, 24) =~= addr);
    assert(with_lladdr_bytes(with_name_bytes(b, name), addr).take(16) =~= name);
}

} // verus!
