use vstd::prelude::*;

verus! {

/// Parameter length field mask: at most 13 bits.
pub const IOCPARM_MASK: u32 = 0x1fff;

/// Copy parameters out of the kernel.
pub const IOC_OUT: u32 = 0x40000000;

/// Copy parameters into the kernel.
pub const IOC_IN: u32 = 0x80000000;

/// Copy parameters in and out.
pub const IOC_INOUT: u32 = 0xc0000000;

/// The ioctl group of interface requests: ASCII `'i'`.
pub const GROUP_IF: u32 = 105;

/// Size in bytes of the interface request record.
pub const IFREQ_SIZE: u32 = 32;

/// Encoded ioctl command, as the kernel's `_IOC` macro computes it.
pub open spec fn ioc_spec(inout: u32, group: u32, num: u32, len: u32) -> u32 {
    inout | ((len & IOCPARM_MASK) << 16u32) | (group << 8u32) | num
}

/// Encodes an ioctl command from its direction, group, number and payload size.
pub fn ioc(inout: u32, group: u32, num: u32, len: u32) -> (r: u32)
    ensures
        r == ioc_spec(inout, group, num, len),
{
    inout | ((len & IOCPARM_MASK) << 16u32) | (group << 8u32) | num
}

/// Command that copies its parameter into the kernel (`_IOW`).
pub fn iow(group: u32, num: u32, len: u32) -> (r: u32)
    ensures
        r == ioc_spec(IOC_IN, group, num, len),
{
    ioc(IOC_IN, group, num, len)
}

/// Command that copies its parameter in and back out (`_IOWR`).
pub fn iorw(group: u32, num: u32, len: u32) -> (r: u32)
    ensures
        r == ioc_spec(IOC_INOUT, group, num, len),
{
    ioc(IOC_INOUT, group, num, len)
}

} // verus!
