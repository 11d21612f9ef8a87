//! DRM plumbing constants: FourCC format codes, format-modifier codes, and
//! the ioctl request-number encoding used to create a dumb buffer. The ioctl
//! call itself is the embedding application's; this module only computes the
//! numbers.

use vstd::prelude::*;

verus! {

/// A FourCC format code: four ASCII bytes packed little-endian.
pub fn fourcc_code(a: u8, b: u8, c: u8, d: u8) -> (r: u32)
    ensures
        r == a + b * 0x100 + c * 0x10000 + d * 0x1000000,
{
    let r = (a as u32) | (b as u32) << 8 | (c as u32) << 16 | (d as u32) << 24;
    proof {
        let (av, bv, cv, dv) = (a as u32, b as u32, c as u32, d as u32);
        assert(av | bv << 8 | cv << 16 | dv << 24 == av + bv * 0x100 + cv * 0x10000 + dv
            * 0x1000000) by (bit_vector)
            requires
                av < 0x100 && bv < 0x100 && cv < 0x100 && dv < 0x100,
        ;
    }
    r
}

/// The vendor half of a format modifier.
#[derive(Clone, Copy, Debug, PartialEq, Eq, Structural)]
pub enum DrmFormatModVendor {
    NoVendor,
}

impl DrmFormatModVendor {
    pub open spec fn spec_code(self) -> u64 {
        match self {
            DrmFormatModVendor::NoVendor => 0,
        }
    }

    pub fn code(self) -> (r: u64)
        ensures
            r == self.spec_code(),
    {
        match self {
            DrmFormatModVendor::NoVendor => 0,
        }
    }
}

/// A format modifier: the vendor in the top byte, the value in the lower 56
/// bits.
pub fn fourcc_mod_code(vendor: DrmFormatModVendor, val: u64) -> (r: u64)
    ensures
        r == vendor.spec_code() * 0x100000000000000 + (val % 0x100000000000000),
{
    let v = vendor.code();
    let r = v << 56 | val & 0x00ffffffffffffff;
    proof {
        assert(v << 56 | val & 0x00ffffffffffffff == v * 0x100000000000000 + (val
            % 0x100000000000000)) by (bit_vector)
            requires
                v < 0x100,
        ;
        assert(v < 0x100);
    }
    r
}

/// The linear (untiled) format modifier: no vendor, value zero.
pub const DRM_FORMAT_MOD_LINEAR: u64 = 0;

/// The parameter block of the dumb-buffer creation ioctl. Userspace fills
/// `height`, `width`, `bpp` and `flags`; the kernel returns `handle`, `pitch`
/// and `size`.
#[derive(Clone, Copy, Debug, Default, PartialEq, Eq, Structural)]
pub struct ModeCreateDumb {
    pub height: u32,
    pub width: u32,
    pub bpp: u32,
    pub flags: u32,
    pub handle: u32,
    pub pitch: u32,
    pub size: u64,
}

/// The byte size of `ModeCreateDumb` as the kernel's structure lays it out:
/// six 32-bit words and one 64-bit word.
pub const MODE_CREATE_DUMB_SIZE: u32 = 32;

/// The ioctl command word: direction in the top two bits, then fourteen bits
/// of parameter size, eight bits of type, eight bits of number.
pub fn ioc(dir: u32, type_: u32, nr: u32, size: u32) -> (r: u32)
    requires
        dir < 4,
        type_ < 0x100,
        nr < 0x100,
        size < 0x4000,
    ensures
        r == dir * 0x40000000 + size * 0x10000 + type_ * 0x100 + nr,
{
    let r = dir << 30 | type_ << 8 | nr | size << 16;
    proof {
        assert(dir << 30 | type_ << 8 | nr | size << 16 == dir * 0x40000000 + size * 0x10000
            + type_ * 0x100 + nr) by (bit_vector)
            requires
                dir < 4 && type_ < 0x100 && nr < 0x100 && size < 0x4000,
        ;
    }
    r
}

/// A read-write ioctl command word for the given type, number and parameter
/// size.
pub fn iowr(type_: u32, nr: u32, size: u32) -> (r: u32)
    requires
        type_ < 0x100,
        nr < 0x100,
        size < 0x4000,
    ensures
        r == 3 * 0x40000000 + size * 0x10000 + type_ * 0x100 + nr,
{
    ioc(3, type_, nr, size)
}

/// A read-write DRM ioctl command word ('d' type) for the given number and
/// parameter size.
pub fn drm_iowr(nr: u32, size: u32) -> (r: u32)
    requires
        nr < 0x100,
        size < 0x4000,
    ensures
        r == 3 * 0x40000000 + size * 0x10000 + 0x64 * 0x100 + nr,
{
    iowr(0x64, nr, size)
}

/// The request number of the dumb-buffer creation ioctl,
/// `drm_iowr(0xb2, MODE_CREATE_DUMB_SIZE)` written out.
pub const DRM_IOCTL_MODE_CREATE_DUMB: u32 = 0xC02064B2;

/// The named ioctl constant is exactly what the encoding yields for command
/// number 0xb2 with the dumb-buffer parameter block.
pub proof fn lemma_create_dumb_ioctl()
    ensures
        DRM_IOCTL_MODE_CREATE_DUMB == 3 * 0x40000000 + (MODE_CREATE_DUMB_SIZE as int) * 0x10000
            + 0x64 * 0x100 + 0xb2,
{
}

} // verus!
