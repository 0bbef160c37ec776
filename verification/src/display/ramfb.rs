//! The configuration that firmware writes to set a framebuffer in RAM up.

use vstd::prelude::*;

use crate::bytes::{be_u32, be_u64};

verus! {

/// Size in bytes of the configuration as firmware writes it.
pub const RAMFB_CONFIG_SIZE: usize = 28;

/// Code of the one pixel format that is served: 32 bits per pixel, XRGB.
pub const DRM_FORMAT_XRGB8888: u32 = 0x34325258;

/// A framebuffer in guest memory.
#[derive(Clone, Copy, Debug, PartialEq, Eq, Structural)]
pub struct RamfbConfig {
    /// Guest address of the first pixel.
    pub address: u64,
    /// Code of the pixel format.
    pub fourcc: u32,
    pub flags: u32,
    /// Pixels per row.
    pub width: u32,
    /// Number of rows.
    pub height: u32,
    /// Bytes from one row to the next.
    pub stride: u32,
}

impl Default for RamfbConfig {
    fn default() -> (config: Self)
        ensures
            config == (RamfbConfig {
                address: 0,
                fourcc: 0,
                flags: 0,
                width: 0,
                height: 0,
                stride: 0,
            }),
    {
        RamfbConfig { address: 0, fourcc: 0, flags: 0, width: 0, height: 0, stride: 0 }
    }
}

/// The configuration as firmware writes it: every field in turn, most significant
/// byte first, with nothing between them.
pub open spec fn config_bytes(config: RamfbConfig) -> Seq<u8> {
    crate::bytes::be_bytes(config.address as nat, 8) + crate::bytes::be_bytes(
        config.fourcc as nat,
        4,
    ) + crate::bytes::be_bytes(config.flags as nat, 4) + crate::bytes::be_bytes(
        config.width as nat,
        4,
    ) + crate::bytes::be_bytes(config.height as nat, 4) + crate::bytes::be_bytes(
        config.stride as nat,
        4,
    )
}

impl RamfbConfig {
    /// Decodes the bytes that firmware wrote.
    pub fn from_be_bytes(bytes: &[u8; RAMFB_CONFIG_SIZE]) -> (config: Self)
        ensures
            config.address == crate::bytes::be_value(bytes@.subrange(0, 8)),
            config.fourcc == crate::bytes::be_value(bytes@.subrange(8, 12)),
            config.flags == crate::bytes::be_value(bytes@.subrange(12, 16)),
            config.width == crate::bytes::be_value(bytes@.subrange(16, 20)),
            config.height == crate::bytes::be_value(bytes@.subrange(20, 24)),
            config.stride == crate::bytes::be_value(bytes@.subrange(24, 28)),
            config_bytes(config) == bytes@,
    {
        let config = RamfbConfig {
            address: be_u64(bytes.as_slice()),
            fourcc: be_u32(bytes[8], bytes[9], bytes[10], bytes[11]),
            flags: be_u32(bytes[12], bytes[13], bytes[14], bytes[15]),
            width: be_u32(bytes[16], bytes[17], bytes[18], bytes[19]),
            height: be_u32(bytes[20], bytes[21], bytes[22], bytes[23]),
            stride: be_u32(bytes[24], bytes[25], bytes[26], bytes[27]),
        };
        proof {
            let b = bytes@;
            assert(b.take(8) =~= b.subrange(0, 8));
            assert(seq![b[8], b[9], b[10], b[11]] =~= b.subrange(8, 12));
            assert(seq![b[12], b[13], b[14], b[15]] =~= b.subrange(12, 16));
            assert(seq![b[16], b[17], b[18], b[19]] =~= b.subrange(16, 20));
            assert(seq![b[20], b[21], b[22], b[23]] =~= b.subrange(20, 24));
            assert(seq![b[24], b[25], b[26], b[27]] =~= b.subrange(24, 28));
            crate::bytes::law_encode_decode(b.subrange(0, 8));
            crate::bytes::law_encode_decode(b.subrange(8, 12));
            crate::bytes::law_encode_decode(b.subrange(12, 16));
            crate::bytes::law_encode_decode(b.subrange(16, 20));
            crate::bytes::law_encode_decode(b.subrange(20, 24));
            crate::bytes::law_encode_decode(b.subrange(24, 28));
            assert(config_bytes(config) =~= b);
        }
        config
    }

    /// Size of the framebuffer in bytes.
    pub fn framebuffer_size(&self) -> (size: u64)
        ensures
            size == self.stride * self.height,
    {
        proof {
            let s = self.stride;
            let h = self.height;
            assert(0 <= s * h <= u64::MAX) by (nonlinear_arith)
                requires
                    0 <= s <= u32::MAX,
                    0 <= h <= u32::MAX,
            ;
        }
        self.stride as u64 * self.height as u64
    }
}

/// Every configuration has one encoding, of the full size, and no two
/// configurations share it.
pub proof fn law_config_encoding(a: RamfbConfig, b: RamfbConfig)
    ensures
        config_bytes(a).len() == RAMFB_CONFIG_SIZE,
        config_bytes(a) == config_bytes(b) ==> a == b,
{
    lemma_config_fields(a);
    lemma_config_fields(b);
}

/// Each field can be read off its place in the encoding.
proof fn lemma_config_fields(a: RamfbConfig)
    ensures
        config_bytes(a).len() == RAMFB_CONFIG_SIZE,
        crate::bytes::be_value(config_bytes(a).subrange(0, 8)) == a.address,
        crate::bytes::be_value(config_bytes(a).subrange(8, 12)) == a.fourcc,
        crate::bytes::be_value(config_bytes(a).subrange(12, 16)) == a.flags,
        crate::bytes::be_value(config_bytes(a).subrange(16, 20)) == a.width,
        crate::bytes::be_value(config_bytes(a).subrange(20, 24)) == a.height,
        crate::bytes::be_value(config_bytes(a).subrange(24, 28)) == a.stride,
{
    reveal_with_fuel(crate::bytes::be_limit, 9);
    crate::bytes::law_decode_encode(a.address as nat, 8);
    crate::bytes::law_decode_encode(a.fourcc as nat, 4);
    crate::bytes::law_decode_encode(a.flags as nat, 4);
    crate::bytes::law_decode_encode(a.width as nat, 4);
    crate::bytes::law_decode_encode(a.height as nat, 4);
    crate::bytes::law_decode_encode(a.stride as nat, 4);
    let s = config_bytes(a);
    assert(s.subrange(0, 8) =~= crate::bytes::be_bytes(a.address as nat, 8));
    assert(s.subrange(8, 12) =~= crate::bytes::be_bytes(a.fourcc as nat, 4));
    assert(s.subrange(12, 16) =~= crate::bytes::be_bytes(a.flags as nat, 4));
    assert(s.subrange(16, 20) =~= crate::bytes::be_bytes(a.width as nat, 4));
    assert(s.subrange(20, 24) =~= crate::bytes::be_bytes(a.height as nat, 4));
    assert(s.subrange(24, 28) =~= crate::bytes::be_bytes(a.stride as nat, 4));
}

} // verus!
