use cloud_vmm::bytes::{be_u16, be_u32, be_u64, push_be_u16, push_be_u32};
use cloud_vmm::display::framebuffer::FramebufferSurface;
use cloud_vmm::display::guest_memory::read_guest;
use cloud_vmm::display::ramfb::{RamfbConfig, DRM_FORMAT_XRGB8888, RAMFB_CONFIG_SIZE};
use vm_memory::bitmap::AtomicBitmap;
use vm_memory::{Bytes, GuestAddress, GuestMemoryMmap};

fn memory() -> GuestMemoryMmap<AtomicBitmap> {
    let memory = GuestMemoryMmap::<AtomicBitmap>::from_ranges(&[
        (GuestAddress(0x1000), 0x1000),
        (GuestAddress(0x2000), 0x1000),
        (GuestAddress(0x8000), 0x1000),
    ])
    .unwrap();
    for i in 0..0x2000u64 {
        memory
            .write(&[(i % 251) as u8], GuestAddress(0x1000 + i))
            .unwrap();
    }
    memory
}

fn held_at(address: u64) -> u8 {
    ((address - 0x1000) % 251) as u8
}

fn config(address: u64, width: u32, height: u32, stride: u32) -> RamfbConfig {
    RamfbConfig {
        address,
        fourcc: DRM_FORMAT_XRGB8888,
        flags: 0,
        width,
        height,
        stride,
    }
}

fn surface(config: RamfbConfig) -> FramebufferSurface {
    let mut surface = FramebufferSurface::new();
    surface.set_config(config);
    surface
}

#[test]
fn configuration_is_decoded() {
    assert_eq!(RAMFB_CONFIG_SIZE, 28);
    let bytes: [u8; 28] = [
        1, 2, 3, 4, 5, 6, 7, 8, 0x34, 0x32, 0x52, 0x58, 0, 0, 0, 9, 0, 0, 4, 0, 0, 0, 3, 0, 0, 0,
        16, 0,
    ];
    let decoded = RamfbConfig::from_be_bytes(&bytes);
    assert_eq!(
        decoded,
        RamfbConfig {
            address: 0x0102030405060708,
            fourcc: DRM_FORMAT_XRGB8888,
            flags: 9,
            width: 1024,
            height: 768,
            stride: 4096,
        }
    );
    assert_eq!(decoded.framebuffer_size(), 4096 * 768);
}

#[test]
fn different_bytes_give_different_configurations() {
    let zeros = RamfbConfig::from_be_bytes(&[0; 28]);
    assert_eq!(zeros, RamfbConfig::default());
    for i in 0..28 {
        let mut bytes = [0u8; 28];
        bytes[i] = 1;
        assert_ne!(RamfbConfig::from_be_bytes(&bytes), zeros);
    }
}

#[test]
fn largest_framebuffer() {
    let largest = config(0, 1, u32::MAX, u32::MAX);
    assert_eq!(largest.framebuffer_size(), 0xFFFF_FFFE_0000_0001);
}

#[test]
fn numbers_are_read_and_written_in_big_endian() {
    assert_eq!(be_u16(1, 2), 0x0102);
    assert_eq!(be_u32(1, 2, 3, 4), 0x01020304);
    assert_eq!(be_u64(&[1, 2, 3, 4, 5, 6, 7, 8]), 0x0102030405060708);
    let mut out = vec![9u8];
    push_be_u16(&mut out, 0x0102);
    push_be_u32(&mut out, 0x03040506);
    assert_eq!(out, vec![9, 1, 2, 3, 4, 5, 6]);
    assert_eq!(be_u16(out[1], out[2]), 0x0102);
    assert_eq!(be_u32(out[3], out[4], out[5], out[6]), 0x03040506);
}

#[test]
fn surface_starts_without_framebuffer() {
    let surface = FramebufferSurface::new();
    assert!(!surface.is_initialized());
    assert_eq!(surface.config(), RamfbConfig::default());
    assert_eq!(surface.read_framebuffer(&memory()), None);
    assert_eq!(surface.read_region(&memory(), 0, 0, 0, 0), None);
    assert_eq!(surface.region_rows(0, 0, 0, 0), None);
}

#[test]
fn other_pixel_formats_change_nothing() {
    let mut surface = surface(config(0x1000, 4, 4, 16));
    let mut other = config(0x2000, 8, 8, 32);
    other.fourcc = 0x34324258;
    surface.set_config(other);
    assert!(surface.is_initialized());
    assert_eq!(surface.config(), config(0x1000, 4, 4, 16));
    let mut fresh = FramebufferSurface::new();
    fresh.set_config(other);
    assert!(!fresh.is_initialized());
}

#[test]
fn later_configuration_replaces_the_earlier() {
    let mut surface = surface(config(0x1000, 4, 4, 16));
    surface.set_config(config(0x2000, 8, 8, 32));
    assert_eq!(surface.config(), config(0x2000, 8, 8, 32));
}

#[test]
fn whole_framebuffer_is_read() {
    let data = surface(config(0x1F00, 8, 16, 40))
        .read_framebuffer(&memory())
        .unwrap();
    assert_eq!(data.len(), 640);
    for (i, byte) in data.iter().enumerate() {
        assert_eq!(*byte, held_at(0x1F00 + i as u64));
    }
}

#[test]
fn framebuffer_outside_memory_is_not_read() {
    assert_eq!(
        surface(config(0x5000, 8, 16, 40)).read_framebuffer(&memory()),
        None
    );
}

#[test]
fn framebuffer_is_read_in_full_or_not_at_all() {
    let memory = memory();
    assert_eq!(
        surface(config(0x2FF0, 8, 4, 32)).read_framebuffer(&memory),
        None
    );
    assert_eq!(
        surface(config(0x2F80, 8, 4, 32))
            .read_framebuffer(&memory)
            .unwrap()
            .len(),
        128
    );
    assert_eq!(
        surface(config(0x2F81, 8, 4, 32)).read_framebuffer(&memory),
        None
    );
    assert_eq!(read_guest(&memory, 0x2FFF, 1), Some(vec![held_at(0x2FFF)]));
    assert_eq!(read_guest(&memory, 0x2FFF, 2), None);
}

#[test]
fn empty_framebuffer_lies_in_memory_or_not() {
    let memory = memory();
    assert_eq!(
        surface(config(0x1000, 0, 0, 0)).read_framebuffer(&memory),
        Some(Vec::new())
    );
    assert_eq!(
        surface(config(0x5000, 0, 0, 0)).read_framebuffer(&memory),
        None
    );
}

#[test]
fn quiet_reads_agree() {
    let memory = memory();
    let one = read_guest(&memory, 0x1100, 64).unwrap();
    let two = read_guest(&memory, 0x1110, 64).unwrap();
    assert_eq!(one[16..], two[..48]);
    assert_eq!(read_guest(&memory, 0x1100, 64).unwrap(), one);
    assert_eq!(read_guest(&memory, 0x1100, 0), Some(Vec::new()));
    assert_eq!(read_guest(&memory, 0x7000, 0), None);
}

#[test]
fn region_is_part_of_framebuffer() {
    let memory = memory();
    let surface = surface(config(0x1800, 8, 16, 40));
    let whole = surface.read_framebuffer(&memory).unwrap();
    let part = surface.read_region(&memory, 2, 3, 4, 5).unwrap();
    assert_eq!(part.len(), 80);
    for row in 0..5 {
        for i in 0..16 {
            assert_eq!(part[row * 16 + i], whole[(3 + row) * 40 + 8 + i]);
        }
    }
}

#[test]
fn rows_of_a_region() {
    let surface = surface(config(0x1800, 8, 16, 40));
    assert_eq!(
        surface.region_rows(2, 3, 4, 3),
        Some(vec![0x1880, 0x18A8, 0x18D0])
    );
    assert_eq!(surface.region_rows(8, 16, 0, 0), Some(Vec::new()));
    assert_eq!(surface.region_rows(5, 0, 4, 1), None);
    assert_eq!(surface.region_rows(0, 16, 1, 1), None);
}

#[test]
fn rows_beyond_the_address_space() {
    let surface = surface(config(u64::MAX - 40, 100, 2, 20));
    assert_eq!(surface.region_rows(0, 0, 1, 2), Some(vec![u64::MAX - 40, u64::MAX - 20]));
    assert_eq!(surface.region_rows(6, 1, 1, 1), None);
    assert_eq!(surface.read_region(&memory(), 6, 1, 1, 1), None);
}

#[test]
fn region_outside_the_framebuffer() {
    let surface = surface(config(0x1800, 8, 16, 40));
    assert_eq!(surface.read_region(&memory(), 5, 0, 4, 1), None);
    assert_eq!(surface.read_region(&memory(), 0, 15, 1, 2), None);
    assert_eq!(
        surface.read_region(&memory(), 8, 16, 0, 0),
        Some(Vec::new())
    );
}

#[test]
fn region_with_a_row_outside_memory() {
    let surface = surface(config(0x2F00, 16, 8, 64));
    assert!(surface.read_region(&memory(), 0, 0, 16, 4).is_some());
    assert_eq!(surface.read_region(&memory(), 0, 0, 16, 5), None);
    assert_eq!(surface.read_region(&memory(), 0, 4, 0, 1), None);
}

#[test]
fn region_is_read_in_full_or_not_at_all() {
    let memory = memory();
    let surface = surface(config(0x2FF8, 4, 1, 16));
    assert_eq!(surface.read_region(&memory, 0, 0, 4, 1), None);
    assert_eq!(
        surface.read_region(&memory, 0, 0, 2, 1),
        Some((0x2FF8..0x3000).map(held_at).collect())
    );
    assert_eq!(surface.read_region(&memory, 1, 0, 2, 1), None);
}

#[test]
fn region_of_overlapping_rows() {
    let memory = memory();
    let surface = surface(config(0x1800, 8, 3, 8));
    let whole = surface.read_framebuffer(&memory).unwrap();
    let part = surface.read_region(&memory, 0, 0, 4, 2).unwrap();
    assert_eq!(part[..16], whole[..16]);
    assert_eq!(part[16..], whole[8..24]);
}
