use td_shim::loader::{relocate_pe_mem_with_per_sections, preferred_image_base, LoadError};
use td_shim::pe::{is_pe, parse_sections, ParseError};
use td_shim::reloc::{apply_relocations, RelocationError};

fn put_u16(b: &mut [u8], off: usize, v: u16) {
    b[off..off + 2].copy_from_slice(&v.to_le_bytes());
}

fn put_u32(b: &mut [u8], off: usize, v: u32) {
    b[off..off + 4].copy_from_slice(&v.to_le_bytes());
}

fn put_u64(b: &mut [u8], off: usize, v: u64) {
    b[off..off + 8].copy_from_slice(&v.to_le_bytes());
}

fn get_u64(b: &[u8], off: usize) -> u64 {
    u64::from_le_bytes(b[off..off + 8].try_into().unwrap())
}

/// A minimal well-formed PE32+ image: e_lfanew = 0x40, two sections, the
/// base-relocation directory as given.
fn build_image(
    sections: &[(u32, u32, u32, u32)],
    dir_rva: u32,
    dir_size: u32,
    image_len: usize,
) -> Vec<u8> {
    let e: usize = 0x40;
    let mut img = vec![0u8; image_len];
    img[0] = 0x4d;
    img[1] = 0x5a;
    put_u32(&mut img, 0x3c, e as u32);
    img[e] = 0x50;
    img[e + 1] = 0x45;
    put_u16(&mut img, e + 6, sections.len() as u16);
    put_u16(&mut img, e + 20, 160);
    put_u16(&mut img, e + 24, 0x20b);
    put_u64(&mut img, e + 48, 0x140000000);
    put_u32(&mut img, e + 176, dir_rva);
    put_u32(&mut img, e + 180, dir_size);
    let table = e + 24 + 160;
    for (i, &(va, vs, rp, rs)) in sections.iter().enumerate() {
        let base = table + 40 * i;
        put_u32(&mut img, base + 8, vs);
        put_u32(&mut img, base + 12, va);
        put_u32(&mut img, base + 16, rs);
        put_u32(&mut img, base + 20, rp);
    }
    img
}

#[test]
fn is_pe_rejects_short_and_malformed_buffers() {
    let image_bytes = &mut [0u8; 10][..];
    assert_eq!(is_pe(image_bytes), false);

    let image_bytes = &mut [0u8; 0x55][..];
    assert_eq!(is_pe(image_bytes), false);

    image_bytes[0] = 0x4d;
    image_bytes[1] = 0x5a;
    assert_eq!(is_pe(image_bytes), false);

    image_bytes[0x3c] = 0x10;
    image_bytes[0x10] = 0x50;
    image_bytes[0x11] = 0x45;
    image_bytes[0x12] = 0x00;
    image_bytes[0x13] = 0x00;
    assert_eq!(is_pe(image_bytes), false);

    image_bytes[0x3c] = 0xAA;
    assert_eq!(is_pe(image_bytes), false);
}

#[test]
fn is_pe_accepts_well_formed_image() {
    let img = build_image(&[], 0, 0, 0x200);
    assert!(is_pe(&img));

    let mut bad_magic = img.clone();
    put_u16(&mut bad_magic, 0x40 + 24, 0x10b);
    assert!(!is_pe(&bad_magic));

    let mut bad_sig = img.clone();
    bad_sig[0x42] = 0xff;
    assert!(!is_pe(&bad_sig));
}

#[test]
fn parse_sections_returns_descriptors_in_table_order() {
    let mut buf = vec![0u8; 80];
    // first record
    buf[0] = 0x2e; // '.'
    put_u32(&mut buf, 8, 0x20);
    put_u32(&mut buf, 12, 0x1000);
    put_u32(&mut buf, 16, 0x10);
    put_u32(&mut buf, 20, 0x200);
    // second record
    put_u32(&mut buf, 48, 0x40);
    put_u32(&mut buf, 52, 0x2000);
    put_u32(&mut buf, 56, 0x30);
    put_u32(&mut buf, 60, 0x400);
    let secs = parse_sections(&buf, 2).unwrap();
    assert_eq!(secs.len(), 2);
    assert_eq!(secs[0].name[0], 0x2e);
    assert_eq!(secs[0].virtual_size, 0x20);
    assert_eq!(secs[0].virtual_address, 0x1000);
    assert_eq!(secs[0].raw_data_size, 0x10);
    assert_eq!(secs[0].raw_data_ptr, 0x200);
    assert_eq!(secs[1].virtual_size, 0x40);
    assert_eq!(secs[1].virtual_address, 0x2000);
    assert_eq!(secs[1].raw_data_size, 0x30);
    assert_eq!(secs[1].raw_data_ptr, 0x400);
}

#[test]
fn parse_sections_truncated_buffer_fails() {
    let buf = vec![0u8; 79];
    assert_eq!(parse_sections(&buf, 2), Err(ParseError::Truncated));
    let empty: Vec<u8> = Vec::new();
    assert_eq!(parse_sections(&empty, 1), Err(ParseError::Truncated));
    assert_eq!(parse_sections(&empty, 0).unwrap().len(), 0);
}

#[test]
fn relocate_copies_sections_and_zero_fills() {
    // One section: 0x10 raw bytes at image offset 0x200 land at VA 0x100,
    // virtual size 0x20, so 0x10 zero bytes follow them.
    let mut img = build_image(&[(0x100, 0x20, 0x200, 0x10)], 0, 0, 0x300);
    for k in 0..0x10 {
        img[0x200 + k] = 0xb0 + k as u8;
    }
    let mut dest = vec![0xffu8; 0x1000];
    let secs = relocate_pe_mem_with_per_sections(&img, &mut dest, 0).unwrap();
    assert_eq!(secs.len(), 1);
    for k in 0..0x10 {
        assert_eq!(dest[0x100 + k], 0xb0 + k as u8);
    }
    for k in 0x10..0x20 {
        assert_eq!(dest[0x100 + k], 0);
    }
    // untouched bytes keep their old value
    assert_eq!(dest[0x120], 0xff);
    assert_eq!(dest[0xff], 0xff);
}

#[test]
fn relocate_later_section_wins_overlap() {
    let mut img = build_image(
        &[(0x100, 0x8, 0x200, 0x8), (0x100, 0x8, 0x240, 0x8)],
        0,
        0,
        0x300,
    );
    for k in 0..8 {
        img[0x200 + k] = 0x11;
        img[0x240 + k] = 0x22;
    }
    let mut dest = vec![0u8; 0x1000];
    relocate_pe_mem_with_per_sections(&img, &mut dest, 0).unwrap();
    for k in 0..8 {
        assert_eq!(dest[0x100 + k], 0x22);
    }
}

#[test]
fn relocate_applies_dir64_delta() {
    // Section one carries a 64-bit value at VA 8; section two carries the
    // relocation directory at VA 0x1000: one block, page RVA 0, one DIR64
    // entry for offset 8 plus one ABSOLUTE padding entry.
    let mut img = build_image(
        &[(0, 0x20, 0x200, 0x10), (0x1000, 0x10, 0x240, 0xc)],
        0x1000,
        0xc,
        0x300,
    );
    put_u64(&mut img, 0x208, 0x1122334455667788);
    put_u32(&mut img, 0x240, 0); // page RVA
    put_u32(&mut img, 0x244, 0xc); // block size
    put_u16(&mut img, 0x248, 0xa008); // DIR64, offset 8
    put_u16(&mut img, 0x24a, 0x0000); // ABSOLUTE padding
    let mut dest = vec![0u8; 0x2000];
    relocate_pe_mem_with_per_sections(&img, &mut dest, 0x7000).unwrap();
    assert_eq!(get_u64(&dest, 8), 0x1122334455667788 + 0x7000);

    // negative delta
    let mut dest2 = vec![0u8; 0x2000];
    relocate_pe_mem_with_per_sections(&img, &mut dest2, -0x1000).unwrap();
    assert_eq!(get_u64(&dest2, 8), 0x1122334455667788 - 0x1000);

    // zero delta is the identity
    let mut dest3 = vec![0u8; 0x2000];
    relocate_pe_mem_with_per_sections(&img, &mut dest3, 0).unwrap();
    assert_eq!(get_u64(&dest3, 8), 0x1122334455667788);
}

#[test]
fn reapplying_relocations_with_zero_delta_is_identity() {
    let mut img = build_image(
        &[(0, 0x20, 0x200, 0x10), (0x1000, 0x10, 0x240, 0xc)],
        0x1000,
        0xc,
        0x300,
    );
    put_u64(&mut img, 0x208, 0xdeadbeef00c0ffee);
    put_u32(&mut img, 0x240, 0);
    put_u32(&mut img, 0x244, 0xc);
    put_u16(&mut img, 0x248, 0xa008);
    let mut dest = vec![0u8; 0x2000];
    relocate_pe_mem_with_per_sections(&img, &mut dest, 0x4000).unwrap();
    let snapshot = dest.clone();
    apply_relocations(&mut dest, 0x1000, 0xc, 0).unwrap();
    assert_eq!(dest, snapshot);
}

#[test]
fn relocate_rejects_section_out_of_bounds() {
    // raw range leaves the image
    let img = build_image(&[(0x100, 0x10, 0x2f8, 0x10)], 0, 0, 0x300);
    let mut dest = vec![0u8; 0x1000];
    assert_eq!(
        relocate_pe_mem_with_per_sections(&img, &mut dest, 0),
        Err(LoadError::SectionOutOfBounds)
    );
    // virtual range leaves the destination
    let img2 = build_image(&[(0xff8, 0x10, 0x200, 0x10)], 0, 0, 0x300);
    let mut dest2 = vec![0u8; 0x1000];
    assert_eq!(
        relocate_pe_mem_with_per_sections(&img2, &mut dest2, 0),
        Err(LoadError::SectionOutOfBounds)
    );
}

#[test]
fn relocate_rejects_unsupported_relocation_type() {
    let mut img = build_image(
        &[(0, 0x20, 0x200, 0x10), (0x1000, 0x10, 0x240, 0xc)],
        0x1000,
        0xc,
        0x300,
    );
    put_u32(&mut img, 0x240, 0);
    put_u32(&mut img, 0x244, 0xc);
    put_u16(&mut img, 0x248, 0x3008); // HIGHLOW: unsupported here
    let mut dest = vec![0u8; 0x2000];
    assert_eq!(
        relocate_pe_mem_with_per_sections(&img, &mut dest, 0),
        Err(LoadError::Relocation(RelocationError::UnsupportedType))
    );
}

#[test]
fn relocate_rejects_out_of_bounds_fixup_target() {
    let mut img = build_image(
        &[(0, 0x20, 0x200, 0x10), (0x1000, 0x10, 0x240, 0xc)],
        0x1000,
        0xc,
        0x300,
    );
    put_u32(&mut img, 0x240, 0x1ff9); // page RVA near the end of dest
    put_u32(&mut img, 0x244, 0xc);
    put_u16(&mut img, 0x248, 0xa000); // target 0x1ff9..0x2001: out of bounds
    let mut dest = vec![0u8; 0x2000];
    assert_eq!(
        relocate_pe_mem_with_per_sections(&img, &mut dest, 0),
        Err(LoadError::Relocation(RelocationError::OutOfBounds))
    );
}

#[test]
fn relocate_rejects_invalid_header() {
    let img = vec![0u8; 0x300];
    let mut dest = vec![0u8; 0x1000];
    assert_eq!(
        relocate_pe_mem_with_per_sections(&img, &mut dest, 0),
        Err(LoadError::Validation)
    );
}

#[test]
fn relocation_walk_stops_at_terminator_block() {
    // A directory whose first block is the size-zero terminator: nothing
    // is patched even though the directory claims more bytes.
    let mut img = build_image(
        &[(0, 0x20, 0x200, 0x10), (0x1000, 0x10, 0x240, 0xc)],
        0x1000,
        0xc,
        0x300,
    );
    put_u64(&mut img, 0x208, 0x4242424242424242);
    put_u32(&mut img, 0x240, 0);
    put_u32(&mut img, 0x244, 0); // terminator
    let mut dest = vec![0u8; 0x2000];
    relocate_pe_mem_with_per_sections(&img, &mut dest, 0x5000).unwrap();
    assert_eq!(get_u64(&dest, 8), 0x4242424242424242);
}

#[test]
fn preferred_image_base_reads_optional_header() {
    let img = build_image(&[], 0, 0, 0x200);
    assert_eq!(preferred_image_base(&img), Some(0x140000000));
    let short = vec![0u8; 0x20];
    assert_eq!(preferred_image_base(&short), None);
}
