use octane::scan::{
    call_target, default_delay_bytes, frame_delay_in, masked_find, primary, primary_mask_bytes,
    primary_rva, read_le32, scan_text_section, secondary, secondary_mask_bytes, slot_in_body,
    TextScan,
};

#[test]
fn masked_find_first_match() {
    let hay = [1u8, 2, 3, 1, 9, 3, 1, 2, 3];
    assert_eq!(masked_find(&hay, &[1, 2, 3], &[true, true, true]), Some(0));
    assert_eq!(masked_find(&hay, &[1, 0, 3], &[true, false, true]), Some(0));
    assert_eq!(masked_find(&hay, &[9, 3], &[true, true]), Some(4));
    assert_eq!(masked_find(&hay, &[3, 1, 2], &[true, true, true]), Some(5));
    assert_eq!(masked_find(&hay, &[4], &[true]), None);
    assert_eq!(masked_find(&hay, &[], &[]), Some(0));
    assert_eq!(masked_find(&[1, 2], &[1, 2, 3], &[true, true, true]), None);
    assert_eq!(masked_find(&hay, &[7, 7], &[false, false]), Some(0));
}

#[test]
fn masked_find_short_mask_rejected_early() {
    assert_eq!(masked_find(&[5u8, 6, 7], &[1, 2], &[true]), None);
}

#[test]
fn patterns_and_masks() {
    assert_eq!(primary().len(), primary_mask_bytes().len());
    assert_eq!(secondary().len(), secondary_mask_bytes().len());
    assert_eq!(primary()[0], 0x55);
    assert_eq!(secondary()[0], 0xA1);
    assert_eq!(default_delay_bytes(), (1.0f64 / 60.0).to_le_bytes());
    assert_eq!(read_le32(&[0x78, 0x56, 0x34, 0x12, 0xFF], 0), 0x12345678);
    assert_eq!(read_le32(&[0, 0x78, 0x56, 0x34, 0x12], 1), 0x12345678);
}

fn put32(buf: &mut [u8], at: usize, v: u32) {
    buf[at..at + 4].copy_from_slice(&v.to_le_bytes());
}

fn put16(buf: &mut [u8], at: usize, v: u16) {
    buf[at..at + 2].copy_from_slice(&v.to_le_bytes());
}

/// A minimal PE image: PE header at 0x80, an optional header of 0x10 bytes, two sections
/// (`.rdata`, then `.text`), and the text section's raw bytes at 0x200.
fn image(text: &[u8], text_va: u32) -> Vec<u8> {
    let mut exe = vec![0u8; 0x200 + text.len()];
    put32(&mut exe, 0x3C, 0x80);
    put16(&mut exe, 0x80 + 6, 2);
    put16(&mut exe, 0x80 + 20, 0x10);
    let table = 0x80 + 24 + 0x10;
    exe[table..table + 6].copy_from_slice(b".rdata");
    let text_header = table + 40;
    exe[text_header..text_header + 5].copy_from_slice(b".text");
    put32(&mut exe, text_header + 12, text_va);
    put32(&mut exe, text_header + 16, text.len() as u32);
    put32(&mut exe, text_header + 20, 0x200);
    exe[0x200..].copy_from_slice(text);
    exe
}

fn text_with_primary(at: usize) -> Vec<u8> {
    let mut text = vec![0xCCu8; at + 40];
    let pat = primary();
    text[at..at + pat.len()].copy_from_slice(&pat);
    text[at + 8..at + 12].copy_from_slice(&[1, 2, 3, 4]);
    text
}

#[test]
fn primary_rva_of_image() {
    let exe = image(&text_with_primary(0x13), 0x1000);
    assert_eq!(scan_text_section(&exe), TextScan::Found { virtual_address: 0x1000, offset: 0x13 });
    assert_eq!(primary_rva(&exe), Some(0x1013));
}

#[test]
fn primary_rva_missing_cases() {
    assert_eq!(primary_rva(&[0u8; 0x3F]), None);
    let mut exe = image(&[0xCC; 64], 0x1000);
    assert_eq!(primary_rva(&exe), None);
    put32(&mut exe, 0x3C, 0xFFFF);
    assert_eq!(scan_text_section(&exe), TextScan::Missing);
    let mut exe = image(&text_with_primary(0), 0x1000);
    put16(&mut exe, 0x80 + 6, 1);
    assert_eq!(primary_rva(&exe), None);
    let mut exe = image(&text_with_primary(0), 0x1000);
    put32(&mut exe, 0x80 + 24 + 0x10 + 40 + 20, 0x10000);
    assert_eq!(primary_rva(&exe), None);
}

#[test]
fn text_section_cut_by_file_end() {
    let mut exe = image(&text_with_primary(4), 0x2000);
    put32(&mut exe, 0x80 + 24 + 0x10 + 40 + 16, 0x7FFF_FFFF);
    assert_eq!(primary_rva(&exe), Some(0x2004));
}

#[test]
fn truncated_text_header() {
    let mut exe = vec![0u8; 0x80 + 24 + 8 + 10];
    put32(&mut exe, 0x3C, 0x80);
    put16(&mut exe, 0x80 + 6, 1);
    put16(&mut exe, 0x80 + 20, 0);
    exe[0x80 + 24..0x80 + 24 + 5].copy_from_slice(b".text");
    assert_eq!(scan_text_section(&exe), TextScan::Truncated);
}

#[test]
fn call_target_follows_displacement() {
    let mut head = primary().to_vec();
    head[8..12].copy_from_slice(&0x100i32.to_le_bytes());
    assert_eq!(call_target(0x40_0000, &head), Some(0x40_010C));
    head[8..12].copy_from_slice(&(-0x20i32).to_le_bytes());
    assert_eq!(call_target(0x40_0000, &head), Some(0x3F_FFEC));
    assert_eq!(call_target(0xFFFF_FFF8, &{
        let mut h = primary().to_vec();
        h[8..12].copy_from_slice(&0u32.to_le_bytes());
        h
    }), Some(4));
    let mut bad = head.clone();
    bad[0] = 0x90;
    assert_eq!(call_target(0x40_0000, &bad), None);
    assert_eq!(call_target(0x40_0000, &head[..16]), None);
    let mut shifted = vec![0x90u8];
    shifted.extend_from_slice(&head);
    assert_eq!(call_target(0x40_0000, &shifted), None);
}

#[test]
fn slot_from_function_body() {
    let mut body = vec![0x90u8; 0x100];
    body[0x20..0x28].copy_from_slice(&[0xA1, 0x78, 0x56, 0x34, 0x12, 0x8B, 0x4D, 0xF4]);
    body[0x40..0x48].copy_from_slice(&[0xA1, 1, 1, 1, 1, 0x8B, 0x4D, 0xF4]);
    assert_eq!(slot_in_body(&body), Some(0x12345678));
    assert_eq!(slot_in_body(&[0x90u8; 0x100]), None);
}

#[test]
fn frame_delay_unique_aligned_hit() {
    let delay = (1.0f64 / 60.0).to_le_bytes();
    let mut data = vec![0u8; 0x100];
    data[0x18..0x20].copy_from_slice(&delay);
    assert_eq!(frame_delay_in(0x1000, &data), Some(0x1018));
    assert_eq!(frame_delay_in(0xFFFF_FFF0, &data), Some(0x8));
    let mut two = data.clone();
    two[0x40..0x48].copy_from_slice(&delay);
    assert_eq!(frame_delay_in(0x1000, &two), None);
    let mut misaligned = vec![0u8; 0x100];
    misaligned[0x1A..0x22].copy_from_slice(&delay);
    assert_eq!(frame_delay_in(0x1000, &misaligned), None);
    assert_eq!(frame_delay_in(0x1000, &[0u8; 0x100]), None);
    let mut last = vec![0u8; 0x100];
    last[0xF8..0x100].copy_from_slice(&delay);
    assert_eq!(frame_delay_in(0, &last), Some(0xF8));
}
