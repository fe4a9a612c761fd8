use cua_driver_workspace::macho::{image_layout, lookup_symbol, table_placement, LoadSymtab};

fn put_u32(b: &mut Vec<u8>, v: u32) {
    b.extend_from_slice(&v.to_le_bytes());
}

fn put_u64(b: &mut Vec<u8>, v: u64) {
    b.extend_from_slice(&v.to_le_bytes());
}

fn segment_command(b: &mut Vec<u8>, name: &[u8; 16], address: u64, offset: u64, file_length: u64) {
    put_u32(b, 0x19);
    put_u32(b, 72);
    b.extend_from_slice(name);
    put_u64(b, address);
    put_u64(b, 0x4000);
    put_u64(b, offset);
    put_u64(b, file_length);
    put_u32(b, 1);
    put_u32(b, 1);
    put_u32(b, 0);
    put_u32(b, 0);
}

fn symtab_command(b: &mut Vec<u8>, offset: u32, count: u32, strings: u32, string_bytes: u32) {
    put_u32(b, 2);
    put_u32(b, 24);
    put_u32(b, offset);
    put_u32(b, count);
    put_u32(b, strings);
    put_u32(b, string_bytes);
}

fn image(commands: u32, body: &[u8]) -> Vec<u8> {
    let mut b = Vec::new();
    put_u32(&mut b, 0xfeed_facf);
    put_u32(&mut b, 0x0100_000c);
    put_u32(&mut b, 0);
    put_u32(&mut b, 6);
    put_u32(&mut b, commands);
    put_u32(&mut b, body.len() as u32);
    put_u32(&mut b, 0);
    put_u32(&mut b, 0);
    b.extend_from_slice(body);
    b
}

const LINKEDIT: &[u8; 16] = b"__LINKEDIT\0\0\0\0\0\0";

fn sample_image() -> Vec<u8> {
    let mut body = Vec::new();
    segment_command(&mut body, b"__TEXT\0\0\0\0\0\0\0\0\0\0", 0x1000, 0, 0x4000);
    segment_command(&mut body, LINKEDIT, 0x9000, 0x8000, 0x1000);
    symtab_command(&mut body, 0x8000, 3, 0x8100, 0x40);
    image(3, &body)
}

#[test]
fn image_layout_finds_linkedit_and_symbol_table() {
    let layout = image_layout(&sample_image()).expect("layout");
    assert_eq!(layout.linkedit.address, 0x9000);
    assert_eq!(layout.linkedit.offset, 0x8000);
    assert_eq!(layout.linkedit.file_length, 0x1000);
    assert_eq!(layout.symtab.offset, 0x8000);
    assert_eq!(layout.symtab.count, 3);
    assert_eq!(layout.symtab.strings, 0x8100);
    assert_eq!(layout.symtab.string_bytes, 0x40);
}

#[test]
fn image_layout_rejects_other_magic_and_truncated_commands() {
    let mut wrong = sample_image();
    wrong[0] = 0xce;
    assert!(image_layout(&wrong).is_none());

    let mut body = Vec::new();
    segment_command(&mut body, LINKEDIT, 0x9000, 0x8000, 0x1000);
    // Claims one command more than the area holds.
    assert!(image_layout(&image(2, &body)).is_none());

    // A command whose size runs past the area.
    let mut long = Vec::new();
    put_u32(&mut long, 2);
    put_u32(&mut long, 400);
    long.extend_from_slice(&[0; 16]);
    assert!(image_layout(&image(1, &long)).is_none());

    // Without a symbol table there is nothing to read.
    assert!(image_layout(&image(1, &body)).is_none());
}

#[test]
fn table_placement_applies_slide_and_bounds() {
    let layout = image_layout(&sample_image()).unwrap();
    let placed = table_placement(&layout, 0x10_0000).unwrap();
    // link base = 0x9000 + 0x100000 - 0x8000
    assert_eq!(placed.symbols, 0x10_1000 + 0x8000);
    assert_eq!(placed.strings, 0x10_1000 + 0x8100);

    let placed = table_placement(&layout, -0x1000).unwrap();
    assert_eq!(placed.symbols, 0x8000);

    // A slide that would put the segment's start below its file offset.
    assert!(table_placement(&layout, -0x2000).is_none());

    let mut outside = layout;
    outside.symtab.string_bytes = 0x1000;
    assert!(table_placement(&outside, 0).is_none());
}

fn symbol(b: &mut Vec<u8>, string: u32, kind: u8, value: u64) {
    put_u32(b, string);
    b.push(kind);
    b.push(1);
    b.extend_from_slice(&0u16.to_le_bytes());
    put_u64(b, value);
}

#[test]
fn lookup_symbol_matches_defined_local_names_only() {
    let strings = b"\0_other\0_target\0_target\0".to_vec();
    let mut symbols = Vec::new();
    symbol(&mut symbols, 8, 0x0f | 0x20, 0x100); // debugging entry, skipped
    symbol(&mut symbols, 8, 0x0e, 0); // zero value, skipped
    symbol(&mut symbols, 1, 0x0e, 0x200);
    symbol(&mut symbols, 16, 0x0e, 0x300);
    let table = LoadSymtab { offset: 0, count: 4, strings: 0, string_bytes: strings.len() as u32 };
    assert_eq!(lookup_symbol(&table, &symbols, &strings, b"_target\0", 0x1000), Some(0x1300));
    assert_eq!(lookup_symbol(&table, &symbols, &strings, b"_other\0", -0x100), Some(0x100));
    assert_eq!(lookup_symbol(&table, &symbols, &strings, b"_missing\0", 0), None);
}
