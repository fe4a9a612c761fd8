//! Local symbol lookup in a loaded 64-bit Mach-O image, read from byte
//! slices with every offset bounds-checked. A native adapter hands in the
//! image's header and load commands, and its __LINKEDIT segment.
use vstd::prelude::*;

verus! {

/// The 64-bit Mach-O magic number.
pub const MH_MAGIC_64: u32 = 0xfeed_facf;

/// Load command: a 64-bit segment.
pub const LC_SEGMENT_64: u32 = 0x19;

/// Load command: the symbol table.
pub const LC_SYMTAB: u32 = 2;

/// Bytes of the Mach-O header.
pub const HEADER_BYTES: usize = 32;

/// Bytes of a 64-bit segment command.
pub const SEGMENT_COMMAND_BYTES: u32 = 72;

/// Bytes of a symbol-table command.
pub const SYMTAB_COMMAND_BYTES: u32 = 24;

/// Bytes of one symbol-table entry.
pub const SYMBOL_BYTES: u64 = 16;

/// Little-endian unsigned integer of 4 bytes at `at`.
pub open spec fn le_u32(b: Seq<u8>, at: int) -> int {
    b[at] + 256 * b[at + 1] + 65536 * b[at + 2] + 16777216 * b[at + 3]
}

/// Little-endian unsigned integer of 8 bytes at `at`.
pub open spec fn le_u64(b: Seq<u8>, at: int) -> int {
    le_u32(b, at) + 4294967296 * le_u32(b, at + 4)
}

fn read_u32(b: &[u8], at: usize) -> (r: u32)
    requires
        at + 4 <= b@.len(),
    ensures
        r as int == le_u32(b@, at as int),
{
    (b[at] as u32) + (b[at + 1] as u32) * 256 + (b[at + 2] as u32) * 65536 + (b[at + 3] as u32)
        * 16777216
}

fn read_u64(b: &[u8], at: usize) -> (r: u64)
    requires
        at + 8 <= b@.len(),
    ensures
        r as int == le_u64(b@, at as int),
{
    let n = b.len();
    assert(n == b@.len());
    let lo = read_u32(b, at) as u64;
    let hi = read_u32(b, at + 4) as u64;
    lo + hi * 4294967296
}

/// The segment name `__LINKEDIT`, padded with zero bytes to 16.
pub open spec fn linkedit_name() -> Seq<u8> {
    seq![95u8, 95, 76, 73, 78, 75, 69, 68, 73, 84, 0, 0, 0, 0, 0, 0]
}

/// What the lookup needs of the __LINKEDIT segment command.
pub struct LoadSegment {
    pub address: u64,
    pub offset: u64,
    pub file_length: u64,
}

/// What the lookup needs of the symbol-table command.
pub struct LoadSymtab {
    pub offset: u32,
    pub count: u32,
    pub strings: u32,
    pub string_bytes: u32,
}

/// The segment and symbol table an image's load commands declare.
pub struct ImageLayout {
    pub linkedit: LoadSegment,
    pub symtab: LoadSymtab,
}

pub open spec fn spec_segment_at(b: Seq<u8>, at: int) -> LoadSegment {
    LoadSegment {
        address: le_u64(b, at + 24) as u64,
        offset: le_u64(b, at + 40) as u64,
        file_length: le_u64(b, at + 48) as u64,
    }
}

pub open spec fn spec_symtab_at(b: Seq<u8>, at: int) -> LoadSymtab {
    LoadSymtab {
        offset: le_u32(b, at + 8) as u32,
        count: le_u32(b, at + 12) as u32,
        strings: le_u32(b, at + 16) as u32,
        string_bytes: le_u32(b, at + 20) as u32,
    }
}

/// One load command at `offset`, inside the command area that ends at
/// `end`: the offset of the next command, and the __LINKEDIT segment and
/// symbol table known after it; nothing when the command runs past the area.
#[verifier::opaque]
pub open spec fn command_step(
    b: Seq<u8>,
    end: int,
    offset: int,
    segment: Option<LoadSegment>,
    symtab: Option<LoadSymtab>,
) -> Option<(int, Option<LoadSegment>, Option<LoadSymtab>)> {
    if offset + 8 > end {
        None
    } else {
        let cmd = le_u32(b, offset);
        let size = le_u32(b, offset + 4);
        if size < 8 || offset + size > end {
            None
        } else {
            let is_segment = cmd == LC_SEGMENT_64 && size >= SEGMENT_COMMAND_BYTES;
            let next_segment = if is_segment && b.subrange(offset + 8, offset + 24) == linkedit_name() {
                Some(spec_segment_at(b, offset))
            } else {
                segment
            };
            let next_symtab = if !is_segment && cmd == LC_SYMTAB && size >= SYMTAB_COMMAND_BYTES {
                Some(spec_symtab_at(b, offset))
            } else {
                symtab
            };
            Some((offset + size, next_segment, next_symtab))
        }
    }
}

/// The walk over `remaining` load commands from `offset`: the last
/// __LINKEDIT segment and the last symbol table seen, or nothing when a
/// command runs past the command area.
pub open spec fn walk(
    b: Seq<u8>,
    end: int,
    offset: int,
    remaining: nat,
    segment: Option<LoadSegment>,
    symtab: Option<LoadSymtab>,
) -> Option<(Option<LoadSegment>, Option<LoadSymtab>)>
    decreases remaining,
{
    if remaining == 0 {
        Some((segment, symtab))
    } else {
        match command_step(b, end, offset, segment, symtab) {
            None => None,
            Some((next, s, t)) => walk(b, end, next, (remaining - 1) as nat, s, t),
        }
    }
}

/// The layout a finished walk found, when it found both commands.
pub open spec fn layout_of(found: Option<(Option<LoadSegment>, Option<LoadSymtab>)>) -> Option<ImageLayout> {
    match found {
        Some((Some(linkedit), Some(symtab))) => Some(ImageLayout { linkedit, symtab }),
        _ => None,
    }
}

/// The layout of a 64-bit image from its header and load commands.
pub open spec fn spec_image_layout(b: Seq<u8>) -> Option<ImageLayout> {
    if b.len() < HEADER_BYTES || le_u32(b, 0) != MH_MAGIC_64 {
        None
    } else {
        let end = HEADER_BYTES + le_u32(b, 20);
        if end > usize::MAX || end > b.len() {
            None
        } else {
            layout_of(walk(b, end, HEADER_BYTES as int, le_u32(b, 16) as nat, None, None))
        }
    }
}

fn same_bytes(b: &[u8], at: usize, expected: &[u8]) -> (r: bool)
    requires
        at + expected@.len() <= b@.len(),
    ensures
        r == (b@.subrange(at as int, at + expected@.len()) == expected@),
{
    let n = b.len();
    for i in 0..expected.len()
        invariant
            n == b@.len(),
            at + expected@.len() <= b@.len(),
            forall|k: int| 0 <= k < i ==> b@[at + k] == expected@[k],
    {
        if b[at + i] != expected[i] {
            proof {
                assert(b@.subrange(at as int, at + expected@.len())[i as int] != expected@[i as int]);
            }
            return false;
        }
    }
    assert(b@.subrange(at as int, at + expected@.len()) =~= expected@);
    true
}

fn next_command(
    image: &[u8],
    end: usize,
    offset: usize,
    name: &[u8; 16],
    segment: Option<LoadSegment>,
    symtab: Option<LoadSymtab>,
) -> (r: Option<(usize, Option<LoadSegment>, Option<LoadSymtab>)>)
    requires
        end <= image@.len(),
        offset <= end,
        name@ == linkedit_name(),
    ensures
        match r {
            None => command_step(image@, end as int, offset as int, segment, symtab) is None,
            Some((next, s, t)) => next <= end && command_step(image@, end as int, offset as int, segment, symtab)
                == Some((next as int, s, t)),
        },
{
    reveal(command_step);
    if end < 8 || offset > end - 8 {
        return None;
    }
    let cmd = read_u32(image, offset);
    let size = read_u32(image, offset + 4) as usize;
    if size < 8 || size > end - offset {
        return None;
    }
    let mut segment = segment;
    let mut symtab = symtab;
    if cmd == LC_SEGMENT_64 && size >= SEGMENT_COMMAND_BYTES as usize {
        if same_bytes(image, offset + 8, name) {
            segment = Some(
                LoadSegment {
                    address: read_u64(image, offset + 24),
                    offset: read_u64(image, offset + 40),
                    file_length: read_u64(image, offset + 48),
                },
            );
        }
    } else if cmd == LC_SYMTAB && size >= SYMTAB_COMMAND_BYTES as usize {
        symtab = Some(
            LoadSymtab {
                offset: read_u32(image, offset + 8),
                count: read_u32(image, offset + 12),
                strings: read_u32(image, offset + 16),
                string_bytes: read_u32(image, offset + 20),
            },
        );
    }
    Some((offset + size, segment, symtab))
}

/// Reads the __LINKEDIT segment and symbol table of an image. `image` holds
/// the header and the load commands that follow it.
pub fn image_layout(image: &[u8]) -> (r: Option<ImageLayout>)
    ensures
        r == spec_image_layout(image@),
{
    if image.len() < HEADER_BYTES || read_u32(image, 0) != MH_MAGIC_64 {
        return None;
    }
    let bytes = read_u32(image, 20) as usize;
    let end = match HEADER_BYTES.checked_add(bytes) {
        Some(end) => end,
        None => return None,
    };
    if end > image.len() {
        return None;
    }
    let commands = read_u32(image, 16);
    let name: [u8; 16] = [95u8, 95, 76, 73, 78, 75, 69, 68, 73, 84, 0, 0, 0, 0, 0, 0];
    assert(name@ =~= linkedit_name());
    let mut offset: usize = HEADER_BYTES;
    let mut segment: Option<LoadSegment> = None;
    let mut symtab: Option<LoadSymtab> = None;
    let ghost total = walk(image@, end as int, HEADER_BYTES as int, commands as nat, None, None);
    let mut k: u32 = 0;
    while k < commands
        invariant
            k <= commands,
            end <= image@.len(),
            offset <= end,
            name@ == linkedit_name(),
            total == walk(image@, end as int, offset as int, (commands - k) as nat, segment, symtab),
            spec_image_layout(image@) == layout_of(total),
        decreases commands - k,
    {
        match next_command(image, end, offset, &name, segment, symtab) {
            None => {
                assert(total is None);
                return None;
            },
            Some((next, s, t)) => {
                offset = next;
                segment = s;
                symtab = t;
            },
        }
        k = k + 1;
    }
    match (segment, symtab) {
        (Some(linkedit), Some(symtab)) => Some(ImageLayout { linkedit, symtab }),
        _ => None,
    }
}

/// Where an image's symbol and string tables sit in this process's memory.
pub struct TablePlacement {
    pub symbols: u64,
    pub strings: u64,
}

/// A range of `length` bytes from file offset `offset` lies inside the
/// __LINKEDIT segment's file range (whose end saturates at `u64::MAX`).
pub open spec fn within(segment: LoadSegment, offset: u64, length: u64) -> bool {
    &&& offset >= segment.offset
    &&& offset + length <= u64::MAX
    &&& offset + length <= segment.offset + segment.file_length
}

/// The address the segment's file offset zero maps to once the image slid by
/// `slide`, or nothing when it would fall below zero.
pub open spec fn spec_link_base(segment: LoadSegment, slide: i64) -> Option<u64> {
    let slid = segment.address.wrapping_add_signed(slide);
    if slid < segment.offset {
        None
    } else {
        Some((slid - segment.offset) as u64)
    }
}

pub open spec fn spec_table_placement(layout: ImageLayout, slide: i64) -> Option<TablePlacement> {
    let segment = layout.linkedit;
    let table = layout.symtab;
    match spec_link_base(segment, slide) {
        None => None,
        Some(base) => if !within(segment, table.offset as u64, (table.count * SYMBOL_BYTES) as u64)
            || !within(segment, table.strings as u64, table.string_bytes as u64) {
            None
        } else if base + table.offset > u64::MAX || base + table.strings > u64::MAX {
            None
        } else {
            Some(
                TablePlacement {
                    symbols: (base + table.offset) as u64,
                    strings: (base + table.strings) as u64,
                },
            )
        },
    }
}

fn within_segment(segment: &LoadSegment, offset: u64, length: u64) -> (r: bool)
    ensures
        r == within(*segment, offset, length),
{
    if offset < segment.offset {
        return false;
    }
    match offset.checked_add(length) {
        None => false,
        Some(end) => end <= segment.offset.saturating_add(segment.file_length),
    }
}

/// Where the symbol table and the string table of a loaded image lie, given
/// the layout its load commands declare and the slide the loader applied.
/// Tables that reach outside the __LINKEDIT segment give nothing.
pub fn table_placement(layout: &ImageLayout, slide: i64) -> (r: Option<TablePlacement>)
    ensures
        r == spec_table_placement(*layout, slide),
{
    let segment = &layout.linkedit;
    let table = &layout.symtab;
    let slid = segment.address.wrapping_add_signed(slide);
    let base = match slid.checked_sub(segment.offset) {
        Some(base) => base,
        None => return None,
    };
    let symbol_bytes = table.count as u64 * SYMBOL_BYTES;
    if !within_segment(segment, table.offset as u64, symbol_bytes) || !within_segment(
        segment,
        table.strings as u64,
        table.string_bytes as u64,
    ) {
        return None;
    }
    let symbols = match base.checked_add(table.offset as u64) {
        Some(a) => a,
        None => return None,
    };
    let strings = match base.checked_add(table.strings as u64) {
        Some(a) => a,
        None => return None,
    };
    Some(TablePlacement { symbols, strings })
}

/// A symbol-table entry's type byte names a defined, non-debugging symbol:
/// no stab bits, and the type field is a section.
pub open spec fn defined_in_section(kind: u8) -> bool {
    kind & 0xe0u8 == 0 && kind & 0x0eu8 == 0x0eu8
}

/// The entries from index `i` on, searched for the first defined symbol of
/// nonzero value whose name in the string table is `name` (its terminating
/// zero included): its value moved by `slide`. A name offset so large that
/// adding the name's length overflows ends the search with nothing.
pub open spec fn scan(
    symbols: Seq<u8>,
    strings: Seq<u8>,
    count: nat,
    string_bytes: int,
    name: Seq<u8>,
    slide: i64,
    i: nat,
) -> Option<u64>
    decreases count - i,
{
    if i >= count {
        None
    } else {
        let at = SYMBOL_BYTES * i;
        let start = le_u32(symbols, at);
        let kind = symbols[at + 4];
        let value = le_u64(symbols, at + 8) as u64;
        if !defined_in_section(kind) || value == 0 {
            scan(symbols, strings, count, string_bytes, name, slide, i + 1)
        } else if start + name.len() > u64::MAX {
            None
        } else if start + name.len() > string_bytes {
            scan(symbols, strings, count, string_bytes, name, slide, i + 1)
        } else if strings.subrange(start, start + name.len()) == name {
            Some(value.wrapping_add_signed(slide))
        } else {
            scan(symbols, strings, count, string_bytes, name, slide, i + 1)
        }
    }
}

/// Looks `name` (with its terminating zero) up among the local symbols of an
/// image whose symbol table (`symbols`) and string table (`strings`) were read
/// from the placement `table_placement` gave: the symbol's address once the
/// image slid by `slide`, or nothing when no entry matches.
pub fn lookup_symbol(table: &LoadSymtab, symbols: &[u8], strings: &[u8], name: &[u8], slide: i64) -> (r:
    Option<u64>)
    requires
        symbols@.len() == SYMBOL_BYTES * table.count,
        strings@.len() == table.string_bytes,
    ensures
        r == scan(symbols@, strings@, table.count as nat, table.string_bytes as int, name@, slide, 0),
{
    let count = table.count as usize;
    let len = name.len() as u64;
    let n = symbols.len();
    let mut i: usize = 0;
    while i < count
        invariant
            i <= count,
            count == table.count,
            n == symbols@.len(),
            len == name@.len(),
            symbols@.len() == SYMBOL_BYTES * table.count,
            strings@.len() == table.string_bytes,
            scan(symbols@, strings@, table.count as nat, table.string_bytes as int, name@, slide, 0)
                == scan(symbols@, strings@, table.count as nat, table.string_bytes as int, name@, slide, i as nat),
        decreases count - i,
    {
        let at = 16 * i;
        let start = read_u32(symbols, at) as u64;
        let kind = symbols[at + 4];
        let value = read_u64(symbols, at + 8);
        if kind & 0xe0u8 != 0 || kind & 0x0eu8 != 0x0eu8 || value == 0 {
            i = i + 1;
            continue;
        }
        let end = match start.checked_add(len) {
            Some(end) => end,
            None => return None,
        };
        if end > table.string_bytes as u64 {
            i = i + 1;
            continue;
        }
        if same_bytes(strings, start as usize, name) {
            return Some(value.wrapping_add_signed(slide));
        }
        i = i + 1;
    }
    None
}

} // verus!
