//! Finding the client's frame-delay setting in bytes: masked byte-pattern search, the
//! executable's `.text` section, and the pointers read out of machine code.
use vstd::prelude::*;

verus! {

/// `pat` matches `hay` at position `i`, comparing only the bytes where `mask` is set.
pub open spec fn masked_match(hay: Seq<u8>, pat: Seq<u8>, mask: Seq<bool>, i: int) -> bool {
    &&& 0 <= i
    &&& i + pat.len() <= hay.len()
    &&& forall|j: int| 0 <= j < pat.len() ==> mask[j] ==> #[trigger] hay[i + j] == pat[j]
}

/// At position `i` some byte within the mask's length differs where the mask is set.
pub open spec fn mask_rejects(hay: Seq<u8>, pat: Seq<u8>, mask: Seq<bool>, i: int) -> bool {
    exists|j: int| 0 <= j < mask.len() && j < pat.len() && mask[j] && #[trigger] hay[i + j] != pat[j]
}

/// The inputs on which the search never reads past the end of the mask: the mask covers the
/// pattern, or the pattern is longer than the haystack, or every candidate position is
/// rejected within the mask.
pub open spec fn masked_find_defined(hay: Seq<u8>, pat: Seq<u8>, mask: Seq<bool>) -> bool {
    ||| pat.len() <= mask.len()
    ||| hay.len() < pat.len()
    ||| forall|i: int| 0 <= i <= hay.len() - pat.len() ==> mask_rejects(hay, pat, mask, i)
}

/// The first position where `pat` matches `hay` under `mask`, if any.
pub open spec fn first_masked_match(hay: Seq<u8>, pat: Seq<u8>, mask: Seq<bool>, i: int) -> bool {
    masked_match(hay, pat, mask, i) && forall|k: int| 0 <= k < i ==> !masked_match(hay, pat, mask, k)
}

/// Whether `pat` matches `hay` at `i` under `mask`.
fn masked_match_at(hay: &[u8], pat: &[u8], mask: &[bool], i: usize) -> (r: bool)
    requires
        i + pat@.len() <= hay@.len(),
        pat@.len() <= mask@.len() || mask_rejects(hay@, pat@, mask@, i as int),
    ensures
        r == masked_match(hay@, pat@, mask@, i as int),
{
    let mut j: usize = 0;
    while j < pat.len()
        invariant
            i + pat@.len() <= hay@.len(),
            pat@.len() <= mask@.len() || mask_rejects(hay@, pat@, mask@, i as int),
            j <= pat@.len(),
            forall|k: int| 0 <= k < j ==> mask@[k] ==> #[trigger] hay@[i + k] == pat@[k],
        decreases pat.len() - j,
    {
        if j >= mask.len() {
            proof {
                let w = choose|w: int|
                    0 <= w < mask@.len() && w < pat@.len() && mask@[w] && #[trigger] hay@[i + w]
                        != pat@[w];
                assert(mask@[w] ==> hay@[i + w] == pat@[w]);
            }
        }
        assert(i + j < hay.len());
        if mask[j] && hay[i + j] != pat[j] {
            return false;
        }
        j += 1;
    }
    true
}

/// The first position at which `pat` matches `hay`, where only bytes with `mask` set count.
pub fn masked_find(hay: &[u8], pat: &[u8], mask: &[bool]) -> (r: Option<usize>)
    requires
        masked_find_defined(hay@, pat@, mask@),
    ensures
        match r {
            Some(i) => first_masked_match(hay@, pat@, mask@, i as int),
            None => forall|k: int| !masked_match(hay@, pat@, mask@, k),
        },
{
    if hay.len() < pat.len() {
        return None;
    }
    let last = hay.len() - pat.len();
    let mut i: usize = 0;
    while i <= last
        invariant
            last == hay@.len() - pat@.len(),
            masked_find_defined(hay@, pat@, mask@),
            hay@.len() >= pat@.len(),
            i <= last,
            forall|k: int| 0 <= k < i ==> !masked_match(hay@, pat@, mask@, k),
        decreases last - i,
    {
        if masked_match_at(hay, pat, mask, i) {
            return Some(i);
        }
        if i == last {
            assert forall|k: int| !masked_match(hay@, pat@, mask@, k) by {
                if 0 <= k <= last {
                }
            }
            return None;
        }
        i += 1;
    }
    None
}

/// The prologue that starts the function holding the task-scheduler pointer: `push ebp;
/// mov ebp, esp; sub esp, 0x10; push esi; call rel32; mov esi, eax; lea eax, [ebp-0x10]`.
pub open spec fn primary_pattern() -> Seq<u8> {
    seq![0x55u8, 0x8B, 0xEC, 0x83, 0xEC, 0x10, 0x56, 0xE8, 0, 0, 0, 0, 0x8B, 0xF0, 0x8D, 0x45, 0xF0]
}

/// The bytes of [`primary_pattern`] that must match: all but the call displacement.
pub open spec fn primary_mask() -> Seq<bool> {
    seq![true, true, true, true, true, true, true, true, false, false, false, false, true, true, true, true, true]
}

/// `mov eax, [abs32]; mov ecx, [ebp-0xC]`: the load of the scheduler slot.
pub open spec fn secondary_pattern() -> Seq<u8> {
    seq![0xA1u8, 0, 0, 0, 0, 0x8B, 0x4D, 0xF4]
}

/// The bytes of [`secondary_pattern`] that must match: all but the absolute address.
pub open spec fn secondary_mask() -> Seq<bool> {
    seq![true, false, false, false, false, true, true, true]
}

/// The primary pattern.
pub fn primary() -> (r: [u8; 17])
    ensures
        r@ == primary_pattern(),
{
    let r: [u8; 17] = [0x55, 0x8B, 0xEC, 0x83, 0xEC, 0x10, 0x56, 0xE8, 0, 0, 0, 0, 0x8B, 0xF0, 0x8D, 0x45, 0xF0];
    assert(r@ =~= primary_pattern());
    r
}

/// The primary mask.
pub fn primary_mask_bytes() -> (r: [bool; 17])
    ensures
        r@ == primary_mask(),
{
    let r: [bool; 17] = [true, true, true, true, true, true, true, true, false, false, false, false, true, true, true, true, true];
    assert(r@ =~= primary_mask());
    r
}

/// The secondary pattern.
pub fn secondary() -> (r: [u8; 8])
    ensures
        r@ == secondary_pattern(),
{
    let r: [u8; 8] = [0xA1, 0, 0, 0, 0, 0x8B, 0x4D, 0xF4];
    assert(r@ =~= secondary_pattern());
    r
}

/// The secondary mask.
pub fn secondary_mask_bytes() -> (r: [bool; 8])
    ensures
        r@ == secondary_mask(),
{
    let r: [bool; 8] = [true, false, false, false, false, true, true, true];
    assert(r@ =~= secondary_mask());
    r
}

/// The little-endian 16-bit value at `at`.
pub open spec fn le16(b: Seq<u8>, at: int) -> int {
    b[at] as int + 256 * (b[at + 1] as int)
}

/// The little-endian 32-bit value at `at`.
pub open spec fn le32(b: Seq<u8>, at: int) -> int {
    le16(b, at) + 65536 * le16(b, at + 2)
}

/// `x` reduced to 32 bits, as wrapping `u32` arithmetic gives it.
pub open spec fn wrap32(x: int) -> u32 {
    (x % 0x1_0000_0000) as u32
}

/// The little-endian `u32` at `at`.
pub fn read_le32(b: &[u8], at: usize) -> (r: u32)
    requires
        at + 4 <= b@.len(),
    ensures
        r as int == le32(b@, at as int),
{
    let b0 = b[at] as u32;
    let b1 = b[at + 1] as u32;
    let b2 = b[at + 2] as u32;
    let b3 = b[at + 3] as u32;
    b0 + 256 * b1 + 65536 * b2 + 16777216 * b3
}

/// The little-endian `u16` at `at`, widened.
fn read_le16(b: &[u8], at: usize) -> (r: u32)
    requires
        at + 2 <= b@.len(),
    ensures
        r as int == le16(b@, at as int),
{
    let b0 = b[at] as u32;
    let b1 = b[at + 1] as u32;
    b0 + 256 * b1
}

/// Where the PE header starts (the `e_lfanew` field of the DOS header).
pub open spec fn pe_start(exe: Seq<u8>) -> int {
    le32(exe, 0x3C)
}

/// The DOS header field and the PE header fields that are read are all in the file.
pub open spec fn headers_present(exe: Seq<u8>) -> bool {
    exe.len() >= 0x40 && pe_start(exe) + 22 <= exe.len()
}

/// The number of section headers.
pub open spec fn section_count(exe: Seq<u8>) -> int {
    le16(exe, pe_start(exe) + 6)
}

/// Where section header `k` starts: after the 24-byte file header and the optional header.
pub open spec fn section_header(exe: Seq<u8>, k: int) -> int {
    pe_start(exe) + 24 + le16(exe, pe_start(exe) + 20) + 40 * k
}

/// The 8-byte name of section `k` is in the file.
pub open spec fn section_name_present(exe: Seq<u8>, k: int) -> bool {
    section_header(exe, k) + 8 <= exe.len()
}

/// The name of section `k` starts with `.text`.
pub open spec fn section_is_text(exe: Seq<u8>, k: int) -> bool {
    let h = section_header(exe, k);
    exe.subrange(h, h + 5) == seq![0x2Eu8, 0x74, 0x65, 0x78, 0x74]
}

/// Section `k` is where the walk through the section table stops: every earlier name is
/// present and not `.text`, and this one is missing or is `.text`.
pub open spec fn walk_stops_at(exe: Seq<u8>, k: int) -> bool {
    &&& 0 <= k < section_count(exe)
    &&& forall|j: int| 0 <= j < k ==> section_name_present(exe, j) && !section_is_text(exe, j)
    &&& !section_name_present(exe, k) || section_is_text(exe, k)
}

/// What the search of an executable image for the primary pattern comes to.
#[derive(Clone, Copy, PartialEq, Eq, Debug, Structural)]
pub enum TextScan {
    /// The `.text` section starts at `virtual_address` and the pattern at `offset` within it.
    Found { virtual_address: u32, offset: usize },
    /// A header or section is cut off, there is no `.text` section, or the pattern is absent.
    Missing,
    /// The `.text` section header's name is in the file but its address fields are not.
    Truncated,
}

/// The raw bytes of the `.text` section whose header starts at `h`: from its file offset to its
/// end, cut at the end of the file; `None` where the offset lies past that end.
pub open spec fn section_bytes(exe: Seq<u8>, h: int) -> Option<Seq<u8>> {
    let start = le32(exe, h + 20);
    let size = le32(exe, h + 16);
    let end = if start + size < exe.len() {
        start + size
    } else {
        exe.len() as int
    };
    if start <= end {
        Some(exe.subrange(start, end))
    } else {
        None
    }
}

/// The outcome of searching the `.text` section of `exe` for the primary pattern.
pub open spec fn text_scan(exe: Seq<u8>) -> TextScan {
    if headers_present(exe) && exists|k: int| walk_stops_at(exe, k) {
        let k = choose|k: int| walk_stops_at(exe, k);
        let h = section_header(exe, k);
        if !section_name_present(exe, k) {
            TextScan::Missing
        } else if h + 24 > exe.len() {
            TextScan::Truncated
        } else {
            match section_bytes(exe, h) {
                Some(section) => {
                    if exists|o: int| first_masked_match(section, primary_pattern(), primary_mask(), o) {
                        let o = choose|o: int| first_masked_match(section, primary_pattern(), primary_mask(), o);
                        TextScan::Found { virtual_address: le32(exe, h + 12) as u32, offset: o as usize }
                    } else {
                        TextScan::Missing
                    }
                },
                None => TextScan::Missing,
            }
        }
    } else {
        TextScan::Missing
    }
}

/// The walk stops at one section at most.
pub proof fn lemma_walk_stop_unique(exe: Seq<u8>, k: int, m: int)
    requires
        walk_stops_at(exe, k),
        walk_stops_at(exe, m),
    ensures
        k == m,
{
    if k < m {
        assert(section_name_present(exe, k) && !section_is_text(exe, k));
    }
    if m < k {
        assert(section_name_present(exe, m) && !section_is_text(exe, m));
    }
}

/// The first masked match is unique.
pub proof fn lemma_first_masked_unique(hay: Seq<u8>, pat: Seq<u8>, mask: Seq<bool>, i: int, k: int)
    requires
        first_masked_match(hay, pat, mask, i),
        first_masked_match(hay, pat, mask, k),
    ensures
        i == k,
{
}

/// Whether the section header at `h` names a `.text` section.
fn name_is_text(exe: &[u8], h: usize) -> (r: bool)
    requires
        h + 8 <= exe@.len(),
    ensures
        r == (exe@.subrange(h as int, h + 5) == seq![0x2Eu8, 0x74, 0x65, 0x78, 0x74]),
{
    let r = exe[h] == 0x2E && exe[h + 1] == 0x74 && exe[h + 2] == 0x65 && exe[h + 3] == 0x78 && exe[h + 4] == 0x74;
    proof {
        let t = exe@.subrange(h as int, h + 5);
        if r {
            assert(t =~= seq![0x2Eu8, 0x74, 0x65, 0x78, 0x74]);
        } else {
            if t == seq![0x2Eu8, 0x74, 0x65, 0x78, 0x74] {
                assert(t[0] == exe@[h as int] && t[1] == exe@[h + 1] && t[2] == exe@[h + 2]);
                assert(t[3] == exe@[h + 3] && t[4] == exe@[h + 4]);
            }
        }
    }
    r
}

/// Finds the `.text` section of a PE image and the first place in it where the primary pattern
/// matches.
pub fn scan_text_section(exe: &[u8]) -> (r: TextScan)
    ensures
        r == text_scan(exe@),
{
    let len = exe.len();
    if len < 0x40 {
        return TextScan::Missing;
    }
    let pe = read_le32(exe, 0x3C) as usize;
    if pe >= len || len - pe < 22 {
        return TextScan::Missing;
    }
    let sections = read_le16(exe, pe + 6) as u64;
    let optional = read_le16(exe, pe + 20) as u64;
    assert(headers_present(exe@));
    let table: u64 = pe as u64 + 24 + optional;
    let len64: u64 = len as u64;
    let mut index: u64 = 0;
    while index < sections
        invariant
            len == exe@.len(),
            len64 == len,
            headers_present(exe@),
            sections as int == section_count(exe@),
            table as int == section_header(exe@, 0),
            table <= 0x1_0000_0000 + 65560,
            index <= sections,
            sections <= 65535,
            forall|j: int| 0 <= j < index ==> section_name_present(exe@, j) && !section_is_text(exe@, j),
        decreases sections - index,
    {
        let header64: u64 = table + index * 40;
        assert(header64 as int == section_header(exe@, index as int));
        if header64 >= len64 || len64 - header64 < 8 {
            proof {
                assert(walk_stops_at(exe@, index as int));
                let k = choose|k: int| walk_stops_at(exe@, k);
                lemma_walk_stop_unique(exe@, index as int, k);
            }
            return TextScan::Missing;
        }
        let header = header64 as usize;
        if name_is_text(exe, header) {
            proof {
                assert(walk_stops_at(exe@, index as int));
                let k = choose|k: int| walk_stops_at(exe@, k);
                lemma_walk_stop_unique(exe@, index as int, k);
            }
            if len - header < 24 {
                return TextScan::Truncated;
            }
            let virtual_address = read_le32(exe, header + 12);
            let raw_size = read_le32(exe, header + 16) as u64;
            let raw_pointer = read_le32(exe, header + 20) as u64;
            let end64: u64 = if raw_pointer + raw_size < len64 {
                raw_pointer + raw_size
            } else {
                len64
            };
            if raw_pointer > end64 {
                return TextScan::Missing;
            }
            let raw_pointer = raw_pointer as usize;
            let end = end64 as usize;
            let section = vstd::slice::slice_subrange(exe, raw_pointer, end);
            let pat = primary();
            let mask = primary_mask_bytes();
            match masked_find(section, &pat, &mask) {
                Some(offset) => {
                    proof {
                        assert(section_bytes(exe@, header as int) == Some(section@));
                        assert(first_masked_match(section@, primary_pattern(), primary_mask(), offset as int));
                        let o = choose|o: int| first_masked_match(section@, primary_pattern(), primary_mask(), o);
                        lemma_first_masked_unique(section@, primary_pattern(), primary_mask(), offset as int, o);
                    }
                    return TextScan::Found { virtual_address, offset };
                },
                None => {
                    assert(section_bytes(exe@, header as int) == Some(section@));
                    return TextScan::Missing;
                },
            }
        }
        index += 1;
    }
    proof {
        assert forall|k: int| !walk_stops_at(exe@, k) by {
            if walk_stops_at(exe@, k) {
                assert(section_name_present(exe@, k) && !section_is_text(exe@, k));
            }
        }
    }
    TextScan::Missing
}

/// The relative virtual address of the primary pattern in the client executable: the `.text`
/// section's address plus the pattern's offset within that section.
pub fn primary_rva(exe: &[u8]) -> (r: Option<u32>)
    requires
        text_scan(exe@) != TextScan::Truncated,
        text_scan(exe@) matches TextScan::Found { virtual_address, offset }
            ==> virtual_address + offset <= u32::MAX,
    ensures
        r == match text_scan(exe@) {
            TextScan::Found { virtual_address, offset } => Some((virtual_address + offset) as u32),
            _ => None,
        },
{
    match scan_text_section(exe) {
        TextScan::Found { virtual_address, offset } => Some(virtual_address + offset as u32),
        _ => None,
    }
}

/// Wrapping addition of a 32-bit value agrees with `wrap32`.
pub proof fn lemma_wrapping_add(a: u32, b: u32)
    ensures
        vstd::wrapping::u32_specs::wrapping_add(a, b) == wrap32(a + b),
{
}

/// Reducing an intermediate sum does not change the reduced total.
pub proof fn lemma_wrap32_add(x: int, y: int)
    requires
        x >= 0,
        y >= 0,
    ensures
        wrap32(wrap32(x) + y) == wrap32(x + y),
{
    assert((wrap32(x) as int) == x % 0x1_0000_0000);
    assert(((x % 0x1_0000_0000) + y) % 0x1_0000_0000 == (x + y) % 0x1_0000_0000) by (nonlinear_arith)
        requires
            x >= 0,
            y >= 0,
    ;
}

/// Where the call at the start of the primary function goes: the pattern must sit at the very
/// start of `head`, and the target is the address after the 12-byte prologue plus the signed
/// displacement, in 32-bit wrapping arithmetic.
pub fn call_target(primary_address: u32, head: &[u8]) -> (r: Option<u32>)
    ensures
        r == if masked_match(head@, primary_pattern(), primary_mask(), 0) {
            Some(wrap32(primary_address + 12 + le32(head@, 8)))
        } else {
            None
        },
{
    let pat = primary();
    let mask = primary_mask_bytes();
    match masked_find(head, &pat, &mask) {
        Some(at) => {
            if at != 0 {
                assert(!masked_match(head@, primary_pattern(), primary_mask(), 0));
                return None;
            }
            let displacement = read_le32(head, 8);
            let after = primary_address.wrapping_add(12);
            let target = after.wrapping_add(displacement);
            proof {
                lemma_wrapping_add(primary_address, 12);
                lemma_wrapping_add(after, displacement);
                lemma_wrap32_add(primary_address + 12, displacement as int);
            }
            Some(target)
        },
        None => None,
    }
}

/// The scheduler slot named by the first `mov eax, [abs32]` of the pattern in `body`.
pub fn slot_in_body(body: &[u8]) -> (r: Option<u32>)
    ensures
        r == if exists|o: int| first_masked_match(body@, secondary_pattern(), secondary_mask(), o) {
            let o = choose|o: int| first_masked_match(body@, secondary_pattern(), secondary_mask(), o);
            Some(le32(body@, o + 1) as u32)
        } else {
            None
        },
{
    let pat = secondary();
    let mask = secondary_mask_bytes();
    match masked_find(body, &pat, &mask) {
        Some(offset) => {
            proof {
                let o = choose|o: int| first_masked_match(body@, secondary_pattern(), secondary_mask(), o);
                lemma_first_masked_unique(body@, secondary_pattern(), secondary_mask(), offset as int, o);
            }
            assert(secondary_pattern().len() == 8);
            assert(offset + 8 <= body@.len());
            assert(body@.len() == body.len());
            Some(read_le32(body, offset + 1))
        },
        None => None,
    }
}

/// The default frame delay, 1/60 s, as the little-endian bytes of an `f64`.
pub open spec fn default_delay() -> Seq<u8> {
    seq![0x11u8, 0x11, 0x11, 0x11, 0x11, 0x11, 0x91, 0x3F]
}

/// The bytes of the default frame delay.
pub fn default_delay_bytes() -> (r: [u8; 8])
    ensures
        r@ == default_delay(),
{
    let r: [u8; 8] = [0x11, 0x11, 0x11, 0x11, 0x11, 0x11, 0x91, 0x3F];
    assert(r@ =~= default_delay());
    r
}

/// The default frame delay is stored at offset `o` of `data`, on a 4-byte boundary.
pub open spec fn delay_at(data: Seq<u8>, o: int) -> bool {
    &&& 0 <= o
    &&& o % 4 == 0
    &&& o + 8 <= data.len()
    &&& data.subrange(o, o + 8) == default_delay()
}

/// `o` is the only offset of `data` that holds the default frame delay.
pub open spec fn only_delay_at(data: Seq<u8>, o: int) -> bool {
    delay_at(data, o) && forall|p: int| p != o ==> !delay_at(data, p)
}

/// Whether the default delay sits at offset `o`.
fn delay_at_exec(data: &[u8], o: usize) -> (r: bool)
    requires
        o + 8 <= data@.len(),
        o % 4 == 0,
    ensures
        r == delay_at(data@, o as int),
{
    let want = default_delay_bytes();
    let mut j: usize = 0;
    while j < 8
        invariant
            o + 8 <= data@.len(),
            want@ == default_delay(),
            j <= 8,
            forall|k: int| 0 <= k < j ==> data@[o + k] == want@[k],
        decreases 8 - j,
    {
        assert(o + j < data.len());
        if data[o + j] != want[j] {
            assert(data@.subrange(o as int, o + 8)[j as int] != default_delay()[j as int]);
            return false;
        }
        j += 1;
    }
    assert(data@.subrange(o as int, o + 8) =~= default_delay());
    true
}

/// The address of the frame delay in a block read from `search`: the one 4-byte-aligned place
/// that holds the default delay; `None` when there is no such place or more than one.
pub fn frame_delay_in(search: u32, data: &[u8]) -> (r: Option<u32>)
    ensures
        match r {
            Some(address) => exists|o: int| only_delay_at(data@, o) && address == wrap32(search + o),
            None => forall|o: int| !only_delay_at(data@, o),
        },
{
    let mut offset: usize = 0;
    let mut address: u32 = search;
    let mut found: u32 = 0;
    let ghost mut found_at: int = 0;
    let mut hits: u8 = 0;
    while offset <= data.len() && data.len() - offset >= 8
        invariant
            offset % 4 == 0,
            offset <= data@.len() + 8,
            address == wrap32(search + offset),
            hits <= 2,
            hits == 0 ==> forall|p: int| p < offset ==> !delay_at(data@, p),
            hits == 1 ==> delay_at(data@, found_at) && found_at < offset && found == wrap32(search + found_at)
                && forall|p: int| p < offset && p != found_at ==> !delay_at(data@, p),
            hits == 2 ==> exists|p: int, q: int| p != q && delay_at(data@, p) && delay_at(data@, q),
        decreases data@.len() + 8 - offset,
    {
        let here = delay_at_exec(data, offset);
        proof {
            assert forall|p: int| offset < p < offset + 4 implies !delay_at(data@, p) by {
            }
        }
        if here {
            if hits == 0 {
                found = address;
                proof {
                    found_at = offset as int;
                }
                hits = 1;
            } else if hits == 1 {
                assert(found_at != offset);
                hits = 2;
            }
        }
        let next = address.wrapping_add(4);
        proof {
            lemma_wrapping_add(address, 4);
            lemma_wrap32_add(search + offset, 4);
        }
        address = next;
        offset = offset + 4;
    }
    proof {
        assert forall|p: int| p >= offset implies !delay_at(data@, p) by {
        }
    }
    if hits == 1 {
        assert(only_delay_at(data@, found_at));
        Some(found)
    } else {
        if hits == 2 {
            let ghost (p, q) = choose|p: int, q: int| p != q && delay_at(data@, p) && delay_at(data@, q);
            assert forall|o: int| !only_delay_at(data@, o) by {
                if only_delay_at(data@, o) {
                    assert(p == o && q == o);
                }
            }
        }
        None
    }
}

} // verus!
