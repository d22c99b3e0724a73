//! The nested container: a secondary archive format that an entry's
//! decompressed payload can hold, with named members stored inline.
//!
//! The container is little-endian: a magic tag, a member count, and a table
//! of fixed-size member records; each record carries the member's stored
//! size, its data offset, and the offset of its zero-terminated UTF-16
//! path. Members are not independently compressed in this format family:
//! extracting one slices the container's bytes at its record's offset and
//! size.

use vstd::prelude::*;

use crate::bytes::{le_u16_at, le_u32_at, le_u64_at, read_le_u16, read_le_u32, read_le_u64};
use crate::errors::Bnd4Error;
use crate::utf16::{string_from_utf16, utf16_decodable, utf16_units_of};

verus! {

use vstd::slice::slice_subrange;

/// Size of the container header; member records follow it.
pub const BND4_HEADER: usize = 0x40;

/// Size of one member record.
pub const BND4_RECORD: usize = 0x24;

/// One member of a parsed container.
#[derive(Debug)]
pub struct Bnd4File {
    /// The member's path, decoded.
    pub path: String,
    /// The member's path, as stored: UTF-16 code units.
    pub path_units: Vec<u16>,
    /// Offset of the member's bytes inside the container.
    pub data_offset: u64,
    /// Length of the member's bytes inside the container.
    pub compressed_size: u64,
}

/// A mathematical member record, the view of [`Bnd4File`].
pub struct Bnd4MemberSpec {
    /// The member's path, as stored: UTF-16 code units.
    pub path_units: Seq<u16>,
    /// Offset of the member's bytes inside the container.
    pub data_offset: u64,
    /// Length of the member's bytes inside the container.
    pub compressed_size: u64,
}

impl View for Bnd4File {
    type V = Bnd4MemberSpec;

    open spec fn view(&self) -> Bnd4MemberSpec {
        Bnd4MemberSpec {
            path_units: self.path_units@,
            data_offset: self.data_offset,
            compressed_size: self.compressed_size,
        }
    }
}

impl DeepView for Bnd4File {
    type V = Bnd4MemberSpec;

    open spec fn deep_view(&self) -> Bnd4MemberSpec {
        self@
    }
}

/// The container's member count.
pub open spec fn bnd4_count(s: Seq<u8>) -> u32 {
    le_u32_at(s, 0x0c)
}

/// Whether the bytes carry a well-formed container header: the magic tag in
/// place and the member records within bounds.
pub open spec fn bnd4_header_ok(s: Seq<u8>) -> bool {
    &&& s.len() >= 0x40
    &&& s[0] == 0x42 && s[1] == 0x4e && s[2] == 0x44 && s[3] == 0x34
    &&& 0x40 + 0x24 * (bnd4_count(s) as int) <= s.len()
}

/// The end of the zero-terminated UTF-16 string at `off`: the offset of its
/// terminator, or `None` when none lies within the bytes.
pub open spec fn cstr16_end(s: Seq<u8>, off: int) -> Option<int>
    decreases s.len() - off,
{
    if off < 0 || off + 2 > s.len() {
        None
    } else if le_u16_at(s, off) == 0 {
        Some(off)
    } else {
        cstr16_end(s, off + 2)
    }
}

/// The UTF-16 code units stored between `a` and `e`.
pub open spec fn units_between(s: Seq<u8>, a: int, e: int) -> Seq<u16> {
    Seq::new((((e - a) / 2)) as nat, |i: int| le_u16_at(s, a + 2 * i))
}

/// The member record at index `i`: its stored size, data offset and path,
/// or `None` when its data or path lies outside the container.
pub open spec fn parse_member(s: Seq<u8>, i: int) -> Option<Bnd4MemberSpec> {
    let off = 0x40 + 0x24 * i;
    let csize = le_u64_at(s, off + 4);
    let doff = le_u64_at(s, off + 0xc);
    let name_off = le_u32_at(s, off + 0x18);
    if doff + csize > s.len() {
        None
    } else {
        match cstr16_end(s, name_off as int) {
            Some(e) => Some(
                Bnd4MemberSpec {
                    path_units: units_between(s, name_off as int, e),
                    data_offset: doff,
                    compressed_size: csize,
                },
            ),
            None => None,
        }
    }
}

/// Parse member records `i` to `n`.
pub open spec fn parse_members(s: Seq<u8>, i: int, n: int) -> Option<Seq<Bnd4MemberSpec>>
    decreases n - i,
{
    if i >= n {
        Some(Seq::empty())
    } else {
        match (parse_member(s, i), parse_members(s, i + 1, n)) {
            (Some(m), Some(rest)) => Some(seq![m] + rest),
            _ => None,
        }
    }
}

/// Parse a container into its ordered member records.
pub open spec fn parse_bnd4(s: Seq<u8>) -> Option<Seq<Bnd4MemberSpec>> {
    if !bnd4_header_ok(s) {
        None
    } else {
        parse_members(s, 0, bnd4_count(s) as int)
    }
}

/// Whether every member record of the container carries a decodable path.
pub open spec fn bnd4_paths_decodable(s: Seq<u8>) -> bool {
    forall|i: int|
        0 <= i < bnd4_count(s) as int ==> match #[trigger] parse_member(s, i) {
            Some(m) => utf16_decodable(m.path_units),
            None => true,
        }
}

/// The bytes of one member: the container's bytes at its offset and size.
pub open spec fn member_bytes_spec(s: Seq<u8>, m: Bnd4MemberSpec) -> Seq<u8> {
    s.subrange(m.data_offset as int, m.data_offset + m.compressed_size)
}

/// Find the end of the zero-terminated UTF-16 string at `off`.
fn find_cstr16_end(s: &Vec<u8>, off: usize) -> (r: Option<usize>)
    ensures
        match r {
            Some(e) => cstr16_end(s@, off as int) == Some(e as int),
            None => cstr16_end(s@, off as int) is None,
        },
{
    let n: usize = s.len();
    let mut cur: usize = off;
    loop
        invariant
            n == s@.len(),
            off <= cur,
            cstr16_end(s@, off as int) == cstr16_end(s@, cur as int),
        decreases n - cur,
    {
        if cur > n || n - cur < 2 {
            return None;
        }
        if read_le_u16(s, cur) == 0 {
            return Some(cur);
        }
        cur = cur + 2;
    }
}

/// Read the UTF-16 code units stored between `a` and `e`.
fn read_units(s: &Vec<u8>, a: usize, e: usize) -> (r: Vec<u16>)
    requires
        a <= e,
        e + 2 <= s@.len(),
        (e - a) % 2 == 0,
    ensures
        r@ == units_between(s@, a as int, e as int),
{
    let count: usize = (e - a) / 2;
    let mut out: Vec<u16> = Vec::new();
    let mut i: usize = 0;
    while i < count
        invariant
            count == (e - a) / 2,
            a + 2 * count <= e + 2 <= s@.len(),
            (e - a) % 2 == 0,
            0 <= i <= count,
            out@.len() == i,
            forall|j: int| 0 <= j < i ==> out@[j] == le_u16_at(s@, a + 2 * j),
        decreases count - i,
    {
        out.push(read_le_u16(s, a + 2 * i));
        i = i + 1;
    }
    proof {
        assert(out@ =~= units_between(s@, a as int, e as int));
    }
    out
}

/// Parse a container's member table. Fails on a malformed header, on a
/// member whose data or path lies outside the container, and on a member
/// whose path is not decodable text.
pub fn parse_bnd4_files(data: &Vec<u8>) -> (r: Result<Vec<Bnd4File>, Bnd4Error>)
    ensures
        match r {
            Ok(files) => {
                &&& parse_bnd4(data@) matches Some(ms) && files.deep_view() == ms
                &&& bnd4_paths_decodable(data@)
                &&& forall|i: int|
                    0 <= i < files@.len() ==> utf16_units_of(
                        (#[trigger] files@[i]).path@,
                    ) == files@[i].path_units@
            },
            Err(Bnd4Error::BadHeader) => !bnd4_header_ok(data@),
            Err(Bnd4Error::Truncated) => bnd4_header_ok(data@) && parse_bnd4(data@) is None,
            Err(Bnd4Error::BadMemberPath) => exists|i: int|
                0 <= i < bnd4_count(data@) as int && ((#[trigger] parse_member(data@, i))
                    matches Some(m) && !utf16_decodable(m.path_units)),
        },
{
    let n: usize = data.len();
    if n < BND4_HEADER {
        return Err(Bnd4Error::BadHeader);
    }
    let b0: u8 = data[0];
    let b1: u8 = data[1];
    let b2: u8 = data[2];
    let b3: u8 = data[3];
    if !(b0 == 0x42 && b1 == 0x4e && b2 == 0x44 && b3 == 0x34) {
        return Err(Bnd4Error::BadHeader);
    }
    let count: u32 = read_le_u32(data, 0x0c);
    if count as usize > (n - BND4_HEADER) / BND4_RECORD {
        proof {
            let d: int = n - 0x40;
            assert(0x24 * (count as int) > d) by (nonlinear_arith)
                requires count as int > d / 0x24, d >= 0;
        }
        return Err(Bnd4Error::BadHeader);
    }
    proof {
        let d: int = n - 0x40;
        assert(0x24 * (count as int) <= d) by (nonlinear_arith)
            requires count as int <= d / 0x24, d >= 0;
    }
    let total: usize = count as usize;
    let mut files: Vec<Bnd4File> = Vec::new();
    let mut i: usize = 0;
    while i < total
        invariant
            n == data@.len(),
            total == bnd4_count(data@) as int,
            bnd4_header_ok(data@),
            0 <= i <= total,
            files@.len() == i,
            forall|j: int|
                0 <= j < i ==> parse_member(data@, j) == Some((#[trigger] files@[j])@),
            forall|j: int|
                0 <= j < i ==> utf16_units_of((#[trigger] files@[j]).path@)
                    == files@[j].path_units@,
        decreases total - i,
    {
        proof {
            assert(0x24 * (i as int) + 0x24 <= 0x24 * (total as int)) by (nonlinear_arith)
                requires 0 <= i, i + 1 <= total;
        }
        let off: usize = BND4_HEADER + BND4_RECORD * i;
        let csize: u64 = read_le_u64(data, off + 4);
        let doff: u64 = read_le_u64(data, off + 0xc);
        let name_off: u32 = read_le_u32(data, off + 0x18);
        if !(csize <= n as u64 && doff <= n as u64 - csize) {
            proof {
                assert(parse_member(data@, i as int) is None);
                lemma_members_none(data@, 0, total as int, i as int);
            }
            return Err(Bnd4Error::Truncated);
        }
        let e: usize = match find_cstr16_end(data, name_off as usize) {
            Some(e) => e,
            None => {
                proof {
                    assert(parse_member(data@, i as int) is None);
                    lemma_members_none(data@, 0, total as int, i as int);
                }
                return Err(Bnd4Error::Truncated);
            },
        };
        proof {
            lemma_cstr16_parity(data@, name_off as int, e as int);
        }
        let units: Vec<u16> = read_units(data, name_off as usize, e);
        let path: String = match string_from_utf16(&units) {
            Some(p) => p,
            None => {
                proof {
                    assert(parse_member(data@, i as int) matches Some(m) && !utf16_decodable(
                        m.path_units,
                    ));
                }
                return Err(Bnd4Error::BadMemberPath);
            },
        };
        let file = Bnd4File { path, path_units: units, data_offset: doff, compressed_size: csize };
        proof {
            assert(parse_member(data@, i as int) == Some(file@));
        }
        files.push(file);
        i = i + 1;
    }
    proof {
        assert forall|j: int| 0 <= j < total implies #[trigger] parse_member(data@, j) == Some(
            files.deep_view()[j],
        ) by {
            assert(files.deep_view()[j] == files@[j]@);
        }
        lemma_members_complete(data@, 0, total as int, files.deep_view());
        assert(parse_bnd4(data@) == parse_members(data@, 0, total as int));
        assert forall|j: int| 0 <= j < bnd4_count(data@) as int implies match #[trigger] parse_member(
            data@,
            j,
        ) {
            Some(m) => utf16_decodable(m.path_units),
            None => true,
        } by {
            assert(parse_member(data@, j) == Some(files.deep_view()[j]));
            assert(files.deep_view()[j] == files@[j]@);
            assert(utf16_units_of(files@[j].path@) == files@[j].path_units@);
        }
    }
    Ok(files)
}

/// The terminator of a zero-terminated UTF-16 string lies a whole number of
/// units from its start.
proof fn lemma_cstr16_parity(s: Seq<u8>, off: int, e: int)
    requires
        cstr16_end(s, off) == Some(e),
    ensures
        off <= e,
        e + 2 <= s.len(),
        (e - off) % 2 == 0,
    decreases s.len() - off,
{
    if !(off < 0 || off + 2 > s.len()) && le_u16_at(s, off) != 0 {
        lemma_cstr16_parity(s, off + 2, e);
    }
}

/// Records parsed one by one compose to the whole member table.
proof fn lemma_members_complete(s: Seq<u8>, i: int, n: int, ms: Seq<Bnd4MemberSpec>)
    requires
        0 <= i <= n,
        ms.len() == n - i,
        forall|j: int| i <= j < n ==> #[trigger] parse_member(s, j) == Some(ms[j - i]),
    ensures
        parse_members(s, i, n) == Some(ms),
    decreases n - i,
{
    if i == n {
        assert(ms =~= Seq::<Bnd4MemberSpec>::empty());
    } else {
        assert forall|j: int| i + 1 <= j < n implies #[trigger] parse_member(s, j) == Some(
            ms.drop_first()[j - (i + 1)],
        ) by {
            assert(ms.drop_first()[j - (i + 1)] == ms[j - i]);
        }
        lemma_members_complete(s, i + 1, n, ms.drop_first());
        assert(parse_member(s, i) == Some(ms[0]));
        assert(seq![ms[0]] + ms.drop_first() =~= ms);
    }
}

/// One record outside the container makes the whole member table invalid.
proof fn lemma_members_none(s: Seq<u8>, i: int, n: int, j: int)
    requires
        0 <= i <= j < n,
        parse_member(s, j) is None,
    ensures
        parse_members(s, i, n) is None,
    decreases n - i,
{
    if i < j {
        lemma_members_none(s, i + 1, n, j);
    }
}

/// Whether a path's UTF-16 unit is a directory separator.
pub open spec fn is_sep_unit(u: u16) -> bool {
    u == 0x2f || u == 0x5c
}

/// The final component of a stored path: the longest suffix holding no
/// directory separator.
pub open spec fn final_component(units: Seq<u16>) -> Seq<u16>
    decreases units.len(),
{
    if units.len() == 0 {
        Seq::empty()
    } else if is_sep_unit(units.last()) {
        Seq::empty()
    } else {
        final_component(units.drop_last()).push(units.last())
    }
}

/// The first member whose path's final component equals the requested name
/// (as UTF-16 code units), if any.
pub open spec fn first_match(ms: Seq<Bnd4MemberSpec>, nm: Seq<u16>) -> Option<int>
    decreases ms.len(),
{
    if ms.len() == 0 {
        None
    } else if final_component(ms[0].path_units) == nm {
        Some(0)
    } else {
        match first_match(ms.drop_first(), nm) {
            Some(k) => Some(k + 1),
            None => None,
        }
    }
}

/// The first index at which a match stands determines `first_match`.
proof fn lemma_first_match_at(ms: Seq<Bnd4MemberSpec>, nm: Seq<u16>, i: int)
    requires
        0 <= i <= ms.len(),
        forall|j: int| 0 <= j < i ==> final_component((#[trigger] ms[j]).path_units) != nm,
        i < ms.len() ==> final_component(ms[i].path_units) == nm,
    ensures
        i < ms.len() ==> first_match(ms, nm) == Some(i),
        i == ms.len() ==> first_match(ms, nm) is None,
    decreases ms.len(),
{
    if ms.len() > 0 {
        if i == 0 {
        } else {
            assert(final_component(ms[0].path_units) != nm);
            assert forall|j: int| 0 <= j < i - 1 implies final_component(
                (#[trigger] ms.drop_first()[j]).path_units,
            ) != nm by {
                assert(ms.drop_first()[j] == ms[j + 1]);
            }
            assert(i - 1 < ms.drop_first().len() ==> final_component(
                ms.drop_first()[i - 1].path_units,
            ) == nm);
            lemma_first_match_at(ms.drop_first(), nm, i - 1);
        }
    }
}

/// Each member of a parsed table is its record's parse, at its own index.
pub proof fn lemma_parse_members_props(s: Seq<u8>, i: int, n: int)
    requires
        0 <= i <= n,
    ensures
        parse_members(s, i, n) matches Some(ms) ==> {
            &&& ms.len() == n - i
            &&& forall|k: int| i <= k < n ==> #[trigger] parse_member(s, k) == Some(ms[k - i])
        },
    decreases n - i,
{
    if i < n {
        lemma_parse_members_props(s, i + 1, n);
        match parse_members(s, i, n) {
            Some(ms) => {
                let rest = parse_members(s, i + 1, n);
                assert(ms == seq![parse_member(s, i)->0] + rest->0);
                assert forall|k: int| i <= k < n implies #[trigger] parse_member(s, k) == Some(
                    ms[k - i],
                ) by {
                    if k == i {
                        assert(ms[0] == parse_member(s, i)->0);
                    } else {
                        assert(ms[k - i] == rest->0[k - (i + 1)]);
                    }
                }
            },
            None => {},
        }
    }
}

/// Member lookup is insensitive to where the member stands: when exactly one
/// member's path has the requested final component, lookup picks that member,
/// whatever the order of the container's member table.
pub proof fn lemma_unique_member_any_order(ms: Seq<Bnd4MemberSpec>, nm: Seq<u16>, k: int)
    requires
        0 <= k < ms.len(),
        final_component(ms[k].path_units) == nm,
        forall|j: int|
            0 <= j < ms.len() && j != k ==> final_component((#[trigger] ms[j]).path_units) != nm,
    ensures
        first_match(ms, nm) == Some(k),
{
    lemma_first_match_at(ms, nm, k);
}

/// Compute the final component of a stored path.
fn final_component_units(units: &Vec<u16>) -> (r: Vec<u16>)
    ensures
        r@ == final_component(units@),
{
    let n: usize = units.len();
    let mut start: usize = 0;
    let mut k: usize = 0;
    while k < n
        invariant
            n == units@.len(),
            0 <= start <= k <= n,
            forall|j: int| start <= j < k ==> !is_sep_unit(#[trigger] units@[j]),
            start > 0 ==> is_sep_unit(units@[start - 1]),
        decreases n - k,
    {
        let u: u16 = units[k];
        if u == 0x2f || u == 0x5c {
            start = k + 1;
        }
        k = k + 1;
    }
    let mut out: Vec<u16> = Vec::new();
    let mut i: usize = start;
    while i < n
        invariant
            n == units@.len(),
            start <= i <= n,
            out@.len() == i - start,
            forall|j: int| 0 <= j < i - start ==> out@[j] == units@[start + j],
        decreases n - i,
    {
        out.push(units[i]);
        i = i + 1;
    }
    proof {
        lemma_final_component_suffix(units@, start as int);
        assert(out@ =~= units@.skip(start as int));
    }
    out
}

/// The final component is the suffix after the last separator.
proof fn lemma_final_component_suffix(units: Seq<u16>, start: int)
    requires
        0 <= start <= units.len(),
        forall|j: int| start <= j < units.len() ==> !is_sep_unit(#[trigger] units[j]),
        start > 0 ==> is_sep_unit(units[start - 1]),
    ensures
        final_component(units) == units.skip(start),
    decreases units.len(),
{
    if units.len() == 0 {
        assert(units.skip(start) =~= Seq::<u16>::empty());
    } else if start == units.len() {
        assert(is_sep_unit(units.last()));
        assert(units.skip(start) =~= Seq::<u16>::empty());
    } else {
        assert(!is_sep_unit(units.last()));
        assert forall|j: int| start <= j < units.drop_last().len() implies !is_sep_unit(
            #[trigger] units.drop_last()[j],
        ) by {
            assert(units.drop_last()[j] == units[j]);
        }
        lemma_final_component_suffix(units.drop_last(), start);
        assert(units.drop_last().skip(start).push(units.last()) =~= units.skip(start));
    }
}

/// Find the first member whose path's final component equals the requested
/// name, given as UTF-16 code units.
pub fn find_member(files: &Vec<Bnd4File>, name_units: &Vec<u16>) -> (r: Option<usize>)
    ensures
        match r {
            Some(i) => i < files@.len() && first_match(files.deep_view(), name_units@) == Some(
                i as int,
            ),
            None => first_match(files.deep_view(), name_units@) is None,
        },
{
    let n: usize = files.len();
    let mut i: usize = 0;
    while i < n
        invariant
            n == files@.len(),
            0 <= i <= n,
            files.deep_view().len() == n,
            forall|j: int|
                0 <= j < i ==> final_component((#[trigger] files.deep_view()[j]).path_units)
                    != name_units@,
        decreases n - i,
    {
        let fc: Vec<u16> = final_component_units(&files[i].path_units);
        if units_eq(&fc, name_units) {
            proof {
                lemma_first_match_at(files.deep_view(), name_units@, i as int);
            }
            return Some(i);
        }
        i = i + 1;
    }
    proof {
        lemma_first_match_at(files.deep_view(), name_units@, n as int);
    }
    None
}

/// Whether two unit vectors hold the same units.
fn units_eq(a: &Vec<u16>, b: &Vec<u16>) -> (r: bool)
    ensures
        r == (a@ == b@),
{
    let n: usize = a.len();
    if n != b.len() {
        proof {
            assert(a@ != b@);
        }
        return false;
    }
    let mut i: usize = 0;
    while i < n
        invariant
            n == a@.len() == b@.len(),
            0 <= i <= n,
            forall|j: int| 0 <= j < i ==> a@[j] == b@[j],
        decreases n - i,
    {
        if a[i] != b[i] {
            return false;
        }
        i = i + 1;
    }
    proof {
        assert(a@ =~= b@);
    }
    true
}

/// Slice one member's bytes out of the container.
pub fn member_bytes(data: &Vec<u8>, f: &Bnd4File) -> (r: Vec<u8>)
    requires
        f.data_offset + f.compressed_size <= data@.len(),
    ensures
        r@ == member_bytes_spec(data@, f@),
{
    let n: usize = data.len();
    let doff: usize = f.data_offset as usize;
    let csize: usize = f.compressed_size as usize;
    let s: &[u8] = slice_subrange(data.as_slice(), doff, doff + csize);
    vstd::slice::slice_to_vec(s)
}

} // verus!
