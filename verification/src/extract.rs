//! The bulk-extraction pipeline's per-candidate decisions.
//!
//! Extraction walks a dictionary, opens every candidate that resolves, and
//! mirrors it into an output tree. A lookup miss is not an error here: the
//! dictionary is a cross-version superset, and a miss just means "absent in
//! this installation" — the candidate is skipped silently. Any other failure
//! aborts the whole extraction. When recursion is requested, a candidate
//! whose name follows the nested-archive convention is fully decompressed,
//! parsed as a container, and every member is written directly, named by its
//! final path component, into a directory named after the archive with its
//! two trailing format suffixes stripped.
//!
//! This module decides what to write; performing the writes, and driving
//! many candidates in parallel, is the caller's part. Candidates are
//! independent: the decisions share only the frozen entry table and the
//! read-only mappings.

use vstd::prelude::*;

use crate::bnd4::{member_bytes, member_bytes_spec, parse_bnd4, parse_bnd4_files, Bnd4File};
use crate::dcx::{dcx_plain, read_dcx, DcxCompression};
use crate::errors::{DvdBndEntryError, ReadFileError};
use crate::name::name_hash_of;
use crate::strings::{contains_seq, contains_substring};
use crate::utf16::{string_from_utf16, utf16_units_of};
use crate::vfs::DvdBnd;

verus! {

use vstd::string::StrSliceExecFns;
use vstd::string::StringSliceAdditionalSpecFns;

/// What one extraction candidate becomes.
#[derive(Debug)]
pub enum ExtractOutcome {
    /// The candidate does not resolve in this installation: skipped
    /// silently, writing nothing.
    Skipped,
    /// One file, to be written at its mirrored relative path.
    Single {
        /// The candidate's virtual path with its leading separator dropped.
        relative_path: String,
        /// The bytes to write.
        bytes: Vec<u8>,
    },
    /// An unwrapped nested archive: each member is written, named by its
    /// final path component, into the archive's own directory.
    Archive {
        /// The mirrored path with its two trailing format suffixes dropped.
        directory: String,
        /// Each member's file name and bytes.
        members: Vec<(String, Vec<u8>)>,
    },
}

impl ExtractOutcome {
    /// How many files this outcome writes.
    pub open spec fn spec_file_count(&self) -> nat {
        match self {
            ExtractOutcome::Skipped => 0,
            ExtractOutcome::Single { .. } => 1,
            ExtractOutcome::Archive { members, .. } => members@.len(),
        }
    }

    /// How many files this outcome writes.
    pub fn file_count(&self) -> (r: usize)
        ensures
            r == self.spec_file_count(),
    {
        match self {
            ExtractOutcome::Skipped => 0,
            ExtractOutcome::Single { .. } => 1,
            ExtractOutcome::Archive { members, .. } => members.len(),
        }
    }
}

/// Whether the text ends with the given suffix.
pub open spec fn ends_with_chars(s: Seq<char>, suffix: Seq<char>) -> bool {
    s.len() >= suffix.len() && s.skip(s.len() - suffix.len()) == suffix
}

/// The path with one leading separator dropped.
pub open spec fn strip_leading_slash(p: Seq<char>) -> Seq<char> {
    if p.len() > 0 && p[0] == '/' {
        p.drop_first()
    } else {
        p
    }
}

/// The position of the last dot of the path's final component, when that
/// dot marks an extension.
pub open spec fn last_dot_in_component(p: Seq<char>) -> Option<int>
    decreases p.len(),
{
    if p.len() == 0 {
        None
    } else if p.last() == '/' || p.last() == '\\' {
        None
    } else if p.last() == '.' {
        if p.len() == 1 || p[p.len() - 2] == '/' || p[p.len() - 2] == '\\' {
            None
        } else {
            Some(p.len() - 1)
        }
    } else {
        last_dot_in_component(p.drop_last())
    }
}

/// The path with its trailing extension dropped, when it has one.
pub open spec fn cut_extension(p: Seq<char>) -> Seq<char> {
    match last_dot_in_component(p) {
        Some(j) => p.take(j),
        None => p,
    }
}

/// The units of a stored member path after its last backslash: the name the
/// member is written under.
pub open spec fn after_last_backslash(units: Seq<u16>) -> Seq<u16>
    decreases units.len(),
{
    if units.len() == 0 {
        Seq::empty()
    } else if units.last() == 0x5c {
        Seq::empty()
    } else {
        after_last_backslash(units.drop_last()).push(units.last())
    }
}

/// Whether the bytes start with a compression envelope's magic tag.
pub open spec fn dcx_sniff(b: Seq<u8>) -> bool {
    b.len() >= 4 && b[0] == 0x44 && b[1] == 0x43 && b[2] == 0x58 && b[3] == 0x00
}

/// Whether `s` ends with `suffix`.
pub fn ends_with_str(s: &str, suffix: &str) -> (r: bool)
    ensures
        r == ends_with_chars(s@, suffix@),
{
    let n: usize = s.unicode_len();
    let m: usize = suffix.unicode_len();
    if m > n {
        return false;
    }
    let mut j: usize = 0;
    while j < m
        invariant
            n == s@.len(),
            m == suffix@.len(),
            m <= n,
            0 <= j <= m,
            forall|k: int| 0 <= k < j ==> s@[n - m + k] == suffix@[k],
        decreases m - j,
    {
        let sc: char = s.get_char(n - m + j);
        let fc: char = suffix.get_char(j);
        if sc != fc {
            proof {
                assert(s@.skip(n - m)[j as int] != suffix@[j as int]);
            }
            return false;
        }
        j = j + 1;
    }
    proof {
        assert(s@.skip(n - m) =~= suffix@);
    }
    true
}

impl DvdBnd {
    /// Whether an extraction outcome is the right one for a candidate path:
    /// a miss is skipped; a nested archive (under recursion) is unwrapped
    /// member by member; anything else is one mirrored file, decompressed
    /// when it carries a compression envelope.
    pub open spec fn candidate_outcome_ok(
        &self,
        path: Seq<char>,
        recursive: bool,
        o: ExtractOutcome,
    ) -> bool {
        let h = name_hash_of(vstd::utf8::encode_utf8(path));
        match o {
            ExtractOutcome::Skipped => !self.table().contains_key(h),
            ExtractOutcome::Single { relative_path, bytes } => {
                &&& !(recursive && ends_with_chars(path, "bnd.dcx"@))
                &&& self.open_ok_bytes(h) matches Some(b) && {
                    &&& relative_path@ == strip_leading_slash(path)
                    &&& if dcx_sniff(b) {
                        dcx_plain(b) == Some(bytes@)
                    } else {
                        bytes@ == b
                    }
                }
            },
            ExtractOutcome::Archive { directory, members } => {
                &&& recursive && ends_with_chars(path, "bnd.dcx"@)
                &&& self.open_ok_bytes(h) matches Some(b) && dcx_plain(b) matches Some(plain)
                    && parse_bnd4(plain) matches Some(ms) && {
                    &&& directory@ == cut_extension(cut_extension(strip_leading_slash(path)))
                    &&& members@.len() == ms.len()
                    &&& forall|i: int|
                        0 <= i < ms.len() ==> utf16_units_of((#[trigger] members@[i]).0@)
                            == after_last_backslash(ms[i].path_units)
                    &&& forall|i: int|
                        0 <= i < ms.len() ==> (#[trigger] members@[i]).1@ == member_bytes_spec(
                            plain,
                            ms[i],
                        )
                }
            },
        }
    }

    /// Whether an extraction error is a right one for a candidate path; a
    /// lookup miss is never among them.
    pub open spec fn candidate_error_ok(
        &self,
        path: Seq<char>,
        recursive: bool,
        e: ReadFileError,
    ) -> bool {
        let h = name_hash_of(vstd::utf8::encode_utf8(path));
        match e {
            ReadFileError::Entry(ee) => ee != DvdBndEntryError::NotFound && self.open_result_is(
                h,
                Err(ee),
            ),
            ReadFileError::Envelope(_) => self.open_ok_bytes(h) matches Some(b) && dcx_plain(
                b,
            ) is None,
            ReadFileError::Container(_) => {
                &&& recursive && ends_with_chars(path, "bnd.dcx"@)
                &&& self.open_ok_bytes(h) matches Some(b) && dcx_plain(b) matches Some(plain) && (
                parse_bnd4(plain) is None || !crate::bnd4::bnd4_paths_decodable(plain)
                    || exists|i: int|
                    0 <= i < crate::bnd4::bnd4_count(plain) as int && ((
                    #[trigger] crate::bnd4::parse_member(plain, i)) matches Some(m)
                        && !crate::utf16::utf16_decodable(after_last_backslash(m.path_units))))
            },
            ReadFileError::MemberNotFound => false,
        }
    }

    /// Decide what one extraction candidate becomes. A lookup miss yields
    /// `Skipped`, never an error; every other failure is surfaced and, at
    /// the pipeline level, aborts the extraction.
    pub fn extract_candidate(&self, path: &str, recursive: bool) -> (r: Result<
        ExtractOutcome,
        ReadFileError,
    >)
        ensures
            match r {
                Ok(o) => self.candidate_outcome_ok(path@, recursive, o),
                Err(e) => self.candidate_error_ok(path@, recursive, e),
            },
    {
        let reader = match self.open(path) {
            Ok(rd) => rd,
            Err(DvdBndEntryError::NotFound) => {
                return Ok(ExtractOutcome::Skipped);
            },
            Err(e) => {
                return Err(ReadFileError::Entry(e));
            },
        };
        let opened: Vec<u8> = reader.to_vec();
        proof {
            assert(self.open_ok_bytes(name_hash_of(path.spec_bytes())) == Some(opened@));
        }
        let is_archive: bool = recursive && ends_with_str(path, "bnd.dcx");
        if is_archive {
            let (_, plain): (DcxCompression, Vec<u8>) = match read_dcx(&opened) {
                Ok(p) => p,
                Err(e) => {
                    return Err(ReadFileError::Envelope(e));
                },
            };
            let files: Vec<Bnd4File> = match parse_bnd4_files(&plain) {
                Ok(fs) => fs,
                Err(e) => {
                    proof {
                        match e {
                            crate::errors::Bnd4Error::BadHeader => {
                                assert(parse_bnd4(plain@) is None);
                            },
                            crate::errors::Bnd4Error::Truncated => {
                                assert(parse_bnd4(plain@) is None);
                            },
                            crate::errors::Bnd4Error::BadMemberPath => {
                                assert(!crate::bnd4::bnd4_paths_decodable(plain@));
                            },
                        }
                    }
                    return Err(ReadFileError::Container(e));
                },
            };
            let mut members: Vec<(String, Vec<u8>)> = Vec::new();
            let nfiles: usize = files.len();
            let mut i: usize = 0;
            while i < nfiles
                invariant
                    recursive,
                    ends_with_chars(path@, "bnd.dcx"@),
                    self.open_ok_bytes(name_hash_of(path.spec_bytes())) == Some(opened@),
                    dcx_plain(opened@) == Some(plain@),
                    nfiles == files@.len(),
                    0 <= i <= nfiles,
                    parse_bnd4(plain@) == Some(files.deep_view()),
                    members@.len() == i,
                    forall|j: int|
                        0 <= j < i ==> utf16_units_of((#[trigger] members@[j]).0@)
                            == after_last_backslash(files.deep_view()[j].path_units),
                    forall|j: int|
                        0 <= j < i ==> (#[trigger] members@[j]).1@ == member_bytes_spec(
                            plain@,
                            files.deep_view()[j],
                        ),
                decreases nfiles - i,
            {
                let f: &Bnd4File = &files[i];
                proof {
                    assert(files.deep_view()[i as int] == files@[i as int]@);
                    crate::bnd4::lemma_parse_members_props(
                        plain@,
                        0,
                        crate::bnd4::bnd4_count(plain@) as int,
                    );
                    assert(crate::bnd4::parse_member(plain@, i as int) == Some(f@));
                }
                let name_units: Vec<u16> = backslash_suffix_units(&f.path_units);
                let member_name: String = match string_from_utf16(&name_units) {
                    Some(nm) => nm,
                    None => {
                        proof {
                            assert(crate::bnd4::parse_member(plain@, i as int) matches Some(m)
                                && !crate::utf16::utf16_decodable(
                                after_last_backslash(m.path_units),
                            ));
                        }
                        return Err(ReadFileError::Container(
                            crate::errors::Bnd4Error::BadMemberPath,
                        ));
                    },
                };
                let bytes: Vec<u8> = member_bytes(&plain, f);
                members.push((member_name, bytes));
                i = i + 1;
            }
            let directory: String = {
                let stripped: String = strip_leading_slash_str(path);
                let once: String = cut_extension_str(stripped.as_str());
                cut_extension_str(once.as_str())
            };
            Ok(ExtractOutcome::Archive { directory, members })
        } else {
            let relative_path: String = strip_leading_slash_str(path);
            let sniff: bool = {
                let blen: usize = opened.len();
                if blen >= 4 {
                    let b0: u8 = opened[0];
                    let b1: u8 = opened[1];
                    let b2: u8 = opened[2];
                    let b3: u8 = opened[3];
                    b0 == 0x44 && b1 == 0x43 && b2 == 0x58 && b3 == 0x00
                } else {
                    false
                }
            };
            if sniff {
                let (_, plain): (DcxCompression, Vec<u8>) = match read_dcx(&opened) {
                    Ok(p) => p,
                    Err(e) => {
                        return Err(ReadFileError::Envelope(e));
                    },
                };
                Ok(ExtractOutcome::Single { relative_path, bytes: plain })
            } else {
                Ok(ExtractOutcome::Single { relative_path, bytes: opened })
            }
        }
    }

    /// Decide every candidate of a dictionary, in order, applying the
    /// optional substring filter first. Misses are skipped silently; the
    /// first failure other than a miss aborts the whole run, so a miss is
    /// never surfaced as an error.
    pub fn extract_entries(
        &self,
        candidates: &Vec<String>,
        filter: Option<&String>,
        recursive: bool,
    ) -> (r: Result<Vec<ExtractOutcome>, ReadFileError>)
        ensures
            ({
                let kept = filtered_candidates(candidates.deep_view(), spec_filter_of(filter));
                match r {
                    Ok(outs) => {
                        &&& outs@.len() == kept.len()
                        &&& forall|i: int|
                            0 <= i < kept.len() ==> self.candidate_outcome_ok(
                                kept[i],
                                recursive,
                                #[trigger] outs@[i],
                            )
                    },
                    Err(e) => {
                        &&& !(e == ReadFileError::Entry(DvdBndEntryError::NotFound))
                        &&& exists|i: int|
                            0 <= i < kept.len() && self.candidate_error_ok(
                                #[trigger] kept[i],
                                recursive,
                                e,
                            )
                    },
                }
            }),
    {
        let n: usize = candidates.len();
        let mut outs: Vec<ExtractOutcome> = Vec::new();
        let mut i: usize = 0;
        let ghost kept = filtered_candidates(candidates.deep_view(), spec_filter_of(filter));
        proof {
            reveal(Seq::filter);
            assert(candidates.deep_view().take(0) =~= Seq::<Seq<char>>::empty());
            assert(filtered_candidates(
                candidates.deep_view().take(0),
                spec_filter_of(filter),
            ) =~= Seq::<Seq<char>>::empty());
        }
        while i < n
            invariant
                n == candidates@.len(),
                candidates.deep_view().len() == n,
                0 <= i <= n,
                kept == filtered_candidates(candidates.deep_view(), spec_filter_of(filter)),
                outs@.len() == filtered_candidates(
                    candidates.deep_view().take(i as int),
                    spec_filter_of(filter),
                ).len(),
                forall|j: int|
                    0 <= j < outs@.len() ==> self.candidate_outcome_ok(
                        filtered_candidates(
                            candidates.deep_view().take(i as int),
                            spec_filter_of(filter),
                        )[j],
                        recursive,
                        #[trigger] outs@[j],
                    ),
            decreases n - i,
        {
            let cand: &String = &candidates[i];
            let keep: bool = match filter {
                Some(f) => contains_substring(cand.as_str(), f.as_str()),
                None => true,
            };
            let ghost taken = candidates.deep_view().take(i as int);
            let ghost prev_kept = filtered_candidates(taken, spec_filter_of(filter));
            if keep {
                let o: ExtractOutcome = match self.extract_candidate(cand.as_str(), recursive) {
                    Ok(o) => o,
                    Err(e) => {
                        proof {
                            let all = candidates.deep_view();
                            lemma_filtered_concat(
                                all.take(i as int),
                                all.skip(i as int),
                                spec_filter_of(filter),
                            );
                            assert(all.take(i as int) + all.skip(i as int) =~= all);
                            assert(all.skip(i as int)[0] == all[i as int]);
                            assert(all.skip(i as int).drop_first() =~= all.skip(i + 1));
                            lemma_filtered_head(all.skip(i as int), spec_filter_of(filter));
                            assert(kept[prev_kept.len() as int] == all[i as int]);
                            assert(self.candidate_error_ok(
                                kept[prev_kept.len() as int],
                                recursive,
                                e,
                            ));
                        }
                        return Err(e);
                    },
                };
                outs.push(o);
            }
            proof {
                reveal(Seq::filter);
                let taken1 = candidates.deep_view().take(i + 1);
                assert(taken1.drop_last() =~= taken);
                assert(taken1.last() == candidates.deep_view()[i as int]);
                assert(candidates.deep_view()[i as int] == candidates@[i as int]@);
                if keep_candidate(candidates.deep_view()[i as int], spec_filter_of(filter)) {
                    assert(filtered_candidates(taken1, spec_filter_of(filter)) =~= prev_kept.push(
                        candidates.deep_view()[i as int],
                    ));
                } else {
                    assert(filtered_candidates(taken1, spec_filter_of(filter)) =~= prev_kept);
                }
            }
            i = i + 1;
        }
        proof {
            assert(candidates.deep_view().take(n as int) =~= candidates.deep_view());
        }
        Ok(outs)
    }
}

/// Filtering distributes over splitting the candidate list.
proof fn lemma_filtered_concat(a: Seq<Seq<char>>, b: Seq<Seq<char>>, filter: Option<Seq<char>>)
    ensures
        filtered_candidates(a + b, filter) == filtered_candidates(a, filter)
            + filtered_candidates(b, filter),
    decreases b.len(),
{
    reveal(Seq::filter);
    if b.len() == 0 {
        assert(a + b =~= a);
        assert(filtered_candidates(b, filter) =~= Seq::<Seq<char>>::empty());
        assert(filtered_candidates(a + b, filter) =~= filtered_candidates(a, filter)
            + filtered_candidates(b, filter));
    } else {
        lemma_filtered_concat(a, b.drop_last(), filter);
        assert((a + b).drop_last() =~= a + b.drop_last());
        assert((a + b).last() == b.last());
        assert(filtered_candidates(a + b, filter) =~= filtered_candidates(a, filter)
            + filtered_candidates(b, filter));
    }
}

/// A kept head of the candidate list heads its filtered list.
proof fn lemma_filtered_head(b: Seq<Seq<char>>, filter: Option<Seq<char>>)
    requires
        b.len() > 0,
        keep_candidate(b[0], filter),
    ensures
        filtered_candidates(b, filter).len() > 0,
        filtered_candidates(b, filter)[0] == b[0],
{
    assert(b =~= seq![b[0]] + b.drop_first());
    lemma_filtered_concat(seq![b[0]], b.drop_first(), filter);
    reveal(Seq::filter);
    assert(seq![b[0]].drop_last() =~= Seq::<Seq<char>>::empty());
    assert(filtered_candidates(seq![b[0]], filter) =~= seq![b[0]]);
}

/// The filter's text, when one is given.
pub open spec fn spec_filter_of(filter: Option<&String>) -> Option<Seq<char>> {
    match filter {
        Some(f) => Some(f@),
        None => None,
    }
}

/// Whether a candidate passes the optional substring filter.
pub open spec fn keep_candidate(c: Seq<char>, filter: Option<Seq<char>>) -> bool {
    match filter {
        Some(f) => contains_seq(c, f),
        None => true,
    }
}

/// The candidates that pass the optional substring filter, in order.
pub open spec fn filtered_candidates(cands: Seq<Seq<char>>, filter: Option<Seq<char>>) -> Seq<
    Seq<char>,
> {
    cands.filter(|c: Seq<char>| keep_candidate(c, filter))
}

/// The path with one leading separator dropped.
fn strip_leading_slash_str(p: &str) -> (r: String)
    ensures
        r@ == strip_leading_slash(p@),
{
    let n: usize = p.unicode_len();
    if n > 0 {
        let c0: char = p.get_char(0);
        if c0 == '/' {
            let rest: &str = p.substring_char(1, n);
            proof {
                assert(rest@ =~= p@.drop_first());
            }
            return rest.to_owned();
        }
    }
    p.to_owned()
}

/// The path with its trailing extension dropped, when it has one.
fn cut_extension_str(p: &str) -> (r: String)
    ensures
        r@ == cut_extension(p@),
{
    let n: usize = p.unicode_len();
    let mut k: usize = n;
    proof {
        assert(p@.take(n as int) =~= p@);
    }
    loop
        invariant
            n == p@.len(),
            0 <= k <= n,
            last_dot_in_component(p@) == last_dot_in_component(p@.take(k as int)),
        decreases k,
    {
        if k == 0 {
            proof {
                assert(p@.take(0) =~= Seq::<char>::empty());
            }
            return p.to_owned();
        }
        let c: char = p.get_char(k - 1);
        proof {
            assert(p@.take(k as int).last() == p@[k - 1]);
            assert(p@.take(k as int).drop_last() =~= p@.take(k - 1));
        }
        if c == '/' || c == '\\' {
            return p.to_owned();
        }
        if c == '.' {
            if k == 1 {
                return p.to_owned();
            }
            let prev: char = p.get_char(k - 2);
            proof {
                assert(p@.take(k as int)[k - 2] == p@[k - 2]);
            }
            if prev == '/' || prev == '\\' {
                return p.to_owned();
            }
            let cut: &str = p.substring_char(0, k - 1);
            proof {
                assert(last_dot_in_component(p@) == Some(k - 1));
                assert(cut@ =~= p@.take(k - 1));
            }
            return cut.to_owned();
        }
        k = k - 1;
    }
}

/// The units of a stored member path after its last backslash.
fn backslash_suffix_units(units: &Vec<u16>) -> (r: Vec<u16>)
    ensures
        r@ == after_last_backslash(units@),
{
    let n: usize = units.len();
    let mut start: usize = 0;
    let mut k: usize = 0;
    while k < n
        invariant
            n == units@.len(),
            0 <= start <= k <= n,
            forall|j: int| start <= j < k ==> units@[j] != 0x5c,
            start > 0 ==> units@[start - 1] == 0x5c,
        decreases n - k,
    {
        if units[k] == 0x5c {
            start = k + 1;
        }
        k = k + 1;
    }
    let mut out: Vec<u16> = Vec::new();
    let mut i: usize = start;
    while i < n
        invariant
            n == units@.len(),
            start <= i <= n,
            out@.len() == i - start,
            forall|j: int| 0 <= j < i - start ==> out@[j] == units@[start + j],
        decreases n - i,
    {
        out.push(units[i]);
        i = i + 1;
    }
    proof {
        lemma_backslash_suffix(units@, start as int);
        assert(out@ =~= units@.skip(start as int));
    }
    out
}

/// The name suffix is what stands after the last backslash.
proof fn lemma_backslash_suffix(units: Seq<u16>, start: int)
    requires
        0 <= start <= units.len(),
        forall|j: int| start <= j < units.len() ==> units[j] != 0x5c,
        start > 0 ==> units[start - 1] == 0x5c,
    ensures
        after_last_backslash(units) == units.skip(start),
    decreases units.len(),
{
    if units.len() == 0 {
        assert(units.skip(start) =~= Seq::<u16>::empty());
    } else if start == units.len() {
        assert(units.last() == 0x5c);
        assert(units.skip(start) =~= Seq::<u16>::empty());
    } else {
        assert(units.last() != 0x5c);
        assert forall|j: int| start <= j < units.drop_last().len() implies units.drop_last()[j]
            != 0x5c by {
            assert(units.drop_last()[j] == units[j]);
        }
        lemma_backslash_suffix(units.drop_last(), start);
        assert(units.drop_last().skip(start).push(units.last()) =~= units.skip(start));
    }
}

} // verus!
