//! The compression envelope: a small header preceding stored bytes that
//! describes how the remainder is compressed.
//!
//! The envelope is big-endian: a magic tag, a sizes block declaring the
//! decompressed and stored payload lengths, a parameter block naming the
//! compression algorithm, and a data block holding the payload. Reading an
//! envelope validates the declared stored length against the actual payload
//! and the declared decompressed length against what the payload inflates
//! to.

use vstd::prelude::*;

use crate::bytes::be_u32_at;
use crate::errors::DcxError;

verus! {

use vstd::slice::slice_subrange;

/// Total size of the envelope header; the payload follows it.
pub const DCX_HEADER: usize = 0x4c;

/// How an envelope's payload is compressed.
#[derive(Copy, Clone, Debug, PartialEq, Eq, Structural)]
pub enum DcxCompression {
    /// A zlib deflate stream.
    Deflate,
    /// Stored bytes, not compressed.
    Stored,
}

impl DcxCompression {
    /// The descriptor this compression is reported as.
    pub open spec fn describe_spec(self) -> Seq<char> {
        match self {
            DcxCompression::Deflate => "DFLT"@,
            DcxCompression::Stored => "NONE"@,
        }
    }

    /// The descriptor this compression is reported as.
    pub fn describe(&self) -> (r: String)
        ensures
            r@ == self.describe_spec(),
    {
        match self {
            DcxCompression::Deflate => "DFLT".to_owned(),
            DcxCompression::Stored => "NONE".to_owned(),
        }
    }
}

/// What inflating a zlib stream yields: the decompressed bytes, a function
/// of the stream alone; `None` exactly on a malformed stream.
pub uninterp spec fn zlib_inflated(data: Seq<u8>) -> Option<Seq<u8>>;

/// Relies on `miniz_oxide::inflate::decompress_to_vec_zlib`: inflates a
/// whole zlib stream, failing on malformed data.
#[verifier::external_body]
fn inflate_zlib(data: &[u8]) -> (r: Option<Vec<u8>>)
    ensures
        match r {
            Some(v) => zlib_inflated(data@) == Some(v@),
            None => zlib_inflated(data@) is None,
        },
{
    miniz_oxide::inflate::decompress_to_vec_zlib(data).ok()
}

/// Whether the bytes carry a well-formed envelope header: the four block
/// tags in place and the declared stored length matching the payload.
pub open spec fn dcx_header_ok(s: Seq<u8>) -> bool {
    &&& s.len() >= 0x4c
    &&& s[0x00] == 0x44 && s[0x01] == 0x43 && s[0x02] == 0x58 && s[0x03] == 0x00
    &&& s[0x18] == 0x44 && s[0x19] == 0x43 && s[0x1a] == 0x53 && s[0x1b] == 0x00
    &&& s[0x24] == 0x44 && s[0x25] == 0x43 && s[0x26] == 0x50 && s[0x27] == 0x00
    &&& s[0x44] == 0x44 && s[0x45] == 0x43 && s[0x46] == 0x41 && s[0x47] == 0x00
    &&& be_u32_at(s, 0x20) == s.len() - 0x4c
}

/// Whether the envelope names the deflate algorithm.
pub open spec fn dcx_is_deflate(s: Seq<u8>) -> bool {
    s[0x28] == 0x44 && s[0x29] == 0x46 && s[0x2a] == 0x4c && s[0x2b] == 0x54
}

/// Whether the envelope names the stored (uncompressed) algorithm.
pub open spec fn dcx_is_stored(s: Seq<u8>) -> bool {
    s[0x28] == 0x4e && s[0x29] == 0x4f && s[0x2a] == 0x4e && s[0x2b] == 0x45
}

/// The envelope's payload: everything after the header.
pub open spec fn dcx_payload(s: Seq<u8>) -> Seq<u8> {
    s.skip(0x4c)
}

/// The declared decompressed length.
pub open spec fn dcx_declared_len(s: Seq<u8>) -> u32 {
    be_u32_at(s, 0x1c)
}

/// The compression an envelope names, when its header is well formed and
/// the algorithm is one this library reads.
pub open spec fn dcx_compression_of(s: Seq<u8>) -> Option<DcxCompression> {
    if !dcx_header_ok(s) {
        None
    } else if dcx_is_deflate(s) {
        Some(DcxCompression::Deflate)
    } else if dcx_is_stored(s) {
        Some(DcxCompression::Stored)
    } else {
        None
    }
}

/// What reading an envelope yields: the decompressed bytes, or nothing when
/// the header is malformed, the algorithm unsupported, the payload does not
/// inflate, or the result's length is not the declared one.
pub open spec fn dcx_plain(s: Seq<u8>) -> Option<Seq<u8>> {
    if !dcx_header_ok(s) {
        None
    } else if dcx_is_deflate(s) {
        match zlib_inflated(dcx_payload(s)) {
            Some(p) => if p.len() == dcx_declared_len(s) {
                Some(p)
            } else {
                None
            },
            None => None,
        }
    } else if dcx_is_stored(s) {
        if dcx_payload(s).len() == dcx_declared_len(s) {
            Some(dcx_payload(s))
        } else {
            None
        }
    } else {
        None
    }
}

/// Check the envelope's four block tags and its declared stored length.
fn check_dcx_header(data: &Vec<u8>) -> (r: bool)
    ensures
        r == dcx_header_ok(data@),
{
    let n: usize = data.len();
    if n < DCX_HEADER {
        return false;
    }
    let stored: u32 = crate::bytes::read_be_u32(data, 0x20);
    data[0x00] == 0x44 && data[0x01] == 0x43 && data[0x02] == 0x58 && data[0x03] == 0x00
        && data[0x18] == 0x44 && data[0x19] == 0x43 && data[0x1a] == 0x53 && data[0x1b] == 0x00
        && data[0x24] == 0x44 && data[0x25] == 0x43 && data[0x26] == 0x50 && data[0x27] == 0x00
        && data[0x44] == 0x44 && data[0x45] == 0x43 && data[0x46] == 0x41 && data[0x47] == 0x00
        && stored as usize == n - DCX_HEADER
}

/// Read a compression envelope: validate the header, decompress the payload,
/// and check the declared decompressed length. Yields the compression
/// descriptor, for reporting, and the decompressed bytes.
pub fn read_dcx(data: &Vec<u8>) -> (r: Result<(DcxCompression, Vec<u8>), DcxError>)
    ensures
        match r {
            Ok((d, out)) => {
                &&& dcx_plain(data@) == Some(out@)
                &&& dcx_header_ok(data@)
                &&& dcx_compression_of(data@) == Some(d)
            },
            Err(DcxError::BadHeader) => !dcx_header_ok(data@),
            Err(DcxError::UnsupportedFormat) => dcx_header_ok(data@) && !dcx_is_deflate(data@)
                && !dcx_is_stored(data@),
            Err(DcxError::BadData) => dcx_header_ok(data@) && (dcx_is_deflate(data@)
                || dcx_is_stored(data@)) && dcx_plain(data@) is None,
        },
{
    if !check_dcx_header(data) {
        return Err(DcxError::BadHeader);
    }
    let n: usize = data.len();
    let declared: u32 = crate::bytes::read_be_u32(data, 0x1c);
    let payload: &[u8] = slice_subrange(data.as_slice(), DCX_HEADER, n);
    proof {
        assert(payload@ =~= dcx_payload(data@));
    }
    let f0: u8 = data[0x28];
    let f1: u8 = data[0x29];
    let f2: u8 = data[0x2a];
    let f3: u8 = data[0x2b];
    if f0 == 0x44 && f1 == 0x46 && f2 == 0x4c && f3 == 0x54 {
        match inflate_zlib(payload) {
            Some(out) => {
                if out.len() == declared as usize {
                    Ok((DcxCompression::Deflate, out))
                } else {
                    Err(DcxError::BadData)
                }
            },
            None => Err(DcxError::BadData),
        }
    } else if f0 == 0x4e && f1 == 0x4f && f2 == 0x4e && f3 == 0x45 {
        let out: Vec<u8> = vstd::slice::slice_to_vec(payload);
        if out.len() == declared as usize {
            Ok((DcxCompression::Stored, out))
        } else {
            Err(DcxError::BadData)
        }
    } else {
        Err(DcxError::UnsupportedFormat)
    }
}

} // verus!
