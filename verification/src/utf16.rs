//! UTF-16 text, as nested containers store their member paths.

use vstd::prelude::*;

verus! {

/// The UTF-16 code units of one character: one unit below the supplementary
/// planes, a surrogate pair above them.
pub open spec fn units_of_char(c: char) -> Seq<u16> {
    let v = c as u32;
    if v < 0x10000 {
        seq![v as u16]
    } else {
        seq![
            (0xd800 + ((v - 0x10000) / 0x400)) as u16,
            (0xdc00 + ((v - 0x10000) % 0x400)) as u16,
        ]
    }
}

/// The UTF-16 encoding of a character sequence.
pub open spec fn utf16_units_of(chars: Seq<char>) -> Seq<u16>
    decreases chars.len(),
{
    if chars.len() == 0 {
        Seq::empty()
    } else {
        utf16_units_of(chars.drop_last()) + units_of_char(chars.last())
    }
}

/// Whether the units are the UTF-16 encoding of some text.
pub open spec fn utf16_decodable(units: Seq<u16>) -> bool {
    exists|cs: Seq<char>| utf16_units_of(cs) == units
}

/// Encode text into its UTF-16 code units.
pub fn encode_utf16_units(s: &str) -> (r: Vec<u16>)
    ensures
        r@ == utf16_units_of(s@),
{
    let n: usize = s.unicode_len();
    let mut out: Vec<u16> = Vec::new();
    let mut i: usize = 0;
    proof {
        assert(s@.take(0) =~= Seq::<char>::empty());
        assert(out@ =~= utf16_units_of(s@.take(0)));
    }
    while i < n
        invariant
            n == s@.len(),
            0 <= i <= n,
            out@ == utf16_units_of(s@.take(i as int)),
        decreases n - i,
    {
        let c: char = s.get_char(i);
        let v: u32 = c as u32;
        let ghost prev = out@;
        if v < 0x10000 {
            out.push(v as u16);
            proof {
                assert(out@ =~= prev + units_of_char(c));
            }
        } else {
            out.push((0xd800 + ((v - 0x10000) / 0x400)) as u16);
            out.push((0xdc00 + ((v - 0x10000) % 0x400)) as u16);
            proof {
                assert(out@ =~= prev + units_of_char(c));
            }
        }
        proof {
            assert(s@.take(i + 1).drop_last() =~= s@.take(i as int));
            assert(s@.take(i + 1).last() == s@[i as int]);
        }
        i = i + 1;
    }
    proof {
        assert(s@.take(n as int) =~= s@);
    }
    out
}

/// Relies on `String::from_utf16`: decodes UTF-16 code units, yielding the
/// text whose encoding is exactly the input, and failing exactly when the
/// units are not the encoding of any text (unpaired surrogates).
#[verifier::external_body]
pub(crate) fn string_from_utf16(units: &Vec<u16>) -> (r: Option<String>)
    ensures
        match r {
            Some(s) => utf16_units_of(s@) == units@,
            None => !utf16_decodable(units@),
        },
{
    String::from_utf16(units.as_slice()).ok()
}

} // verus!
