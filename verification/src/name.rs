//! Canonicalization and hashing of virtual paths.
//!
//! The archive format never stores plaintext names; every entry is addressed
//! by a 64-bit hash of its canonicalized virtual path. Canonicalization
//! lowercases ASCII letters, turns backslashes into forward slashes and
//! ensures a single leading slash; the hash folds each byte into an
//! accumulator multiplied by a fixed prime, wrapping at 64 bits.

use vstd::prelude::*;

verus! {

use vstd::string::StringSliceAdditionalSpecFns;

/// The multiplier of the rolling path hash.
pub const NAME_HASH_PRIME: u64 = 0x85;

/// One canonicalized path byte: ASCII uppercase folded to lowercase,
/// backslash folded to forward slash, all other bytes unchanged.
pub open spec fn canon_byte(b: u8) -> u8 {
    if 0x41 <= b && b <= 0x5a {
        (b + 0x20) as u8
    } else if b == 0x5c {
        0x2f
    } else {
        b
    }
}

/// The canonical byte sequence of a path: every byte canonicalized, with a
/// leading slash added when the path does not already start with one.
pub open spec fn canon_bytes(path: Seq<u8>) -> Seq<u8> {
    let folded = path.map_values(|b: u8| canon_byte(b));
    if folded.len() > 0 && folded[0] == 0x2f {
        folded
    } else {
        seq![0x2f] + folded
    }
}

/// The rolling hash over a byte sequence, starting from `acc`:
/// each step multiplies by `NAME_HASH_PRIME` and adds the byte, mod 2^64.
pub open spec fn hash_fold(acc: u64, bytes: Seq<u8>) -> u64
    decreases bytes.len(),
{
    if bytes.len() == 0 {
        acc
    } else {
        hash_fold(
            vstd::wrapping::u64_specs::wrapping_add(
                vstd::wrapping::u64_specs::wrapping_mul(acc, NAME_HASH_PRIME),
                bytes[0] as u64,
            ),
            bytes.drop_first(),
        )
    }
}

/// The hash a virtual path resolves to: the rolling hash of its canonical bytes.
pub open spec fn name_hash_of(path: Seq<u8>) -> u64 {
    hash_fold(0, canon_bytes(path))
}

/// An entry name: the fixed-width hash of a canonicalized virtual path, the
/// only lookup key the archive format supports. Two distinct paths with equal
/// hashes are indistinguishable by design.
#[derive(Clone, Copy, Debug, PartialEq, Eq, Hash, Structural)]
pub struct Name(pub u64);

impl Name {
    /// Hash a virtual path into its entry name.
    pub fn from_path(path: &str) -> (r: Name)
        ensures
            r.0 == name_hash_of(path.spec_bytes()),
    {
        let bytes: &[u8] = path.as_bytes();
        let n: usize = bytes.len();
        let starts_with_slash: bool = if n > 0 {
            let b0: u8 = bytes[0];
            b0 == 0x2f || b0 == 0x5c
        } else {
            false
        };
        let mut h: u64 = if starts_with_slash {
            0
        } else {
            0x2f as u64
        };
        proof {
            let folded = bytes@.map_values(|b: u8| canon_byte(b));
            assert(folded.skip(0) =~= folded);
            if starts_with_slash {
                assert(folded[0] == canon_byte(bytes@[0]));
                assert(canon_bytes(bytes@) == folded);
            } else {
                if n > 0 {
                    assert(folded[0] == canon_byte(bytes@[0]));
                }
                assert(canon_bytes(bytes@) == seq![0x2f] + folded);
                assert((seq![0x2f] + folded).drop_first() =~= folded);
                assert(hash_fold(0, seq![0x2f] + folded) == hash_fold(0x2f as u64, folded));
            }
        }
        let mut i: usize = 0;
        while i < n
            invariant
                n == bytes@.len(),
                0 <= i <= n,
                name_hash_of(bytes@) == hash_fold(
                    h,
                    bytes@.map_values(|b: u8| canon_byte(b)).skip(i as int),
                ),
            decreases n - i,
        {
            let b: u8 = bytes[i];
            let c: u8 = if 0x41 <= b && b <= 0x5a {
                b + 0x20
            } else if b == 0x5c {
                0x2f
            } else {
                b
            };
            proof {
                let folded = bytes@.map_values(|b: u8| canon_byte(b));
                assert(folded[i as int] == canon_byte(bytes@[i as int]));
                assert(folded.skip(i as int).drop_first() =~= folded.skip(i + 1));
            }
            h = h.wrapping_mul(NAME_HASH_PRIME).wrapping_add(c as u64);
            i = i + 1;
        }
        proof {
            assert(bytes@.map_values(|b: u8| canon_byte(b)).skip(n as int) =~= Seq::<u8>::empty());
        }
        Name(h)
    }
}

} // verus!
