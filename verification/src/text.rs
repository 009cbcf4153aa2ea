//! Byte-level text utilities: ASCII case folding, UTF-8 validation, and
//! byte-string comparison.
//!
//! Payload bodies and content types are handled as raw bytes; the protocol
//! comparisons are ASCII, so folding and equality are defined directly on
//! byte sequences.

use vstd::prelude::*;

verus! {

/// ASCII case folding of one byte: `A`..`Z` (0x41..0x5A) map to `a`..`z`,
/// every other byte is unchanged.
pub open spec fn lower_byte(b: u8) -> u8 {
    if 0x41 <= b <= 0x5A {
        (b + 32) as u8
    } else {
        b
    }
}

/// ASCII case folding of a byte sequence.
pub open spec fn lower_bytes(s: Seq<u8>) -> Seq<u8> {
    s.map_values(|b: u8| lower_byte(b))
}

/// Fold a byte string to ASCII lower case.
pub fn to_ascii_lowercase(v: &Vec<u8>) -> (r: Vec<u8>)
    ensures
        r@ == lower_bytes(v@),
{
    let mut r: Vec<u8> = Vec::new();
    let mut i: usize = 0;
    while i < v.len()
        invariant
            0 <= i <= v.len(),
            r@ == lower_bytes(v@.take(i as int)),
        decreases v.len() - i,
    {
        let b = v[i];
        if 0x41 <= b && b <= 0x5A {
            r.push(b + 32);
        } else {
            r.push(b);
        }
        proof {
            assert(lower_bytes(v@.take(i + 1)) =~= lower_bytes(v@.take(i as int)).push(
                lower_byte(v@[i as int]),
            ));
        }
        i = i + 1;
    }
    proof {
        assert(v@.take(v@.len() as int) =~= v@);
    }
    r
}

/// Byte-string equality.
pub fn bytes_eq(a: &Vec<u8>, b: &Vec<u8>) -> (r: bool)
    ensures
        r == (a@ == b@),
{
    if a.len() != b.len() {
        proof {
            assert(a@ != b@);
        }
        return false;
    }
    let mut i: usize = 0;
    while i < a.len()
        invariant
            0 <= i <= a.len(),
            a.len() == b.len(),
            forall|j: int| 0 <= j < i ==> a@[j] == b@[j],
        decreases a.len() - i,
    {
        if a[i] != b[i] {
            proof {
                assert(a@ != b@);
            }
            return false;
        }
        i = i + 1;
    }
    proof {
        assert(a@ =~= b@);
    }
    true
}

/// Whether a byte is a UTF-8 continuation byte.
pub open spec fn is_cont(b: u8) -> bool {
    0x80 <= b <= 0xBF
}

/// Whether `s` is well-formed UTF-8 from position `i` to its end: the bytes
/// decompose into one- to four-byte scalar-value encodings, with overlong
/// forms and surrogate code points rejected.
pub open spec fn is_utf8_from(s: Seq<u8>, i: int) -> bool
    decreases s.len() - i,
{
    if i >= s.len() {
        true
    } else {
        let b0 = s[i];
        if b0 < 0x80 {
            is_utf8_from(s, i + 1)
        } else if 0xC2 <= b0 <= 0xDF {
            &&& i + 1 < s.len()
            &&& is_cont(s[i + 1])
            &&& is_utf8_from(s, i + 2)
        } else if b0 == 0xE0 {
            &&& i + 2 < s.len()
            &&& 0xA0 <= s[i + 1] <= 0xBF
            &&& is_cont(s[i + 2])
            &&& is_utf8_from(s, i + 3)
        } else if 0xE1 <= b0 <= 0xEC || b0 == 0xEE || b0 == 0xEF {
            &&& i + 2 < s.len()
            &&& is_cont(s[i + 1])
            &&& is_cont(s[i + 2])
            &&& is_utf8_from(s, i + 3)
        } else if b0 == 0xED {
            &&& i + 2 < s.len()
            &&& 0x80 <= s[i + 1] <= 0x9F
            &&& is_cont(s[i + 2])
            &&& is_utf8_from(s, i + 3)
        } else if b0 == 0xF0 {
            &&& i + 3 < s.len()
            &&& 0x90 <= s[i + 1] <= 0xBF
            &&& is_cont(s[i + 2])
            &&& is_cont(s[i + 3])
            &&& is_utf8_from(s, i + 4)
        } else if 0xF1 <= b0 <= 0xF3 {
            &&& i + 3 < s.len()
            &&& is_cont(s[i + 1])
            &&& is_cont(s[i + 2])
            &&& is_cont(s[i + 3])
            &&& is_utf8_from(s, i + 4)
        } else if b0 == 0xF4 {
            &&& i + 3 < s.len()
            &&& 0x80 <= s[i + 1] <= 0x8F
            &&& is_cont(s[i + 2])
            &&& is_cont(s[i + 3])
            &&& is_utf8_from(s, i + 4)
        } else {
            false
        }
    }
}

fn cont(b: u8) -> (r: bool)
    ensures
        r == is_cont(b),
{
    0x80 <= b && b <= 0xBF
}

/// Decide whether a byte string is well-formed UTF-8.
pub fn is_valid_utf8(v: &Vec<u8>) -> (r: bool)
    ensures
        r == is_utf8_from(v@, 0),
{
    let n = v.len();
    let mut i: usize = 0;
    while i < n
        invariant
            0 <= i <= n,
            n == v.len(),
            is_utf8_from(v@, 0) == is_utf8_from(v@, i as int),
        decreases n - i,
    {
        let b0 = v[i];
        if b0 < 0x80 {
            i = i + 1;
        } else if 0xC2 <= b0 && b0 <= 0xDF {
            if !(n - i > 1 && cont(v[i + 1])) {
                return false;
            }
            i = i + 2;
        } else if b0 == 0xE0 {
            if !(n - i > 2 && 0xA0 <= v[i + 1] && v[i + 1] <= 0xBF && cont(v[i + 2])) {
                return false;
            }
            i = i + 3;
        } else if (0xE1 <= b0 && b0 <= 0xEC) || b0 == 0xEE || b0 == 0xEF {
            if !(n - i > 2 && cont(v[i + 1]) && cont(v[i + 2])) {
                return false;
            }
            i = i + 3;
        } else if b0 == 0xED {
            if !(n - i > 2 && 0x80 <= v[i + 1] && v[i + 1] <= 0x9F && cont(v[i + 2])) {
                return false;
            }
            i = i + 3;
        } else if b0 == 0xF0 {
            if !(n - i > 3 && 0x90 <= v[i + 1] && v[i + 1] <= 0xBF && cont(v[i + 2]) && cont(
                v[i + 3],
            )) {
                return false;
            }
            i = i + 4;
        } else if 0xF1 <= b0 && b0 <= 0xF3 {
            if !(n - i > 3 && cont(v[i + 1]) && cont(v[i + 2]) && cont(v[i + 3])) {
                return false;
            }
            i = i + 4;
        } else if b0 == 0xF4 {
            if !(n - i > 3 && 0x80 <= v[i + 1] && v[i + 1] <= 0x8F && cont(v[i + 2]) && cont(
                v[i + 3],
            )) {
                return false;
            }
            i = i + 4;
        } else {
            return false;
        }
    }
    true
}

} // verus!
