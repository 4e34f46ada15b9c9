//! Decoding of UTF-16 text as the Windows API hands it out.

use vstd::prelude::*;

use crate::text::push_char;

verus! {

/// A UTF-16 sequence with an unpaired surrogate.
#[derive(Copy, Clone, Debug, PartialEq, Eq, Structural)]
pub struct InvalidUtf16;

pub open spec fn is_high_surrogate(u: u16) -> bool {
    0xD800 <= u <= 0xDBFF
}

pub open spec fn is_low_surrogate(u: u16) -> bool {
    0xDC00 <= u <= 0xDFFF
}

/// The scalar value that a surrogate pair encodes.
pub open spec fn surrogate_pair_value(high: u16, low: u16) -> int {
    0x10000 + (high - 0xD800) * 0x400 + (low - 0xDC00)
}

/// The characters that `units` encode in UTF-16, or `None` when a surrogate is unpaired.
pub open spec fn decode_utf16(units: Seq<u16>) -> Option<Seq<char>>
    decreases units.len(),
{
    if units.len() == 0 {
        Some(Seq::empty())
    } else if !is_high_surrogate(units[0]) && !is_low_surrogate(units[0]) {
        match decode_utf16(units.drop_first()) {
            Some(rest) => Some(seq![units[0] as char] + rest),
            None => None,
        }
    } else if is_high_surrogate(units[0]) && units.len() >= 2 && is_low_surrogate(units[1]) {
        match decode_utf16(units.subrange(2, units.len() as int)) {
            Some(rest) => Some(seq![surrogate_pair_value(units[0], units[1]) as char] + rest),
            None => None,
        }
    } else {
        None
    }
}

/// The position of the first NUL unit, or the length when there is none.
pub open spec fn nul_position(units: Seq<u16>) -> nat
    decreases units.len(),
{
    if units.len() == 0 {
        0
    } else if units[0] == 0 {
        0
    } else {
        1 + nul_position(units.drop_first())
    }
}

/// The text of a NUL-terminated UTF-16 buffer: the units before the first NUL
/// (all of them when there is none), decoded.
pub open spec fn nul_terminated_text(units: Seq<u16>) -> Option<Seq<char>> {
    decode_utf16(units.take(nul_position(units) as int))
}

proof fn lemma_nul_position_of_prefix(a: Seq<u16>, b: Seq<u16>)
    requires
        forall|i: int| 0 <= i < a.len() ==> a[i] != 0,
    ensures
        nul_position(a + seq![0u16] + b) == a.len(),
    decreases a.len(),
{
    let s = a + seq![0u16] + b;
    if a.len() == 0 {
        assert(s[0] == 0);
    } else {
        assert(s.drop_first() =~= a.drop_first() + seq![0u16] + b);
        lemma_nul_position_of_prefix(a.drop_first(), b);
    }
}

/// Whatever follows the first NUL of a buffer does not change its text.
pub proof fn lemma_text_stops_at_nul(a: Seq<u16>, b: Seq<u16>)
    requires
        forall|i: int| 0 <= i < a.len() ==> a[i] != 0,
    ensures
        nul_terminated_text(a + seq![0u16] + b) == decode_utf16(a),
{
    lemma_nul_position_of_prefix(a, b);
    assert((a + seq![0u16] + b).take(a.len() as int) =~= a);
}

/// The character with scalar value `v` (`char::from_u32`).
#[verifier::external_body]
fn char_from_u32(v: u32) -> (c: Option<char>)
    ensures
        c is Some <==> (v <= 0xD7FF || (0xE000 <= v && v <= 0x10FFFF)),
        c matches Some(ch) ==> ch as int == v as int,
{
    char::from_u32(v)
}

proof fn lemma_char_of_value(ch: char, v: int)
    requires
        ch as int == v,
    ensures
        ch == v as char,
{
}

/// Decodes UTF-16 units into a string (`String::from_utf16`).
pub fn decode_utf16_units(units: &[u16]) -> (r: Result<String, InvalidUtf16>)
    ensures
        match decode_utf16(units@) {
            Some(cs) => r matches Ok(s) && s@ == cs,
            None => r == Err::<String, InvalidUtf16>(InvalidUtf16),
        },
{
    let n = units.len();
    let mut out = String::new();
    let mut i: usize = 0;
    proof {
        assert(units@.skip(0) =~= units@);
    }
    while i < n
        invariant
            n == units@.len(),
            i <= n,
            decode_utf16(units@) == match decode_utf16(units@.skip(i as int)) {
                Some(rest) => Some(out@ + rest),
                None => None::<Seq<char>>,
            },
        decreases n - i,
    {
        let ghost tail = units@.skip(i as int);
        let u = units[i];
        assert(tail[0] == u);
        if u < 0xD800 || u > 0xDFFF {
            let c = match char_from_u32(u as u32) {
                Some(c) => c,
                None => {
                    return Err(InvalidUtf16);
                },
            };
            proof {
                lemma_char_of_value(c, u as int);
                assert(tail.drop_first() =~= units@.skip(i + 1));
            }
            push_char(&mut out, c);
            i = i + 1;
        } else if u <= 0xDBFF && i + 1 < n && units[i + 1] >= 0xDC00 && units[i + 1] <= 0xDFFF {
            let low = units[i + 1];
            assert(tail[1] == low);
            let v: u32 = 0x10000 + ((u as u32) - 0xD800) * 0x400 + ((low as u32) - 0xDC00);
            assert(v as int == surrogate_pair_value(u, low));
            let c = match char_from_u32(v) {
                Some(c) => c,
                None => {
                    return Err(InvalidUtf16);
                },
            };
            proof {
                lemma_char_of_value(c, v as int);
                assert(tail.subrange(2, tail.len() as int) =~= units@.skip(i + 2));
            }
            push_char(&mut out, c);
            i = i + 2;
        } else {
            return Err(InvalidUtf16);
        }
    }
    assert(units@.skip(n as int) =~= Seq::<u16>::empty());
    assert(out@ + Seq::<char>::empty() =~= out@);
    Ok(out)
}

/// The text of a NUL-terminated UTF-16 buffer: the units before the first NUL
/// (all of them when there is none), decoded.
pub fn utf16_to_string(value: &[u16]) -> (r: Result<String, InvalidUtf16>)
    ensures
        match nul_terminated_text(value@) {
            Some(cs) => r matches Ok(s) && s@ == cs,
            None => r == Err::<String, InvalidUtf16>(InvalidUtf16),
        },
{
    let n = value.len();
    let mut len: usize = 0;
    proof {
        assert(value@.skip(0) =~= value@);
    }
    while len < n && value[len] != 0
        invariant
            n == value@.len(),
            len <= n,
            nul_position(value@) == len + nul_position(value@.skip(len as int)),
        decreases n - len,
    {
        proof {
            assert(value@.skip(len as int).drop_first() =~= value@.skip(len + 1));
        }
        len = len + 1;
    }
    proof {
        if len < n {
            assert(value@.skip(len as int)[0] == 0);
        }
    }
    let prefix = vstd::slice::slice_subrange(value, 0, len);
    assert(prefix@ =~= value@.take(nul_position(value@) as int));
    decode_utf16_units(prefix)
}

} // verus!
