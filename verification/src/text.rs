//! Text fields: UTF-8 decoding and ASCII case folding.

use vstd::prelude::*;
use vstd::string::*;
use vstd::utf8::*;

verus! {

/// The code point of `c`, with the ASCII capitals folded onto the small letters.
pub open spec fn folded(c: char) -> int {
    if 'A' <= c <= 'Z' {
        c as int + 32
    } else {
        c as int
    }
}

/// Two texts are the same up to the case of their ASCII letters.
pub open spec fn eq_ignore_case(a: Seq<char>, b: Seq<char>) -> bool {
    &&& a.len() == b.len()
    &&& forall|i: int| 0 <= i < a.len() ==> folded(#[trigger] a[i]) == folded(b[i])
}

/// No character of `text` is the zero character.
pub open spec fn nul_free(text: Seq<char>) -> bool {
    forall|i: int| 0 <= i < text.len() ==> text[i] != '\0'
}

/// No byte of `s` is zero.
pub open spec fn zero_free(s: Seq<u8>) -> bool {
    forall|k: int| 0 <= k < s.len() ==> s[k] != 0
}

/// The encoding of a scalar holds a zero byte only where the scalar is zero, and then it is
/// that byte alone.
proof fn lemma_scalar_zero_free(scalar: u32)
    requires
        is_scalar(scalar),
    ensures
        scalar != 0 ==> zero_free(encode_scalar(scalar)),
        scalar == 0 ==> encode_scalar(scalar) == seq![0u8],
{
    if has_width_1_encoding(scalar) {
        assert(scalar != 0 ==> (scalar & 0x7F) as u8 != 0) by (bit_vector)
            requires
                scalar <= 0x7F,
        ;
        assert((0u32 & 0x7F) as u8 == 0) by (bit_vector);
    } else {
        assert(0xC0 | ((scalar >> 6) & 0x1F) as u8 != 0) by (bit_vector);
        assert(0xE0 | ((scalar >> 12) & 0x0F) as u8 != 0) by (bit_vector);
        assert(0xF0 | ((scalar >> 18) & 0x7) as u8 != 0) by (bit_vector);
        assert(0x80 | (scalar & 0x3F) as u8 != 0) by (bit_vector);
        assert(0x80 | ((scalar >> 6) & 0x3F) as u8 != 0) by (bit_vector);
        assert(0x80 | ((scalar >> 12) & 0x3F) as u8 != 0) by (bit_vector);
    }
}

/// The UTF-8 encoding of a text holds a zero byte where, and only where, the text holds the
/// zero character.
pub proof fn lemma_text_zero_free(text: Seq<char>)
    ensures
        zero_free(encode_utf8(text)) <==> nul_free(text),
    decreases text.len(),
{
    if text.len() > 0 {
        char_is_scalar(text[0]);
        let scalar = text[0] as u32;
        let first = encode_scalar(scalar);
        let rest = encode_utf8(text.drop_first());
        lemma_scalar_zero_free(scalar);
        lemma_text_zero_free(text.drop_first());
        assert(encode_utf8(text) == first + rest);
        assert(scalar == 0 <==> text[0] == '\0') by {
            char_u32_cast(text[0], scalar);
            char_u32_cast('\0', 0u32);
        }
        if nul_free(text) {
            assert(text[0] != '\0');
            assert forall|i: int| 0 <= i < text.drop_first().len() implies text.drop_first()[i]
                != '\0' by {
                assert(text.drop_first()[i] == text[i + 1]);
            }
            assert forall|k: int| 0 <= k < (first + rest).len() implies (first + rest)[k]
                != 0 by {
                if k < first.len() {
                    assert((first + rest)[k] == first[k]);
                } else {
                    assert((first + rest)[k] == rest[k - first.len()]);
                }
            }
        }
        if zero_free(encode_utf8(text)) {
            assert((first + rest)[0] == first[0]);
            assert(text[0] != '\0');
            assert forall|k: int| 0 <= k < rest.len() implies rest[k] != 0 by {
                assert((first + rest)[k + first.len()] == rest[k]);
            }
            assert forall|i: int| 0 <= i < text.len() implies text[i] != '\0' by {
                if i > 0 {
                    assert(text.drop_first()[i - 1] == text[i]);
                }
            }
        }
    }
}

/// Takes `bytes` as text, if they are the UTF-8 encoding of one.
///
/// Trusted: this is `core::str::from_utf8`. It is taken to accept exactly the valid UTF-8
/// encodings, and to hand back a string slice over the very bytes it was given.
#[verifier::external_body]
pub(crate) fn utf8_text<'a>(bytes: &'a [u8]) -> (text: Option<&'a str>)
    ensures
        text is Some <==> valid_utf8(bytes@),
        text matches Some(s) ==> s.spec_bytes() == bytes@,
{
    match core::str::from_utf8(bytes) {
        Ok(s) => Some(s),
        Err(_) => None,
    }
}

/// Folds an ASCII capital onto its small letter and leaves every other byte as it is.
fn fold_byte(b: u8) -> (r: u8)
    ensures
        r as int == if 65 <= b <= 90 {
            b as int + 32
        } else {
            b as int
        },
{
    if 65 <= b && b <= 90 {
        b + 32
    } else {
        b
    }
}

/// Compares `s` with an ASCII `token`, ignoring the case of ASCII letters.
pub(crate) fn matches_token(s: &str, token: &str) -> (same: bool)
    requires
        is_ascii(token),
    ensures
        same == eq_ignore_case(s@, token@),
{
    broadcast use {is_ascii_spec_bytes, vstd::slice::group_slice_axioms};

    if !s.is_ascii() {
        return false;
    }
    let a = s.as_bytes();
    let b = token.as_bytes();
    if a.len() != b.len() {
        return false;
    }
    let mut i: usize = 0;
    while i < a.len()
        invariant
            i <= a.len(),
            a.len() == b.len(),
            a@.len() == s@.len(),
            b@.len() == token@.len(),
            is_ascii(s),
            is_ascii(token),
            forall|k: int| 0 <= k < a@.len() ==> a@[k] == s@[k] as u8,
            forall|k: int| 0 <= k < b@.len() ==> b@[k] == token@[k] as u8,
            forall|k: int| 0 <= k < i ==> folded(#[trigger] s@[k]) == folded(token@[k]),
        decreases a.len() - i,
    {
        if fold_byte(a[i]) != fold_byte(b[i]) {
            assert(folded(s@[i as int]) != folded(token@[i as int]));
            return false;
        }
        i += 1;
    }
    true
}

} // verus!
