//! Codepoint-level helpers: identifier classification over `char`s, checked
//! UTF-8 decoding of the byte at the cursor, and the few places where the
//! scanner leans on the standard library or on the Unicode tables.
use vstd::prelude::*;
use vstd::utf8::{
    decode_first_codepoint, decode_first_scalar, decode_utf8, encode_scalar,
    is_continuation_byte, is_leading_byte_width_1, is_leading_byte_width_2,
    is_leading_byte_width_3, is_leading_byte_width_4, is_scalar, length_of_first_codepoint,
    length_of_first_scalar, not_overlong_encoding, not_surrogate,
    valid_first_scalar, valid_leading_and_continuation_bytes_first_codepoint, valid_utf8,
};

verus! {

/// Whether a character has the Unicode ID_Start property, as the
/// `unicode-id-start` crate's generated table answers it.  The table is a
/// function of the character alone.
pub uninterp spec fn id_start_of(c: char) -> bool;

/// Whether a character has the Unicode ID_Continue property, as the
/// `unicode-id-start` crate's generated table answers it.
pub uninterp spec fn id_continue_of(c: char) -> bool;

/// Relies on unicode_id_start::is_id_start: a pure lookup in a fixed table,
/// depending on the character alone.  Its ASCII row accepts exactly the
/// letters.
pub assume_specification [ unicode_id_start::is_id_start ](ch: char) -> (r: bool)
    ensures
        r == id_start_of(ch),
        (ch as u32) < 128 ==> r == ('a' as u32 <= ch as u32 <= 'z' as u32 || 'A' as u32 <= ch
            as u32 <= 'Z' as u32),
;

/// Relies on unicode_id_start::is_id_continue: a pure lookup in a fixed
/// table, depending on the character alone.  Its ASCII row accepts exactly
/// the letters, the digits, and the underscore.
pub assume_specification [ unicode_id_start::is_id_continue ](ch: char) -> (r: bool)
    ensures
        r == id_continue_of(ch),
        (ch as u32) < 128 ==> r == ('0' as u32 <= ch as u32 <= '9' as u32 || 'a' as u32 <= ch
            as u32 <= 'z' as u32 || 'A' as u32 <= ch as u32 <= 'Z' as u32 || ch == '_'),
;

/// A character that may start an identifier: an ASCII letter, `_`, `$`, or
/// anything the Unicode ID_Start table accepts.
pub open spec fn spec_is_identifier_start(c: char) -> bool {
    ||| 'a' as u32 <= c as u32 <= 'z' as u32
    ||| 'A' as u32 <= c as u32 <= 'Z' as u32
    ||| c == '_'
    ||| c == '$'
    ||| id_start_of(c)
}

pub fn is_identifier_start(ch: char) -> (r: bool)
    ensures
        r == spec_is_identifier_start(ch),
{
    let u = ch as u32;
    if ('a' as u32) <= u && u <= ('z' as u32) {
        true
    } else if ('A' as u32) <= u && u <= ('Z' as u32) {
        true
    } else if ch == '_' || ch == '$' {
        true
    } else {
        unicode_id_start::is_id_start(ch)
    }
}

/// A character that may continue an identifier: an ASCII letter or digit,
/// `_`, `$`, or anything the Unicode ID_Continue table accepts.
pub open spec fn spec_is_identifier_char(c: char) -> bool {
    ||| '0' as u32 <= c as u32 <= '9' as u32
    ||| 'a' as u32 <= c as u32 <= 'z' as u32
    ||| 'A' as u32 <= c as u32 <= 'Z' as u32
    ||| c == '_'
    ||| c == '$'
    ||| id_continue_of(c)
}

pub fn is_identifier_char(ch: char) -> (r: bool)
    ensures
        r == spec_is_identifier_char(ch),
{
    let u = ch as u32;
    if ('0' as u32) <= u && u <= ('9' as u32) {
        true
    } else if ('a' as u32) <= u && u <= ('z' as u32) {
        true
    } else if ('A' as u32) <= u && u <= ('Z' as u32) {
        true
    } else if ch == '_' || ch == '$' {
        true
    } else {
        unicode_id_start::is_id_continue(ch)
    }
}

/// Relies on char::from_u32: `Some` exactly for Unicode scalar values (not a
/// surrogate, at most 0x10FFFF), and the character's numeric value is the
/// argument.
pub assume_specification [ char::from_u32 ](i: u32) -> (r: Option<char>)
    ensures
        r is Some <==> is_scalar(i),
        r matches Some(c) ==> c as u32 == i,
;

/// Relies on String::push: appends exactly the given character.
#[verifier::external_body]
pub fn push_char(s: &mut String, c: char)
    ensures
        final(s)@ == old(s)@.push(c),
{
    s.push(c);
}

/// Relies on String::from_utf8: succeeds exactly on valid UTF-8, and the
/// resulting string's characters are the decoding of the bytes.
#[verifier::external_body]
pub fn string_from_utf8(bytes: Vec<u8>) -> (r: Option<String>)
    ensures
        r is Some <==> valid_utf8(bytes@),
        r matches Some(s) ==> s@ == decode_utf8(bytes@),
{
    String::from_utf8(bytes).ok()
}

/// The UTF-8 encoding of a scalar value, as executable code; it mirrors the
/// mathematical `encode_scalar` byte for byte.
pub fn encode_scalar_vec(v: u32) -> (r: Vec<u8>)
    requires
        is_scalar(v),
    ensures
        r@ == encode_scalar(v),
{
    let mut out: Vec<u8> = Vec::new();
    if v <= 0x7F {
        out.push((v & 0x7F) as u8);
    } else if v <= 0x7FF {
        out.push(0xC0u8 | (((v >> 6u32) & 0x1F) as u8));
        out.push(0x80u8 | ((v & 0x3F) as u8));
    } else if v <= 0xFFFF {
        out.push(0xE0u8 | (((v >> 12u32) & 0x0F) as u8));
        out.push(0x80u8 | (((v >> 6u32) & 0x3F) as u8));
        out.push(0x80u8 | ((v & 0x3F) as u8));
    } else {
        out.push(0xF0u8 | (((v >> 18u32) & 0x7) as u8));
        out.push(0x80u8 | (((v >> 12u32) & 0x3F) as u8));
        out.push(0x80u8 | (((v >> 6u32) & 0x3F) as u8));
        out.push(0x80u8 | ((v & 0x3F) as u8));
    }
    proof {
        assert(out@ =~= encode_scalar(v));
    }
    out
}

/// Decodes the scalar value whose UTF-8 encoding starts at `pos`, returning
/// the value and the width in bytes, or `None` where no well-formed encoding
/// starts there (including at the end of the input).
pub fn decode_scalar_at(s: &[u8], pos: usize) -> (r: Option<(u32, usize)>)
    requires
        pos <= s@.len(),
    ensures
        r is Some <==> valid_first_scalar(s@.subrange(pos as int, s@.len() as int)),
        r matches Some(p) ==> {
            let t = s@.subrange(pos as int, s@.len() as int);
            &&& p.0 == decode_first_scalar(t)
            &&& p.1 == length_of_first_scalar(t)
            &&& is_scalar(p.0)
            &&& 1 <= p.1 <= 4
            &&& pos + p.1 <= s@.len()
        },
{
    let ghost t = s@.subrange(pos as int, s@.len() as int);
    let rem = s.len() - pos;
    if rem == 0 {
        return None;
    }
    let b0 = s[pos];
    assert(t[0] == b0);
    if b0 <= 0x7F {
        assert(b0 & 0x7F == b0) by (bit_vector)
            requires
                b0 <= 0x7F,
        ;
        Some(((b0 & 0x7F) as u32, 1))
    } else if 0xC0 <= b0 && b0 <= 0xDF {
        if rem < 2 {
            return None;
        }
        let b1 = s[pos + 1];
        assert(t[1] == b1);
        if !(0x80 <= b1 && b1 <= 0xBF) {
            return None;
        }
        let cp: u32 = (((b0 & 0x1F) as u32) << 6u32) | ((b1 & 0x3F) as u32);
        assert(cp <= 0x7FF) by (bit_vector)
            requires
                cp == (((b0 & 0x1F) as u32) << 6u32) | ((b1 & 0x3F) as u32),
        ;
        if cp < 0x80 {
            assert(!not_overlong_encoding(decode_first_codepoint(t), length_of_first_codepoint(t)));
            return None;
        }
        Some((cp, 2))
    } else if 0xE0 <= b0 && b0 <= 0xEF {
        if rem < 3 {
            return None;
        }
        let b1 = s[pos + 1];
        let b2 = s[pos + 2];
        assert(t[1] == b1 && t[2] == b2);
        if !(0x80 <= b1 && b1 <= 0xBF) || !(0x80 <= b2 && b2 <= 0xBF) {
            return None;
        }
        let cp: u32 = (((b0 & 0x0F) as u32) << 12u32) | (((b1 & 0x3F) as u32) << 6u32) | ((b2
            & 0x3F) as u32);
        assert(cp <= 0xFFFF) by (bit_vector)
            requires
                cp == (((b0 & 0x0F) as u32) << 12u32) | (((b1 & 0x3F) as u32) << 6u32) | ((b2
                    & 0x3F) as u32),
        ;
        if cp < 0x800 {
            assert(!not_overlong_encoding(decode_first_codepoint(t), length_of_first_codepoint(t)));
            return None;
        }
        if 0xD800 <= cp && cp <= 0xDFFF {
            assert(!not_surrogate(decode_first_codepoint(t)));
            return None;
        }
        Some((cp, 3))
    } else if 0xF0 <= b0 && b0 <= 0xF7 {
        if rem < 4 {
            return None;
        }
        let b1 = s[pos + 1];
        let b2 = s[pos + 2];
        let b3 = s[pos + 3];
        assert(t[1] == b1 && t[2] == b2 && t[3] == b3);
        if !(0x80 <= b1 && b1 <= 0xBF) || !(0x80 <= b2 && b2 <= 0xBF) || !(0x80 <= b3 && b3
            <= 0xBF) {
            return None;
        }
        let cp: u32 = (((b0 & 0x07) as u32) << 18u32) | (((b1 & 0x3F) as u32) << 12u32) | (((b2
            & 0x3F) as u32) << 6u32) | ((b3 & 0x3F) as u32);
        assert(cp <= 0x1FFFFF) by (bit_vector)
            requires
                cp == (((b0 & 0x07) as u32) << 18u32) | (((b1 & 0x3F) as u32) << 12u32) | (((b2
                    & 0x3F) as u32) << 6u32) | ((b3 & 0x3F) as u32),
        ;
        if cp < 0x10000 || cp > 0x10FFFF {
            assert(!not_overlong_encoding(decode_first_codepoint(t), length_of_first_codepoint(t)));
            return None;
        }
        Some((cp, 4))
    } else {
        assert(!valid_leading_and_continuation_bytes_first_codepoint(t));
        None
    }
}

} // verus!
