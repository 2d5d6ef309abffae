//! Byte classification and the fixed keyword table of the scanner.
use vstd::prelude::*;

verus! {

/// Punctuator bytes: `! % & [ ] ^`, the ASCII ranges 0x28-0x2F and 0x3A-0x3F,
/// and 0x7B-0x7E.
pub open spec fn spec_is_punctuator(c: u8) -> bool {
    ||| c == '!' as u8
    ||| c == '%' as u8
    ||| c == '&' as u8
    ||| c == '[' as u8
    ||| c == ']' as u8
    ||| c == '^' as u8
    ||| 0x28 <= c <= 0x2f
    ||| 0x3a <= c <= 0x3f
    ||| 0x7b <= c <= 0x7e
}

pub fn is_punctuator(c: u8) -> (r: bool)
    ensures
        r == spec_is_punctuator(c),
{
    c == '!' as u8 || c == '%' as u8 || c == '&' as u8 || c == '[' as u8 || c == ']' as u8
        || c == '^' as u8 || (0x28 <= c && c <= 0x2f) || (0x3a <= c && c <= 0x3f) || (0x7b <= c
        && c <= 0x7e)
}

/// A "boundary" byte: whitespace, a line break, or a punctuator other than `.`.
/// A keyword or a name such as `exports` only counts when it starts and ends at
/// such a byte (or at the edge of the input).
pub open spec fn spec_is_boundary(c: u8) -> bool {
    ||| 8 < c < 14
    ||| c == 32
    ||| c == 160
    ||| (spec_is_punctuator(c) && c != '.' as u8)
}

pub fn is_br_or_ws_or_puntuator_not_dot(c: u8) -> (r: bool)
    ensures
        r == spec_is_boundary(c),
{
    (8 < c && c < 14) || c == 32 || c == 160 || (is_punctuator(c) && c != '.' as u8)
}

/// A line-break byte: CR or LF.
pub open spec fn spec_is_br(c: u8) -> bool {
    c == 13 || c == 10
}

pub fn is_br(c: u8) -> (r: bool)
    ensures
        r == spec_is_br(c),
{
    c == 13 || c == 10
}

/// How a pending `(` was introduced: after `if`/`while`/`for`, or plainly.
#[derive(Clone, Copy, Debug)]
pub enum ParenthesisType {
    ParenthesisKeyword,
    Plain,
}

/// One entry of the context stack, pushed at an opening byte.
#[derive(Clone, Copy, Debug)]
pub enum Bracket {
    Parenthesis(ParenthesisType),
    Bracket,
    Brace,
    TemplateBrace,
}

pub open spec fn spec_bracket_open_code(bracket: Bracket) -> u8 {
    match bracket {
        Bracket::Parenthesis(_) => '(' as u8,
        Bracket::Bracket => '[' as u8,
        Bracket::Brace => '{' as u8,
        Bracket::TemplateBrace => '{' as u8,
    }
}

pub fn get_bracket_open_code(bracket: &Bracket) -> (r: u8)
    ensures
        r == spec_bracket_open_code(*bracket),
{
    match bracket {
        Bracket::Parenthesis(_) => '(' as u8,
        Bracket::Bracket => '[' as u8,
        Bracket::Brace => '{' as u8,
        Bracket::TemplateBrace => '{' as u8,
    }
}

pub open spec fn spec_bracket_close_code(bracket: Bracket) -> u8 {
    match bracket {
        Bracket::Parenthesis(_) => ')' as u8,
        Bracket::Bracket => ']' as u8,
        Bracket::Brace => '}' as u8,
        Bracket::TemplateBrace => '}' as u8,
    }
}

pub fn get_bracket_close_code(bracket: &Bracket) -> (r: u8)
    ensures
        r == spec_bracket_close_code(*bracket),
{
    match bracket {
        Bracket::Parenthesis(_) => ')' as u8,
        Bracket::Bracket => ']' as u8,
        Bracket::Brace => '}' as u8,
        Bracket::TemplateBrace => '}' as u8,
    }
}

/// Outcome of the keyword matcher: a matched length tagged by the keyword's
/// kind, or no match.  A zero length also means "no match".
#[derive(Clone, Copy, Debug)]
pub enum MaybeKeyword {
    Expression(usize),
    Parenthesis(usize),
    NoKeyword,
}

impl MaybeKeyword {
    pub open spec fn spec_is_some(self) -> bool {
        match self {
            MaybeKeyword::Expression(s) => s > 0,
            MaybeKeyword::Parenthesis(s) => s > 0,
            MaybeKeyword::NoKeyword => false,
        }
    }

    pub fn is_some(&self) -> (r: bool)
        ensures
            r == self.spec_is_some(),
    {
        match self {
            MaybeKeyword::Expression(s) => *s > 0,
            MaybeKeyword::Parenthesis(s) => *s > 0,
            MaybeKeyword::NoKeyword => false,
        }
    }

    pub fn is_none(&self) -> (r: bool)
        ensures
            r == !self.spec_is_some(),
    {
        !self.is_some()
    }
}

/// The byte at index `i`, if `i` is in range, equals `c`.
pub open spec fn spec_byte_at(s: Seq<u8>, i: int, c: u8) -> bool {
    0 <= i < s.len() && s[i] == c
}

/// Index `i` is past the end, or holds a boundary byte.
pub open spec fn spec_boundary_or_end(s: Seq<u8>, i: int) -> bool {
    i >= s.len() || (0 <= i && spec_is_boundary(s[i]))
}

fn byte_at(s: &[u8], i: usize, c: u8) -> (r: bool)
    ensures
        r == spec_byte_at(s@, i as int, c),
{
    i < s.len() && s[i] == c
}

fn boundary_or_end(s: &[u8], i: usize) -> (r: bool)
    ensures
        r == spec_boundary_or_end(s@, i as int),
{
    i >= s.len() || is_br_or_ws_or_puntuator_not_dot(s[i])
}

/// A keyword whose tail (after the already-matched head) is empty ends at
/// `offset`; the match is the keyword's length, or zero.
pub open spec fn spec_kw_end0(s: Seq<u8>, offset: int) -> int {
    if spec_boundary_or_end(s, offset) {
        offset
    } else {
        0
    }
}

pub open spec fn spec_kw_end2(s: Seq<u8>, offset: int, a: u8, b: u8) -> int {
    if spec_byte_at(s, offset, a) && spec_byte_at(s, offset + 1, b) && spec_boundary_or_end(
        s,
        offset + 2,
    ) {
        offset + 2
    } else {
        0
    }
}

pub open spec fn spec_kw_end3(s: Seq<u8>, offset: int, a: u8, b: u8, c: u8) -> int {
    if spec_byte_at(s, offset, a) && spec_byte_at(s, offset + 1, b) && spec_byte_at(
        s,
        offset + 2,
        c,
    ) && spec_boundary_or_end(s, offset + 3) {
        offset + 3
    } else {
        0
    }
}

pub open spec fn spec_kw_end4(s: Seq<u8>, offset: int, a: u8, b: u8, c: u8, d: u8) -> int {
    if spec_byte_at(s, offset, a) && spec_byte_at(s, offset + 1, b) && spec_byte_at(
        s,
        offset + 2,
        c,
    ) && spec_byte_at(s, offset + 3, d) && spec_boundary_or_end(s, offset + 4) {
        offset + 4
    } else {
        0
    }
}

pub open spec fn spec_kw_end5(s: Seq<u8>, offset: int, a: u8, b: u8, c: u8, d: u8, e: u8) -> int {
    if spec_byte_at(s, offset, a) && spec_byte_at(s, offset + 1, b) && spec_byte_at(
        s,
        offset + 2,
        c,
    ) && spec_byte_at(s, offset + 3, d) && spec_byte_at(s, offset + 4, e) && spec_boundary_or_end(
        s,
        offset + 5,
    ) {
        offset + 5
    } else {
        0
    }
}

pub open spec fn spec_kw_end8(
    s: Seq<u8>,
    offset: int,
    a: u8,
    b: u8,
    c: u8,
    d: u8,
    e: u8,
    f: u8,
    g: u8,
    h: u8,
) -> int {
    if spec_byte_at(s, offset, a) && spec_byte_at(s, offset + 1, b) && spec_byte_at(
        s,
        offset + 2,
        c,
    ) && spec_byte_at(s, offset + 3, d) && spec_byte_at(s, offset + 4, e) && spec_byte_at(
        s,
        offset + 5,
        f,
    ) && spec_byte_at(s, offset + 6, g) && spec_byte_at(s, offset + 7, h) && spec_boundary_or_end(
        s,
        offset + 8,
    ) {
        offset + 8
    } else {
        0
    }
}

fn kw_end0(s: &[u8], offset: usize) -> (r: usize)
    requires
        offset <= 4,
    ensures
        r as int == spec_kw_end0(s@, offset as int),
{
    if boundary_or_end(s, offset) {
        offset
    } else {
        0
    }
}

fn kw_end2(s: &[u8], offset: usize, a: u8, b: u8) -> (r: usize)
    requires
        offset <= 4,
    ensures
        r as int == spec_kw_end2(s@, offset as int, a, b),
{
    if byte_at(s, offset, a) && byte_at(s, offset + 1, b) && boundary_or_end(s, offset + 2) {
        offset + 2
    } else {
        0
    }
}

fn kw_end3(s: &[u8], offset: usize, a: u8, b: u8, c: u8) -> (r: usize)
    requires
        offset <= 4,
    ensures
        r as int == spec_kw_end3(s@, offset as int, a, b, c),
{
    if byte_at(s, offset, a) && byte_at(s, offset + 1, b) && byte_at(s, offset + 2, c)
        && boundary_or_end(s, offset + 3) {
        offset + 3
    } else {
        0
    }
}

fn kw_end4(s: &[u8], offset: usize, a: u8, b: u8, c: u8, d: u8) -> (r: usize)
    requires
        offset <= 4,
    ensures
        r as int == spec_kw_end4(s@, offset as int, a, b, c, d),
{
    if byte_at(s, offset, a) && byte_at(s, offset + 1, b) && byte_at(s, offset + 2, c) && byte_at(
        s,
        offset + 3,
        d,
    ) && boundary_or_end(s, offset + 4) {
        offset + 4
    } else {
        0
    }
}

fn kw_end5(s: &[u8], offset: usize, a: u8, b: u8, c: u8, d: u8, e: u8) -> (r: usize)
    requires
        offset <= 4,
    ensures
        r as int == spec_kw_end5(s@, offset as int, a, b, c, d, e),
{
    if byte_at(s, offset, a) && byte_at(s, offset + 1, b) && byte_at(s, offset + 2, c) && byte_at(
        s,
        offset + 3,
        d,
    ) && byte_at(s, offset + 4, e) && boundary_or_end(s, offset + 5) {
        offset + 5
    } else {
        0
    }
}

fn kw_end8(s: &[u8], offset: usize, a: u8, b: u8, c: u8, d: u8, e: u8, f: u8, g: u8, h: u8) -> (r:
    usize)
    requires
        offset <= 4,
    ensures
        r as int == spec_kw_end8(s@, offset as int, a, b, c, d, e, f, g, h),
{
    if byte_at(s, offset, a) && byte_at(s, offset + 1, b) && byte_at(s, offset + 2, c) && byte_at(
        s,
        offset + 3,
        d,
    ) && byte_at(s, offset + 4, e) && byte_at(s, offset + 5, f) && byte_at(s, offset + 6, g)
        && byte_at(s, offset + 7, h) && boundary_or_end(s, offset + 8) {
        offset + 8
    } else {
        0
    }
}

/// Longest match of the slice's head against the two closed keyword sets:
/// expression keywords (case, delete, do, else, in, instanceof, new, return,
/// throw, typeof, void, yield, await) and parenthesis keywords (if, while,
/// for).  A match counts only when the byte right after it is a boundary byte
/// or the end of the slice.
pub open spec fn spec_match_keyword(s: Seq<u8>) -> MaybeKeyword {
    if s.len() == 0 {
        MaybeKeyword::NoKeyword
    } else if s[0] == 'c' as u8 {
        MaybeKeyword::Expression(spec_kw_end3(s, 1, 'a' as u8, 's' as u8, 'e' as u8) as usize)
    } else if s[0] == 'd' as u8 {
        if spec_byte_at(s, 1, 'e' as u8) {
            MaybeKeyword::Expression(
                spec_kw_end4(s, 2, 'l' as u8, 'e' as u8, 't' as u8, 'e' as u8) as usize,
            )
        } else if spec_byte_at(s, 1, 'o' as u8) {
            MaybeKeyword::Expression(spec_kw_end0(s, 2) as usize)
        } else {
            MaybeKeyword::NoKeyword
        }
    } else if s[0] == 'e' as u8 {
        MaybeKeyword::Expression(spec_kw_end3(s, 1, 'l' as u8, 's' as u8, 'e' as u8) as usize)
    } else if s[0] == 'i' as u8 {
        if spec_byte_at(s, 1, 'n' as u8) {
            MaybeKeyword::Expression(
                (spec_kw_end0(s, 2) + spec_kw_end8(
                    s,
                    2,
                    's' as u8,
                    't' as u8,
                    'a' as u8,
                    'n' as u8,
                    'c' as u8,
                    'e' as u8,
                    'o' as u8,
                    'f' as u8,
                )) as usize,
            )
        } else if spec_byte_at(s, 1, 'f' as u8) {
            MaybeKeyword::Parenthesis(spec_kw_end0(s, 2) as usize)
        } else {
            MaybeKeyword::NoKeyword
        }
    } else if s[0] == 'n' as u8 {
        MaybeKeyword::Expression(spec_kw_end2(s, 1, 'e' as u8, 'w' as u8) as usize)
    } else if s[0] == 'r' as u8 {
        MaybeKeyword::Expression(
            spec_kw_end5(s, 1, 'e' as u8, 't' as u8, 'u' as u8, 'r' as u8, 'n' as u8) as usize,
        )
    } else if s[0] == 't' as u8 {
        if spec_byte_at(s, 1, 'h' as u8) {
            MaybeKeyword::Expression(spec_kw_end3(s, 2, 'r' as u8, 'o' as u8, 'w' as u8) as usize)
        } else if spec_byte_at(s, 1, 'y' as u8) {
            MaybeKeyword::Expression(
                spec_kw_end4(s, 2, 'p' as u8, 'e' as u8, 'o' as u8, 'f' as u8) as usize,
            )
        } else {
            MaybeKeyword::NoKeyword
        }
    } else if s[0] == 'v' as u8 {
        MaybeKeyword::Expression(spec_kw_end3(s, 1, 'o' as u8, 'i' as u8, 'd' as u8) as usize)
    } else if s[0] == 'y' as u8 {
        MaybeKeyword::Expression(
            spec_kw_end4(s, 1, 'i' as u8, 'e' as u8, 'l' as u8, 'd' as u8) as usize,
        )
    } else if s[0] == 'a' as u8 {
        MaybeKeyword::Expression(
            spec_kw_end4(s, 1, 'w' as u8, 'a' as u8, 'i' as u8, 't' as u8) as usize,
        )
    } else if s[0] == 'w' as u8 {
        MaybeKeyword::Parenthesis(
            spec_kw_end4(s, 1, 'h' as u8, 'i' as u8, 'l' as u8, 'e' as u8) as usize,
        )
    } else if s[0] == 'f' as u8 {
        MaybeKeyword::Parenthesis(spec_kw_end2(s, 1, 'o' as u8, 'r' as u8) as usize)
    } else {
        MaybeKeyword::NoKeyword
    }
}

pub fn match_keyword(source: &[u8]) -> (r: MaybeKeyword)
    ensures
        r == spec_match_keyword(source@),
{
    if source.len() == 0 {
        return MaybeKeyword::NoKeyword;
    }
    let c = source[0];
    if c == 'c' as u8 {
        MaybeKeyword::Expression(kw_end3(source, 1, 'a' as u8, 's' as u8, 'e' as u8))
    } else if c == 'd' as u8 {
        if byte_at(source, 1, 'e' as u8) {
            MaybeKeyword::Expression(kw_end4(source, 2, 'l' as u8, 'e' as u8, 't' as u8, 'e' as u8))
        } else if byte_at(source, 1, 'o' as u8) {
            MaybeKeyword::Expression(kw_end0(source, 2))
        } else {
            MaybeKeyword::NoKeyword
        }
    } else if c == 'e' as u8 {
        MaybeKeyword::Expression(kw_end3(source, 1, 'l' as u8, 's' as u8, 'e' as u8))
    } else if c == 'i' as u8 {
        if byte_at(source, 1, 'n' as u8) {
            MaybeKeyword::Expression(
                kw_end0(source, 2) + kw_end8(
                    source,
                    2,
                    's' as u8,
                    't' as u8,
                    'a' as u8,
                    'n' as u8,
                    'c' as u8,
                    'e' as u8,
                    'o' as u8,
                    'f' as u8,
                ),
            )
        } else if byte_at(source, 1, 'f' as u8) {
            MaybeKeyword::Parenthesis(kw_end0(source, 2))
        } else {
            MaybeKeyword::NoKeyword
        }
    } else if c == 'n' as u8 {
        MaybeKeyword::Expression(kw_end2(source, 1, 'e' as u8, 'w' as u8))
    } else if c == 'r' as u8 {
        MaybeKeyword::Expression(kw_end5(source, 1, 'e' as u8, 't' as u8, 'u' as u8, 'r' as u8, 'n' as u8))
    } else if c == 't' as u8 {
        if byte_at(source, 1, 'h' as u8) {
            MaybeKeyword::Expression(kw_end3(source, 2, 'r' as u8, 'o' as u8, 'w' as u8))
        } else if byte_at(source, 1, 'y' as u8) {
            MaybeKeyword::Expression(kw_end4(source, 2, 'p' as u8, 'e' as u8, 'o' as u8, 'f' as u8))
        } else {
            MaybeKeyword::NoKeyword
        }
    } else if c == 'v' as u8 {
        MaybeKeyword::Expression(kw_end3(source, 1, 'o' as u8, 'i' as u8, 'd' as u8))
    } else if c == 'y' as u8 {
        MaybeKeyword::Expression(kw_end4(source, 1, 'i' as u8, 'e' as u8, 'l' as u8, 'd' as u8))
    } else if c == 'a' as u8 {
        MaybeKeyword::Expression(kw_end4(source, 1, 'w' as u8, 'a' as u8, 'i' as u8, 't' as u8))
    } else if c == 'w' as u8 {
        MaybeKeyword::Parenthesis(kw_end4(source, 1, 'h' as u8, 'i' as u8, 'l' as u8, 'e' as u8))
    } else if c == 'f' as u8 {
        MaybeKeyword::Parenthesis(kw_end2(source, 1, 'o' as u8, 'r' as u8))
    } else {
        MaybeKeyword::NoKeyword
    }
}

} // verus!
