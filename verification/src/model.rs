//! The mathematical model of the scan: a transition function over an abstract
//! scanner state, mirroring the executable scanner step for step.  Every
//! executable method of the scanner ensures that its effect equals the
//! corresponding function here, so the whole scan is a function of the source
//! text alone.
use vstd::prelude::*;
use vstd::utf8::{
    decode_first_scalar, decode_utf8, encode_scalar, is_scalar, length_of_first_scalar,
    valid_first_scalar, valid_utf8,
};
use crate::chars::{spec_is_identifier_char, spec_is_identifier_start};
use crate::utils::{
    spec_boundary_or_end, spec_bracket_close_code, spec_byte_at, spec_is_boundary, spec_is_br,
    spec_is_punctuator, spec_match_keyword, Bracket, MaybeKeyword, ParenthesisType,
};

verus! {

/// One recorded diagnostic: its kind, the offending character where there is
/// one, the byte offset where it was detected, and its message.
pub enum ErrorModel {
    UnexpectedEOF { pos: int, message: Seq<char> },
    UnexpectedEscapeCharacter { ch: char, pos: int, message: Seq<char> },
    UnexpectedUnicodeEscapeSequence { ch: char, pos: int, message: Seq<char> },
    UnexpectedBracket { ch: char, pos: int, message: Seq<char> },
    IncorrectClosingBracket { ch: char, pos: int, message: Seq<char> },
    UnterminatedRegExp { pos: int, message: Seq<char> },
}

/// The accumulated outcome of a scan: imports and exports in source order
/// with duplicates kept, at most one re-export (a later match replaces an
/// earlier one), and the diagnostics in order.
pub struct ResultModel {
    pub imports: Seq<Seq<char>>,
    pub exports: Seq<Seq<char>>,
    pub reexports: Seq<Seq<char>>,
    pub errors: Seq<ErrorModel>,
}

/// The scanner's whole mutable state: the cursor, the
/// expression-position flag, the pending parenthesis classification, the
/// context stack, and the result so far.
pub struct ScanState {
    pub pos: int,
    pub expect_expression: bool,
    pub paren: ParenthesisType,
    pub stack: Seq<Bracket>,
    pub res: ResultModel,
}

/// The state a fresh scanner starts in.
pub open spec fn init_state() -> ScanState {
    ScanState {
        pos: 0,
        expect_expression: true,
        paren: ParenthesisType::Plain,
        stack: Seq::empty(),
        res: ResultModel {
            imports: Seq::empty(),
            exports: Seq::empty(),
            reexports: Seq::empty(),
            errors: Seq::empty(),
        },
    }
}

/// The byte at offset `i`, or `None` past either end.
pub open spec fn at(src: Seq<u8>, i: int) -> Option<u8> {
    if 0 <= i < src.len() {
        Some(src[i])
    } else {
        None
    }
}

/// The source from offset `pos` on.
pub open spec fn suffix(src: Seq<u8>, pos: int) -> Seq<u8> {
    src.subrange(pos, src.len() as int)
}

/// Advance the cursor by `k` bytes, stopping at the end of the input.
pub open spec fn sadv(src: Seq<u8>, st: ScanState, k: int) -> ScanState {
    ScanState {
        pos: if st.pos + k <= src.len() {
            st.pos + k
        } else {
            src.len() as int
        },
        ..st
    }
}

pub open spec fn push_error(st: ScanState, e: ErrorModel) -> ScanState {
    ScanState { res: ResultModel { errors: st.res.errors.push(e), ..st.res }, ..st }
}

pub open spec fn push_export(st: ScanState, name: Seq<char>) -> ScanState {
    ScanState { res: ResultModel { exports: st.res.exports.push(name), ..st.res }, ..st }
}

pub open spec fn push_import(st: ScanState, name: Seq<char>) -> ScanState {
    ScanState { res: ResultModel { imports: st.res.imports.push(name), ..st.res }, ..st }
}

pub open spec fn set_reexports(st: ScanState, name: Seq<char>) -> ScanState {
    ScanState { res: ResultModel { reexports: seq![name], ..st.res }, ..st }
}

pub open spec fn msg_hex_expected() -> Seq<char> {
    "Unexpected character is found in unicode escaped sequence. Expected a hex characters. "@
}

pub open spec fn msg_legacy_octal() -> Seq<char> {
    "Sorry, LegacyOctalEscapeSequence is not supported. "@
}

pub open spec fn msg_nul_escape() -> Seq<char> {
    "Sorry, \0 in string literal is not supported. Inputs like `exports['\\0'] = 1` will be returned with the escape sequence as-is. "@
}

pub open spec fn msg_unterminated_regexp() -> Seq<char> {
    "The regular expression ends halfway with a line break."@
}

pub open spec fn msg_incorrect_closing() -> Seq<char> {
    "Expect to match a opening bracket, but found none. "@
}

pub open spec fn msg_unexpected_bracket() -> Seq<char> {
    "Expect to match a opening bracket, but found nothing. "@
}

pub open spec fn msg_unexpected_eof() -> Seq<char> {
    "Expect to find a bracket here, but encountered EOF"@
}

/// A cursor position that addresses the input or its end.
pub open spec fn wf_at(src: Seq<u8>, st: ScanState) -> bool {
    0 <= st.pos <= src.len()
}

/// A line comment: consume bytes until just past a line break, or to the end.
pub open spec fn scan_line_comment(src: Seq<u8>, st: ScanState) -> ScanState
    decreases src.len() - st.pos,
{
    if 0 <= st.pos < src.len() {
        let c = src[st.pos];
        let st1 = sadv(src, st, 1);
        if spec_is_br(c) {
            st1
        } else {
            scan_line_comment(src, st1)
        }
    } else {
        st
    }
}

pub proof fn lemma_line_comment_bounds(src: Seq<u8>, st: ScanState)
    requires
        wf_at(src, st),
    ensures
        ({
            let r = scan_line_comment(src, st);
            &&& st.pos <= r.pos <= src.len()
            &&& (st.pos < src.len() ==> st.pos < r.pos)
            &&& r.res == st.res
        }),
    decreases src.len() - st.pos,
{
    if 0 <= st.pos < src.len() {
        if !spec_is_br(src[st.pos]) {
            lemma_line_comment_bounds(src, sadv(src, st, 1));
        }
    }
}

/// The tail of a block comment: consume until just past `*/`, or to the end.
pub open spec fn scan_block_comment_tail(src: Seq<u8>, st: ScanState) -> ScanState
    decreases src.len() - st.pos,
{
    if 0 <= st.pos < src.len() {
        if at(src, st.pos) == Some('*' as u8) && at(src, st.pos + 1) == Some('/' as u8) {
            sadv(src, st, 2)
        } else {
            scan_block_comment_tail(src, sadv(src, st, 1))
        }
    } else {
        st
    }
}

/// A block comment, entered at the `/*`.
pub open spec fn scan_block_comment(src: Seq<u8>, st: ScanState) -> ScanState {
    scan_block_comment_tail(src, sadv(src, st, 2))
}

pub proof fn lemma_block_comment_bounds(src: Seq<u8>, st: ScanState)
    requires
        wf_at(src, st),
    ensures
        ({
            let r = scan_block_comment(src, st);
            &&& st.pos <= r.pos <= src.len()
            &&& (st.pos < src.len() ==> st.pos < r.pos)
            &&& r.res == st.res
        }),
{
    lemma_block_comment_tail_bounds(src, sadv(src, st, 2));
}

pub proof fn lemma_block_comment_tail_bounds(src: Seq<u8>, st: ScanState)
    requires
        wf_at(src, st),
    ensures
        ({
            let r = scan_block_comment_tail(src, st);
            &&& st.pos <= r.pos <= src.len()
            &&& r.res == st.res
        }),
    decreases src.len() - st.pos,
{
    if 0 <= st.pos < src.len() {
        if !(at(src, st.pos) == Some('*' as u8) && at(src, st.pos + 1) == Some('/' as u8)) {
            lemma_block_comment_tail_bounds(src, sadv(src, st, 1));
        }
    }
}

/// Plain whitespace and comments, skipped together: the scanner's notion of
/// the gap between two tokens.
pub open spec fn scan_comment_whitespace(src: Seq<u8>, st: ScanState) -> ScanState
    decreases src.len() - st.pos,
    when wf_at(src, st)
    via scan_comment_whitespace_dec
{
    if 0 <= st.pos < src.len() {
        let c = src[st.pos];
        if c == 9 || c == 11 || c == 12 || c == 32 || c == 13 || c == 10 {
            scan_comment_whitespace(src, sadv(src, st, 1))
        } else if c == '/' as u8 && at(src, st.pos + 1) == Some('/' as u8) {
            scan_comment_whitespace(src, scan_line_comment(src, st))
        } else if c == '/' as u8 && at(src, st.pos + 1) == Some('*' as u8) {
            scan_comment_whitespace(src, scan_block_comment(src, st))
        } else {
            st
        }
    } else {
        st
    }
}

#[via_fn]
proof fn scan_comment_whitespace_dec(src: Seq<u8>, st: ScanState) {
    if 0 <= st.pos < src.len() {
        lemma_line_comment_bounds(src, st);
        lemma_block_comment_bounds(src, st);
    }
}

/// A byte where `scan_comment_whitespace` consumes something: plain
/// whitespace, or the start of a comment.
pub open spec fn spec_is_gap_at(src: Seq<u8>, pos: int) -> bool {
    0 <= pos < src.len() && {
        let c = src[pos];
        ||| c == 9
        ||| c == 11
        ||| c == 12
        ||| c == 32
        ||| c == 13
        ||| c == 10
        ||| (c == '/' as u8 && (at(src, pos + 1) == Some('/' as u8) || at(src, pos + 1) == Some(
            '*' as u8,
        )))
    }
}

pub proof fn lemma_comment_whitespace_bounds(src: Seq<u8>, st: ScanState)
    requires
        wf_at(src, st),
    ensures
        ({
            let r = scan_comment_whitespace(src, st);
            &&& st.pos <= r.pos <= src.len()
            &&& (spec_is_gap_at(src, st.pos) ==> st.pos < r.pos)
            &&& r.res == st.res
        }),
    decreases src.len() - st.pos,
{
    if 0 <= st.pos < src.len() {
        let c = src[st.pos];
        if c == 9 || c == 11 || c == 12 || c == 32 || c == 13 || c == 10 {
            lemma_comment_whitespace_bounds(src, sadv(src, st, 1));
        } else if c == '/' as u8 && at(src, st.pos + 1) == Some('/' as u8) {
            lemma_line_comment_bounds(src, st);
            lemma_comment_whitespace_bounds(src, scan_line_comment(src, st));
        } else if c == '/' as u8 && at(src, st.pos + 1) == Some('*' as u8) {
            lemma_block_comment_bounds(src, st);
            lemma_comment_whitespace_bounds(src, scan_block_comment(src, st));
        }
    }
}

/// The tail of an identifier: decoded characters are appended while they may
/// continue an identifier.  Leaving at a character that cannot continue one
/// clears `expect_expression`; leaving at the end of the input does not.
pub open spec fn scan_identifier_tail(src: Seq<u8>, st: ScanState, acc: Seq<char>) -> (
    ScanState,
    Option<Seq<char>>,
)
    decreases src.len() - st.pos,
    when wf_at(src, st)
{
    let t = suffix(src, st.pos);
    if valid_first_scalar(t) {
        let c = decode_first_scalar(t) as char;
        if spec_is_identifier_char(c) {
            scan_identifier_tail(src, sadv(src, st, length_of_first_scalar(t)), acc.push(c))
        } else {
            (ScanState { expect_expression: false, ..st }, Some(acc))
        }
    } else if st.pos < src.len() {
        (ScanState { expect_expression: false, ..st }, Some(acc))
    } else {
        (st, Some(acc))
    }
}

/// An identifier at the cursor: a decoded start character (or a backslash),
/// then continuation characters.  Yields the decoded name, or nothing when no
/// identifier starts here.
pub open spec fn scan_identifier(src: Seq<u8>, st: ScanState) -> (ScanState, Option<Seq<char>>) {
    let t = suffix(src, st.pos);
    if !valid_first_scalar(t) {
        (st, None)
    } else {
        let c = decode_first_scalar(t) as char;
        if !spec_is_identifier_start(c) && c != '\\' {
            (st, None)
        } else {
            scan_identifier_tail(src, sadv(src, st, length_of_first_scalar(t)), seq![c])
        }
    }
}

pub proof fn lemma_identifier_tail_bounds(src: Seq<u8>, st: ScanState, acc: Seq<char>)
    requires
        wf_at(src, st),
    ensures
        ({
            let r = scan_identifier_tail(src, st, acc);
            &&& st.pos <= r.0.pos <= src.len()
            &&& r.0.res == st.res
        }),
    decreases src.len() - st.pos,
{
    let t = suffix(src, st.pos);
    if valid_first_scalar(t) {
        let c = decode_first_scalar(t) as char;
        if spec_is_identifier_char(c) {
            lemma_identifier_tail_bounds(
                src,
                sadv(src, st, length_of_first_scalar(t)),
                acc.push(c),
            );
        }
    }
}

pub proof fn lemma_identifier_bounds(src: Seq<u8>, st: ScanState)
    requires
        wf_at(src, st),
    ensures
        ({
            let r = scan_identifier(src, st);
            &&& st.pos <= r.0.pos <= src.len()
            &&& r.0.res == st.res
        }),
{
    let t = suffix(src, st.pos);
    if valid_first_scalar(t) {
        let c = decode_first_scalar(t) as char;
        if spec_is_identifier_start(c) || c == '\\' {
            lemma_identifier_tail_bounds(src, sadv(src, st, length_of_first_scalar(t)), seq![c]);
        }
    }
}

pub open spec fn spec_is_hex_digit(c: u8) -> bool {
    ||| '0' as u8 <= c <= '9' as u8
    ||| 'a' as u8 <= c <= 'f' as u8
    ||| 'A' as u8 <= c <= 'F' as u8
}

/// The numeric value of a hex digit byte.
pub open spec fn spec_hex_value(c: u8) -> u8 {
    if '0' as u8 <= c <= '9' as u8 {
        (c - '0' as u8) as u8
    } else if 'a' as u8 <= c <= 'f' as u8 {
        (c - 'a' as u8 + 10) as u8
    } else {
        (c - 'A' as u8 + 10) as u8
    }
}

/// One hex digit: consumed and valued when present.  When a non-hex byte is
/// found and a digit is required, a diagnostic is recorded at that byte.
pub open spec fn scan_hex_digit(src: Seq<u8>, st: ScanState, required: bool) -> (
    ScanState,
    Option<u8>,
) {
    match at(src, st.pos) {
        Some(c) => {
            if spec_is_hex_digit(c) {
                (sadv(src, st, 1), Some(spec_hex_value(c)))
            } else if required {
                (
                    push_error(
                        st,
                        ErrorModel::UnexpectedUnicodeEscapeSequence {
                            ch: c as char,
                            pos: st.pos,
                            message: msg_hex_expected(),
                        },
                    ),
                    None,
                )
            } else {
                (st, None)
            }
        },
        None => (st, None),
    }
}

/// Fold one more hex digit into an accumulated code point value, saturating
/// just above the greatest code point so an overflowing escape stays invalid.
pub open spec fn sat_hex(acc: u32, d: u8) -> u32 {
    if acc * 16 + d > 0x10FFFF {
        0x110000u32
    } else {
        (acc * 16 + d) as u32
    }
}

pub open spec fn scan_hex_tail(src: Seq<u8>, st: ScanState, acc: u32) -> (ScanState, Option<u32>)
    decreases src.len() - st.pos,
    when wf_at(src, st)
{
    let r = scan_hex_digit(src, st, false);
    match r.1 {
        None => (r.0, Some(acc)),
        Some(d) => scan_hex_tail(src, r.0, sat_hex(acc, d)),
    }
}

/// One or more hex digits, folded into a code point value.
pub open spec fn scan_hex_digits(src: Seq<u8>, st: ScanState) -> (ScanState, Option<u32>) {
    let r = scan_hex_digit(src, st, false);
    match r.1 {
        None => (r.0, None),
        Some(d) => scan_hex_tail(src, r.0, d as u32),
    }
}

pub proof fn lemma_hex_tail_bounds(src: Seq<u8>, st: ScanState, acc: u32)
    requires
        wf_at(src, st),
    ensures
        ({
            let r = scan_hex_tail(src, st, acc);
            &&& st.pos <= r.0.pos <= src.len()
            &&& r.0.res == st.res
        }),
    decreases src.len() - st.pos,
{
    let r = scan_hex_digit(src, st, false);
    if r.1 is Some {
        lemma_hex_tail_bounds(src, r.0, sat_hex(acc, r.1->0));
    }
}

pub proof fn lemma_hex_digits_bounds(src: Seq<u8>, st: ScanState)
    requires
        wf_at(src, st),
    ensures
        ({
            let r = scan_hex_digits(src, st);
            &&& st.pos <= r.0.pos <= src.len()
            &&& r.0.res == st.res
        }),
{
    let r = scan_hex_digit(src, st, false);
    if r.1 is Some {
        lemma_hex_tail_bounds(src, r.0, r.1->0 as u32);
    }
}

/// A unicode escape after the backslash: `u` followed by exactly four hex
/// digits, or `u{`, hex digits, `}`.  Yields the UTF-8 encoding of the named
/// code point; an escape that names no Unicode scalar fails.
pub open spec fn scan_unicode_escape(src: Seq<u8>, st: ScanState) -> (ScanState, Option<Seq<u8>>) {
    if at(src, st.pos) == Some('u' as u8) {
        let st1 = sadv(src, st, 1);
        if at(src, st1.pos) == Some('{' as u8) {
            let st2 = sadv(src, st1, 1);
            let hd = scan_hex_digits(src, st2);
            match hd.1 {
                None => (hd.0, None),
                Some(v) => {
                    if at(src, hd.0.pos) != Some('}' as u8) {
                        (hd.0, None)
                    } else {
                        let st4 = sadv(src, hd.0, 1);
                        if is_scalar(v) {
                            (st4, Some(encode_scalar(v)))
                        } else {
                            (st4, None)
                        }
                    }
                },
            }
        } else {
            let r1 = scan_hex_digit(src, st1, true);
            match r1.1 {
                None => (r1.0, None),
                Some(d1) => {
                    let r2 = scan_hex_digit(src, r1.0, true);
                    match r2.1 {
                        None => (r2.0, None),
                        Some(d2) => {
                            let r3 = scan_hex_digit(src, r2.0, true);
                            match r3.1 {
                                None => (r3.0, None),
                                Some(d3) => {
                                    let r4 = scan_hex_digit(src, r3.0, true);
                                    match r4.1 {
                                        None => (r4.0, None),
                                        Some(d4) => {
                                            let v = (d1 * 4096 + d2 * 256 + d3 * 16 + d4) as u32;
                                            if is_scalar(v) {
                                                (r4.0, Some(encode_scalar(v)))
                                            } else {
                                                (r4.0, None)
                                            }
                                        },
                                    }
                                },
                            }
                        },
                    }
                },
            }
        }
    } else {
        (st, None)
    }
}

pub proof fn lemma_unicode_escape_bounds(src: Seq<u8>, st: ScanState)
    requires
        wf_at(src, st),
    ensures
        ({
            let r = scan_unicode_escape(src, st);
            &&& st.pos <= r.0.pos <= src.len()
            &&& r.0.res.reexports == st.res.reexports
        }),
{
    if at(src, st.pos) == Some('u' as u8) {
        let st1 = sadv(src, st, 1);
        if at(src, st1.pos) == Some('{' as u8) {
            lemma_hex_digits_bounds(src, sadv(src, st1, 1));
        } else {
            let r1 = scan_hex_digit(src, st1, true);
            let r2 = scan_hex_digit(src, r1.0, true);
            let r3 = scan_hex_digit(src, r2.0, true);
            let r4 = scan_hex_digit(src, r3.0, true);
        }
    }
}

/// An escape sequence inside a string literal, at the backslash.  Yields the
/// bytes the escape stands for; a legacy octal escape records a diagnostic
/// and fails; `\0` records a diagnostic but keeps the two source bytes; a
/// backslash before a line feed is a line continuation with no output.
pub open spec fn scan_string_escape(src: Seq<u8>, st: ScanState) -> (ScanState, Option<Seq<u8>>) {
    if at(src, st.pos) == Some('\\' as u8) {
        let st1 = sadv(src, st, 1);
        match at(src, st1.pos) {
            None => (st1, None),
            Some(c) => {
                if c == '\\' as u8 {
                    (sadv(src, st1, 1), Some(seq!['\\' as u8]))
                } else if c == 'n' as u8 {
                    (sadv(src, st1, 1), Some(seq![10u8]))
                } else if c == 'r' as u8 {
                    (sadv(src, st1, 1), Some(seq![13u8]))
                } else if c == 't' as u8 {
                    (sadv(src, st1, 1), Some(seq![9u8]))
                } else if c == 'b' as u8 {
                    (sadv(src, st1, 1), Some(seq![8u8]))
                } else if c == 'v' as u8 {
                    (sadv(src, st1, 1), Some(seq![11u8]))
                } else if c == 'f' as u8 {
                    (sadv(src, st1, 1), Some(seq![12u8]))
                } else if c == 10 {
                    (sadv(src, st1, 1), Some(seq![]))
                } else if c == 13 {
                    let st2 = sadv(src, st1, 1);
                    if at(src, st2.pos) == Some(10u8) {
                        (sadv(src, st2, 1), Some(seq![13u8, 10u8]))
                    } else {
                        (st2, Some(seq![13u8]))
                    }
                } else if c == '0' as u8 {
                    match at(src, st1.pos + 1) {
                        Some(d) if '0' as u8 <= d <= '9' as u8 => (
                            push_error(
                                st1,
                                ErrorModel::UnexpectedEscapeCharacter {
                                    ch: '0',
                                    pos: st1.pos,
                                    message: msg_legacy_octal(),
                                },
                            ),
                            None,
                        ),
                        _ => (
                            sadv(
                                src,
                                push_error(
                                    st1,
                                    ErrorModel::UnexpectedEscapeCharacter {
                                        ch: '0',
                                        pos: st1.pos,
                                        message: msg_nul_escape(),
                                    },
                                ),
                                1,
                            ),
                            Some(seq!['\\' as u8, '0' as u8]),
                        ),
                    }
                } else if c == 'u' as u8 {
                    scan_unicode_escape(src, st1)
                } else {
                    (sadv(src, st1, 1), Some(seq![c]))
                }
            },
        }
    } else {
        (st, None)
    }
}

pub proof fn lemma_string_escape_bounds(src: Seq<u8>, st: ScanState)
    requires
        wf_at(src, st),
    ensures
        ({
            let r = scan_string_escape(src, st);
            &&& st.pos <= r.0.pos <= src.len()
            &&& (r.1 is Some ==> st.pos < r.0.pos)
            &&& r.0.res.reexports == st.res.reexports
        }),
{
    if at(src, st.pos) == Some('\\' as u8) {
        let st1 = sadv(src, st, 1);
        match at(src, st1.pos) {
            None => {},
            Some(c) => {
                if c == 'u' as u8 {
                    lemma_unicode_escape_bounds(src, st1);
                }
            },
        }
    }
}

/// The body of a string literal after the opening quote.  Content bytes and
/// escape outputs accumulate until the closing quote; a raw line break or a
/// failed escape ends the literal without a value.  At the closing quote the
/// collected bytes decode to the captured text (skip mode yields the empty
/// text).
pub open spec fn scan_string_tail(
    src: Seq<u8>,
    st: ScanState,
    quote: u8,
    skip: bool,
    acc: Seq<u8>,
) -> (ScanState, Option<Seq<char>>)
    decreases src.len() - st.pos,
    when wf_at(src, st)
    via scan_string_tail_dec
{
    if 0 <= st.pos < src.len() {
        let c = src[st.pos];
        if c == quote {
            let st1 = ScanState { expect_expression: false, ..sadv(src, st, 1) };
            if skip {
                (st1, Some(seq![]))
            } else if valid_utf8(acc) {
                (st1, Some(decode_utf8(acc)))
            } else {
                (st1, None)
            }
        } else if c == '\\' as u8 {
            let r = scan_string_escape(src, st);
            match r.1 {
                None => (r.0, None),
                Some(bs) => scan_string_tail(src, r.0, quote, skip, acc + bs),
            }
        } else if spec_is_br(c) {
            (st, None)
        } else {
            scan_string_tail(src, sadv(src, st, 1), quote, skip, acc.push(c))
        }
    } else {
        (st, None)
    }
}

#[via_fn]
proof fn scan_string_tail_dec(src: Seq<u8>, st: ScanState, quote: u8, skip: bool, acc: Seq<u8>) {
    if 0 <= st.pos < src.len() {
        lemma_string_escape_bounds(src, st);
    }
}

/// A string literal at the cursor, when a quote stands there.
pub open spec fn scan_string_literal(src: Seq<u8>, st: ScanState, skip: bool) -> (
    ScanState,
    Option<Seq<char>>,
) {
    match at(src, st.pos) {
        Some(q) => {
            if q == '\'' as u8 || q == '"' as u8 {
                scan_string_tail(src, sadv(src, st, 1), q, skip, seq![])
            } else {
                (st, None)
            }
        },
        None => (st, None),
    }
}

pub proof fn lemma_string_tail_bounds(src: Seq<u8>, st: ScanState, quote: u8, skip: bool, acc: Seq<u8>)
    requires
        wf_at(src, st),
    ensures
        ({
            let r = scan_string_tail(src, st, quote, skip, acc);
            &&& st.pos <= r.0.pos <= src.len()
            &&& r.0.res.reexports == st.res.reexports
        }),
    decreases src.len() - st.pos,
{
    if 0 <= st.pos < src.len() {
        let c = src[st.pos];
        if c == quote {
        } else if c == '\\' as u8 {
            lemma_string_escape_bounds(src, st);
            let r = scan_string_escape(src, st);
            if r.1 is Some {
                lemma_string_tail_bounds(src, r.0, quote, skip, acc + r.1->0);
            }
        } else if spec_is_br(c) {
        } else {
            lemma_string_tail_bounds(src, sadv(src, st, 1), quote, skip, acc.push(c));
        }
    }
}

pub proof fn lemma_string_literal_bounds(src: Seq<u8>, st: ScanState, skip: bool)
    requires
        wf_at(src, st),
    ensures
        ({
            let r = scan_string_literal(src, st, skip);
            &&& st.pos <= r.0.pos <= src.len()
            &&& ((at(src, st.pos) == Some('\'' as u8) || at(src, st.pos) == Some('"' as u8))
                ==> st.pos < r.0.pos)
            &&& r.0.res.reexports == st.res.reexports
        }),
{
    match at(src, st.pos) {
        Some(q) => {
            if q == '\'' as u8 || q == '"' as u8 {
                lemma_string_tail_bounds(src, sadv(src, st, 1), q, skip, seq![]);
            }
        },
        None => {},
    }
}

/// A number-shaped literal: digits, `_`, `.`, and ASCII letters, greedily.
/// It recognizes "a literal-shaped value sits here", not a numeric grammar.
pub open spec fn scan_number_tail(src: Seq<u8>, st: ScanState, acc: Seq<char>) -> (
    ScanState,
    Option<Seq<char>>,
)
    decreases src.len() - st.pos,
    when wf_at(src, st)
{
    if 0 <= st.pos < src.len() {
        let c = src[st.pos];
        if ('0' as u8 <= c <= '9' as u8) || c == '_' as u8 || c == '.' as u8 || ('a' as u8 <= c
            <= 'z' as u8) || ('A' as u8 <= c <= 'Z' as u8) {
            scan_number_tail(src, sadv(src, st, 1), acc.push(c as char))
        } else {
            (ScanState { expect_expression: false, ..st }, Some(acc))
        }
    } else {
        (st, None)
    }
}

pub open spec fn scan_number_literal(src: Seq<u8>, st: ScanState) -> (ScanState, Option<Seq<char>>) {
    match at(src, st.pos) {
        Some(c) => {
            if ('0' as u8 <= c <= '9' as u8) || c == '.' as u8 {
                scan_number_tail(src, st, seq![])
            } else {
                (st, None)
            }
        },
        None => (st, None),
    }
}

pub proof fn lemma_number_tail_bounds(src: Seq<u8>, st: ScanState, acc: Seq<char>)
    requires
        wf_at(src, st),
    ensures
        ({
            let r = scan_number_tail(src, st, acc);
            &&& st.pos <= r.0.pos <= src.len()
            &&& r.0.res == st.res
        }),
    decreases src.len() - st.pos,
{
    if 0 <= st.pos < src.len() {
        let c = src[st.pos];
        if ('0' as u8 <= c <= '9' as u8) || c == '_' as u8 || c == '.' as u8 || ('a' as u8 <= c
            <= 'z' as u8) || ('A' as u8 <= c <= 'Z' as u8) {
            lemma_number_tail_bounds(src, sadv(src, st, 1), acc.push(c as char));
        }
    }
}

pub proof fn lemma_number_literal_bounds(src: Seq<u8>, st: ScanState)
    requires
        wf_at(src, st),
    ensures
        ({
            let r = scan_number_literal(src, st);
            &&& st.pos <= r.0.pos <= src.len()
            &&& r.0.res == st.res
        }),
{
    match at(src, st.pos) {
        Some(c) => {
            if ('0' as u8 <= c <= '9' as u8) || c == '.' as u8 {
                lemma_number_tail_bounds(src, st, seq![]);
            }
        },
        None => {},
    }
}


/// A regular-expression literal's body after the opening slash: an unescaped
/// `/` outside a character class ends it; a line break before that records a
/// diagnostic anchored at the opening slash, after which the scan resumes.
pub open spec fn scan_regex_tail(
    src: Seq<u8>,
    st: ScanState,
    start: int,
    escaped: bool,
    in_class: bool,
) -> ScanState
    decreases src.len() - st.pos,
    when wf_at(src, st)
{
    if 0 <= st.pos < src.len() {
        let c = src[st.pos];
        let st1 = sadv(src, st, 1);
        if spec_is_br(c) {
            push_error(
                st1,
                ErrorModel::UnterminatedRegExp { pos: start, message: msg_unterminated_regexp() },
            )
        } else if escaped {
            scan_regex_tail(src, st1, start, false, in_class)
        } else {
            let in2 = if c == '[' as u8 {
                true
            } else if c == ']' as u8 && in_class {
                false
            } else {
                in_class
            };
            if c == '/' as u8 && !in_class {
                scan_identifier(src, st1).0
            } else {
                scan_regex_tail(src, st1, start, c == '\\' as u8, in2)
            }
        }
    } else {
        scan_identifier(src, st).0
    }
}

/// A regular-expression literal at the cursor, with its optional trailing
/// flags consumed and discarded.
pub open spec fn scan_regex_literal(src: Seq<u8>, st: ScanState) -> ScanState {
    if at(src, st.pos) == Some('/' as u8) {
        scan_regex_tail(src, sadv(src, st, 1), st.pos, false, false)
    } else {
        st
    }
}

pub proof fn lemma_regex_tail_bounds(
    src: Seq<u8>,
    st: ScanState,
    start: int,
    escaped: bool,
    in_class: bool,
)
    requires
        wf_at(src, st),
    ensures
        ({
            let r = scan_regex_tail(src, st, start, escaped, in_class);
            &&& st.pos <= r.pos <= src.len()
            &&& r.res.reexports == st.res.reexports
        }),
    decreases src.len() - st.pos,
{
    if 0 <= st.pos < src.len() {
        let c = src[st.pos];
        let st1 = sadv(src, st, 1);
        if spec_is_br(c) {
        } else if escaped {
            lemma_regex_tail_bounds(src, st1, start, false, in_class);
        } else {
            let in2 = if c == '[' as u8 {
                true
            } else if c == ']' as u8 && in_class {
                false
            } else {
                in_class
            };
            if c == '/' as u8 && !in_class {
                lemma_identifier_bounds(src, st1);
            } else {
                lemma_regex_tail_bounds(src, st1, start, c == '\\' as u8, in2);
            }
        }
    } else {
        lemma_identifier_bounds(src, st);
    }
}

pub proof fn lemma_regex_literal_bounds(src: Seq<u8>, st: ScanState)
    requires
        wf_at(src, st),
    ensures
        ({
            let r = scan_regex_literal(src, st);
            &&& st.pos <= r.pos <= src.len()
            &&& (at(src, st.pos) == Some('/' as u8) ==> st.pos < r.pos)
            &&& r.res.reexports == st.res.reexports
        }),
{
    if at(src, st.pos) == Some('/' as u8) {
        lemma_regex_tail_bounds(src, sadv(src, st, 1), st.pos, false, false);
    }
}

/// The verbatim part of a template literal: it ends at a backtick, skips the
/// byte after a backslash, and at `${` pushes a template-interpolation entry
/// and hands control back to the driver with `expect_expression` set.
pub open spec fn scan_template_tail(src: Seq<u8>, st: ScanState) -> ScanState
    decreases src.len() - st.pos,
    when wf_at(src, st)
{
    if 0 <= st.pos < src.len() {
        let c = src[st.pos];
        if c == '`' as u8 {
            ScanState { expect_expression: false, ..sadv(src, st, 1) }
        } else if c == '\\' as u8 {
            scan_template_tail(src, sadv(src, st, 2))
        } else if c == '$' as u8 && at(src, st.pos + 1) == Some('{' as u8) {
            ScanState {
                stack: st.stack.push(Bracket::TemplateBrace),
                expect_expression: true,
                ..sadv(src, st, 2)
            }
        } else {
            scan_template_tail(src, sadv(src, st, 1))
        }
    } else {
        st
    }
}

/// A template literal, entered at the backtick, or re-entered (`is_middle`)
/// right after the `}` that closed an interpolation.  On re-entry the
/// verbatim part resumes from the current position.
pub open spec fn scan_template_literal(src: Seq<u8>, st: ScanState, is_middle: bool) -> ScanState {
    if !is_middle && at(src, st.pos) != Some('`' as u8) {
        st
    } else if is_middle && at(src, st.pos) == Some('`' as u8) {
        ScanState { expect_expression: false, ..sadv(src, st, 1) }
    } else if is_middle {
        scan_template_tail(src, st)
    } else {
        scan_template_tail(src, sadv(src, st, 1))
    }
}

pub proof fn lemma_template_tail_bounds(src: Seq<u8>, st: ScanState)
    requires
        wf_at(src, st),
    ensures
        ({
            let r = scan_template_tail(src, st);
            &&& st.pos <= r.pos <= src.len()
            &&& (st.pos < src.len() ==> st.pos < r.pos)
            &&& r.res == st.res
        }),
    decreases src.len() - st.pos,
{
    if 0 <= st.pos < src.len() {
        let c = src[st.pos];
        if c == '`' as u8 {
        } else if c == '\\' as u8 {
            lemma_template_tail_bounds(src, sadv(src, st, 2));
        } else if c == '$' as u8 && at(src, st.pos + 1) == Some('{' as u8) {
        } else {
            lemma_template_tail_bounds(src, sadv(src, st, 1));
        }
    }
}

pub proof fn lemma_template_literal_bounds(src: Seq<u8>, st: ScanState, is_middle: bool)
    requires
        wf_at(src, st),
    ensures
        ({
            let r = scan_template_literal(src, st, is_middle);
            &&& st.pos <= r.pos <= src.len()
            &&& (is_middle || at(src, st.pos) == Some('`' as u8) ==> st.pos < r.pos || st.pos
                == src.len())
            &&& r.res == st.res
        }),
{
    if !is_middle && at(src, st.pos) != Some('`' as u8) {
    } else if is_middle && at(src, st.pos) == Some('`' as u8) {
    } else if is_middle {
        lemma_template_tail_bounds(src, st);
    } else {
        lemma_template_tail_bounds(src, sadv(src, st, 1));
    }
}

/// The byte before the cursor does not continue a token: the cursor is at the
/// start of the input, or a boundary byte stands just before it.
pub open spec fn spec_keyword_start(src: Seq<u8>, pos: int) -> bool {
    pos <= 0 || pos - 1 >= src.len() || spec_is_boundary(src[pos - 1])
}

/// A closing byte at the cursor against the context stack: an empty stack
/// records `UnexpectedBracket`, the byte still consumed; a mismatched top
/// records `IncorrectClosingBracket` and still discards the entry; a match
/// pops it, and `expect_expression` is set exactly when the entry was a
/// keyword parenthesis.
pub open spec fn scan_pop_bracket(src: Seq<u8>, st: ScanState) -> (ScanState, Option<Bracket>) {
    match at(src, st.pos) {
        None => (
            push_error(
                st,
                ErrorModel::UnexpectedEOF { pos: st.pos, message: msg_unexpected_eof() },
            ),
            None,
        ),
        Some(ch) => {
            let st1 = sadv(src, st, 1);
            if st.stack.len() == 0 {
                (
                    push_error(
                        st1,
                        ErrorModel::UnexpectedBracket {
                            ch: ch as char,
                            pos: st1.pos,
                            message: msg_unexpected_bracket(),
                        },
                    ),
                    None,
                )
            } else {
                let top = st.stack.last();
                let st2 = ScanState { stack: st.stack.drop_last(), ..st1 };
                if ch != spec_bracket_close_code(top) {
                    (
                        push_error(
                            st2,
                            ErrorModel::IncorrectClosingBracket {
                                ch: ch as char,
                                pos: st2.pos,
                                message: msg_incorrect_closing(),
                            },
                        ),
                        None,
                    )
                } else {
                    let ee = top is Parenthesis && top->Parenthesis_0 is ParenthesisKeyword;
                    (ScanState { expect_expression: ee, ..st2 }, Some(top))
                }
            }
        },
    }
}

/// The bytes of `exports` stand at `pos`.
pub open spec fn spec_at_exports(src: Seq<u8>, pos: int) -> bool {
    &&& spec_byte_at(src, pos, 'e' as u8)
    &&& spec_byte_at(src, pos + 1, 'x' as u8)
    &&& spec_byte_at(src, pos + 2, 'p' as u8)
    &&& spec_byte_at(src, pos + 3, 'o' as u8)
    &&& spec_byte_at(src, pos + 4, 'r' as u8)
    &&& spec_byte_at(src, pos + 5, 't' as u8)
    &&& spec_byte_at(src, pos + 6, 's' as u8)
}

/// The bytes of `require` stand at `pos`.
pub open spec fn spec_at_require(src: Seq<u8>, pos: int) -> bool {
    &&& spec_byte_at(src, pos, 'r' as u8)
    &&& spec_byte_at(src, pos + 1, 'e' as u8)
    &&& spec_byte_at(src, pos + 2, 'q' as u8)
    &&& spec_byte_at(src, pos + 3, 'u' as u8)
    &&& spec_byte_at(src, pos + 4, 'i' as u8)
    &&& spec_byte_at(src, pos + 5, 'r' as u8)
    &&& spec_byte_at(src, pos + 6, 'e' as u8)
}

/// The bytes of `module` stand at `pos`.
pub open spec fn spec_at_module(src: Seq<u8>, pos: int) -> bool {
    &&& spec_byte_at(src, pos, 'm' as u8)
    &&& spec_byte_at(src, pos + 1, 'o' as u8)
    &&& spec_byte_at(src, pos + 2, 'd' as u8)
    &&& spec_byte_at(src, pos + 3, 'u' as u8)
    &&& spec_byte_at(src, pos + 4, 'l' as u8)
    &&& spec_byte_at(src, pos + 5, 'e' as u8)
}

/// The `require(...)` detector: `require`, `(`, an optional gap, a captured
/// string literal, an optional gap, `)`.  Only full success records the
/// import and yields the captured text; any step failing aborts with no
/// import recorded.
pub open spec fn scan_require(src: Seq<u8>, st: ScanState) -> (ScanState, Option<Seq<char>>) {
    if spec_at_require(src, st.pos) {
        let st1 = scan_comment_whitespace(src, sadv(src, st, 7));
        if at(src, st1.pos) == Some('(' as u8) {
            let st2 = scan_comment_whitespace(src, sadv(src, st1, 1));
            let lit = scan_string_literal(src, st2, false);
            match lit.1 {
                None => (lit.0, None),
                Some(required) => {
                    let st4 = scan_comment_whitespace(src, lit.0);
                    if at(src, st4.pos) == Some(')' as u8) {
                        (
                            ScanState {
                                expect_expression: false,
                                ..sadv(src, push_import(st4, required), 1)
                            },
                            Some(required),
                        )
                    } else {
                        (st4, None)
                    }
                },
            }
        } else {
            (st1, None)
        }
    } else {
        (st, None)
    }
}

pub proof fn lemma_require_bounds(src: Seq<u8>, st: ScanState)
    requires
        wf_at(src, st),
    ensures
        ({
            let r = scan_require(src, st);
            &&& st.pos <= r.0.pos <= src.len()
            &&& (spec_at_require(src, st.pos) ==> st.pos + 7 <= r.0.pos)
            &&& r.0.res.reexports == st.res.reexports
        }),
{
    if spec_at_require(src, st.pos) {
        lemma_comment_whitespace_bounds(src, sadv(src, st, 7));
        let st1 = scan_comment_whitespace(src, sadv(src, st, 7));
        if at(src, st1.pos) == Some('(' as u8) {
            lemma_comment_whitespace_bounds(src, sadv(src, st1, 1));
            let st2 = scan_comment_whitespace(src, sadv(src, st1, 1));
            lemma_string_literal_bounds(src, st2, false);
            let lit = scan_string_literal(src, st2, false);
            match lit.1 {
                None => {},
                Some(required) => {
                    lemma_comment_whitespace_bounds(src, lit.0);
                },
            }
        }
    }
}

/// One property of an object-literal export block: an optional name with an
/// optional `:` value of identifier, string-literal or number shape.  A
/// recognized name is appended to the exports; a value of any other shape
/// aborts the whole enumeration, reverting the cursor.
pub open spec fn scan_literal_exports_prop(src: Seq<u8>, st: ScanState, revert: int) -> (
    ScanState,
    bool,
) {
    let r = scan_identifier(src, st);
    match r.1 {
        None => (r.0, true),
        Some(name) => {
            let st3 = scan_comment_whitespace(src, r.0);
            if at(src, st3.pos) == Some(':' as u8) {
                let st4 = scan_comment_whitespace(src, sadv(src, st3, 1));
                let v1 = scan_identifier(src, st4);
                if v1.1 is Some {
                    (push_export(v1.0, name), true)
                } else {
                    let v2 = scan_string_literal(src, v1.0, true);
                    if v2.1 is Some {
                        (push_export(v2.0, name), true)
                    } else {
                        let v3 = scan_number_literal(src, v2.0);
                        if v3.1 is Some {
                            (push_export(v3.0, name), true)
                        } else {
                            (ScanState { pos: revert, ..v3.0 }, false)
                        }
                    }
                }
            } else {
                (push_export(st3, name), true)
            }
        },
    }
}

pub proof fn lemma_literal_exports_prop_bounds(src: Seq<u8>, st: ScanState, revert: int)
    requires
        wf_at(src, st),
        0 <= revert <= src.len(),
    ensures
        ({
            let r = scan_literal_exports_prop(src, st, revert);
            &&& 0 <= r.0.pos <= src.len()
            &&& (r.1 ==> st.pos <= r.0.pos)
            &&& r.0.res.reexports == st.res.reexports
        }),
{
    lemma_identifier_bounds(src, st);
    let r = scan_identifier(src, st);
    match r.1 {
        None => {},
        Some(name) => {
            lemma_comment_whitespace_bounds(src, r.0);
            let st3 = scan_comment_whitespace(src, r.0);
            if at(src, st3.pos) == Some(':' as u8) {
                lemma_comment_whitespace_bounds(src, sadv(src, st3, 1));
                let st4 = scan_comment_whitespace(src, sadv(src, st3, 1));
                lemma_identifier_bounds(src, st4);
                let v1 = scan_identifier(src, st4);
                if v1.1 is None {
                    lemma_string_literal_bounds(src, v1.0, true);
                    let v2 = scan_string_literal(src, v1.0, true);
                    if v2.1 is None {
                        lemma_number_literal_bounds(src, v2.0);
                    }
                }
            }
        },
    }
}

/// The repeated part of an object-literal export block: properties separated
/// by commas; `}` ends it with `expect_expression` cleared; anything else
/// stops it silently, keeping the names collected so far.
pub open spec fn scan_literal_exports_tail(src: Seq<u8>, st: ScanState, revert: int) -> ScanState
    decreases src.len() - st.pos,
    when wf_at(src, st) && 0 <= revert <= src.len()
    via scan_literal_exports_tail_dec
{
    if 0 <= st.pos < src.len() {
        let st1 = scan_comment_whitespace(src, st);
        let p = scan_literal_exports_prop(src, st1, revert);
        if !p.1 {
            p.0
        } else {
            let st8 = scan_comment_whitespace(src, p.0);
            if at(src, st8.pos) == Some(',' as u8) {
                scan_literal_exports_tail(src, sadv(src, st8, 1), revert)
            } else if at(src, st8.pos) == Some('}' as u8) {
                ScanState { expect_expression: false, ..sadv(src, st8, 1) }
            } else {
                st8
            }
        }
    } else {
        st
    }
}

#[via_fn]
proof fn scan_literal_exports_tail_dec(src: Seq<u8>, st: ScanState, revert: int) {
    if 0 <= st.pos < src.len() {
        lemma_comment_whitespace_bounds(src, st);
        let st1 = scan_comment_whitespace(src, st);
        lemma_literal_exports_prop_bounds(src, st1, revert);
        let p = scan_literal_exports_prop(src, st1, revert);
        if p.1 {
            lemma_comment_whitespace_bounds(src, p.0);
        }
    }
}

/// The object-literal export enumeration of `module.exports = { ... }`,
/// entered at the `{`.
pub open spec fn scan_literal_exports(src: Seq<u8>, st: ScanState) -> ScanState {
    if at(src, st.pos) != Some('{' as u8) {
        st
    } else {
        scan_literal_exports_tail(src, sadv(src, st, 1), st.pos - 1)
    }
}

pub proof fn lemma_literal_exports_tail_bounds(src: Seq<u8>, st: ScanState, revert: int)
    requires
        wf_at(src, st),
        0 <= revert <= src.len(),
    ensures
        ({
            let r = scan_literal_exports_tail(src, st, revert);
            &&& 0 <= r.pos <= src.len()
            &&& (r.pos >= revert || r.pos >= st.pos)
            &&& r.res.reexports == st.res.reexports
        }),
    decreases src.len() - st.pos,
{
    if 0 <= st.pos < src.len() {
        lemma_comment_whitespace_bounds(src, st);
        let st1 = scan_comment_whitespace(src, st);
        lemma_literal_exports_prop_bounds(src, st1, revert);
        let p = scan_literal_exports_prop(src, st1, revert);
        if !p.1 {
        } else {
            lemma_comment_whitespace_bounds(src, p.0);
            let st8 = scan_comment_whitespace(src, p.0);
            if at(src, st8.pos) == Some(',' as u8) {
                lemma_literal_exports_tail_bounds(src, sadv(src, st8, 1), revert);
            }
        }
    }
}

pub proof fn lemma_literal_exports_bounds(src: Seq<u8>, st: ScanState)
    requires
        wf_at(src, st),
        st.pos >= 1,
    ensures
        ({
            let r = scan_literal_exports(src, st);
            &&& st.pos - 1 <= r.pos <= src.len()
            &&& r.res.reexports == st.res.reexports
        }),
{
    if at(src, st.pos) == Some('{' as u8) {
        lemma_literal_exports_tail_bounds(src, sadv(src, st, 1), st.pos - 1);
    }
}

/// The detector entered at a boundary-aligned `exports` (with `assign` set,
/// reached through `module.exports`).  `.name =` and `["name"] =` record an
/// export; with `assign`, a bare `=` delegates to the object-literal
/// enumeration or, before `require`, replaces the re-export.  Failed shapes
/// revert the cursor into the matched word so it is re-scanned.
pub open spec fn scan_exports_dot_assign(src: Seq<u8>, st: ScanState, assign: bool) -> ScanState {
    let st0 = sadv(src, st, 7);
    let revert = st0.pos - 1;
    let st1 = scan_comment_whitespace(src, st0);
    match at(src, st1.pos) {
        Some(c) => {
            if c == '.' as u8 {
                let st2 = scan_comment_whitespace(src, sadv(src, st1, 1));
                let r = scan_identifier(src, st2);
                let stx = match r.1 {
                    Some(name) => {
                        let st4 = scan_comment_whitespace(src, r.0);
                        if at(src, st4.pos) == Some('=' as u8) {
                            push_export(st4, name)
                        } else {
                            st4
                        }
                    },
                    None => r.0,
                };
                ScanState { pos: revert, ..stx }
            } else if c == '[' as u8 {
                let st2 = scan_comment_whitespace(src, sadv(src, st1, 1));
                let r = scan_string_literal(src, st2, false);
                match r.1 {
                    Some(key) => {
                        let st4 = scan_comment_whitespace(src, r.0);
                        if at(src, st4.pos) == Some(']' as u8) {
                            let st5 = scan_comment_whitespace(src, sadv(src, st4, 1));
                            if at(src, st5.pos) == Some('=' as u8) {
                                push_export(st5, key)
                            } else {
                                ScanState { pos: revert, ..st5 }
                            }
                        } else {
                            ScanState { pos: revert, ..st4 }
                        }
                    },
                    None => ScanState { pos: revert, ..r.0 },
                }
            } else if c == '=' as u8 && assign {
                let st2 = scan_comment_whitespace(src, sadv(src, st1, 1));
                if at(src, st2.pos) == Some('{' as u8) {
                    scan_literal_exports(src, st2)
                } else if at(src, st2.pos) == Some('r' as u8) {
                    let r = scan_require(src, st2);
                    match r.1 {
                        Some(module) => set_reexports(r.0, module),
                        None => ScanState { pos: revert, ..r.0 },
                    }
                } else {
                    ScanState { pos: revert, ..st2 }
                }
            } else {
                ScanState { pos: revert, ..st1 }
            }
        },
        None => ScanState { pos: revert, ..st1 },
    }
}

pub proof fn lemma_exports_dot_assign_bounds(src: Seq<u8>, st: ScanState, assign: bool)
    requires
        wf_at(src, st),
        st.pos + 7 <= src.len(),
    ensures
        ({
            let r = scan_exports_dot_assign(src, st, assign);
            &&& st.pos + 6 <= r.pos <= src.len()
            &&& (r.res.reexports == st.res.reexports || r.res.reexports.len() == 1)
        }),
{
    let st0 = sadv(src, st, 7);
    let revert = st0.pos - 1;
    lemma_comment_whitespace_bounds(src, st0);
    let st1 = scan_comment_whitespace(src, st0);
    match at(src, st1.pos) {
        Some(c) => {
            if c == '.' as u8 {
                lemma_comment_whitespace_bounds(src, sadv(src, st1, 1));
                let st2 = scan_comment_whitespace(src, sadv(src, st1, 1));
                lemma_identifier_bounds(src, st2);
                let r = scan_identifier(src, st2);
                match r.1 {
                    Some(name) => {
                        lemma_comment_whitespace_bounds(src, r.0);
                    },
                    None => {},
                }
            } else if c == '[' as u8 {
                lemma_comment_whitespace_bounds(src, sadv(src, st1, 1));
                let st2 = scan_comment_whitespace(src, sadv(src, st1, 1));
                lemma_string_literal_bounds(src, st2, false);
                let r = scan_string_literal(src, st2, false);
                match r.1 {
                    Some(key) => {
                        lemma_comment_whitespace_bounds(src, r.0);
                        let st4 = scan_comment_whitespace(src, r.0);
                        if at(src, st4.pos) == Some(']' as u8) {
                            lemma_comment_whitespace_bounds(src, sadv(src, st4, 1));
                        }
                    },
                    None => {},
                }
            } else if c == '=' as u8 && assign {
                lemma_comment_whitespace_bounds(src, sadv(src, st1, 1));
                let st2 = scan_comment_whitespace(src, sadv(src, st1, 1));
                if at(src, st2.pos) == Some('{' as u8) {
                    lemma_literal_exports_bounds(src, st2);
                } else if at(src, st2.pos) == Some('r' as u8) {
                    lemma_require_bounds(src, st2);
                }
            }
        },
        None => {},
    }
}

/// The detector entered at a boundary-aligned `module`: `.` then `exports`
/// delegates to the exports detector with bare assignment enabled; anything
/// else reverts into the word.
pub open spec fn scan_module_exports(src: Seq<u8>, st: ScanState) -> ScanState {
    let st0 = sadv(src, st, 6);
    let revert = st0.pos - 1;
    let st1 = scan_comment_whitespace(src, st0);
    if at(src, st1.pos) == Some('.' as u8) {
        let st2 = scan_comment_whitespace(src, sadv(src, st1, 1));
        if spec_at_exports(src, st2.pos) {
            scan_exports_dot_assign(src, st2, true)
        } else {
            ScanState { pos: revert, ..st2 }
        }
    } else {
        ScanState { pos: revert, ..st1 }
    }
}

pub proof fn lemma_module_exports_bounds(src: Seq<u8>, st: ScanState)
    requires
        wf_at(src, st),
        st.pos + 6 <= src.len(),
    ensures
        ({
            let r = scan_module_exports(src, st);
            &&& st.pos + 5 <= r.pos <= src.len()
            &&& (r.res.reexports == st.res.reexports || r.res.reexports.len() == 1)
        }),
{
    let st0 = sadv(src, st, 6);
    lemma_comment_whitespace_bounds(src, st0);
    let st1 = scan_comment_whitespace(src, st0);
    if at(src, st1.pos) == Some('.' as u8) {
        lemma_comment_whitespace_bounds(src, sadv(src, st1, 1));
        let st2 = scan_comment_whitespace(src, sadv(src, st1, 1));
        if spec_at_exports(src, st2.pos) {
            lemma_exports_dot_assign_bounds(src, st2, true);
        }
    }
}

/// The shebang line at the very start of the input, consumed through its
/// line break.
pub open spec fn scan_shebang_tail(src: Seq<u8>, st: ScanState) -> ScanState
    decreases src.len() - st.pos,
    when wf_at(src, st)
{
    if 0 <= st.pos < src.len() {
        let c = src[st.pos];
        let st1 = sadv(src, st, 1);
        if c == 10 || c == 13 {
            st1
        } else {
            scan_shebang_tail(src, st1)
        }
    } else {
        st
    }
}

pub open spec fn scan_shebang(src: Seq<u8>, st: ScanState) -> ScanState {
    if at(src, st.pos) == Some('#' as u8) && at(src, st.pos + 1) == Some('!' as u8) {
        scan_shebang_tail(src, st)
    } else {
        st
    }
}

/// One step of the driver at a byte: skip plain whitespace, or dispatch in
/// priority order to the detectors, the literal sub-scanners, comments, the
/// bracket rules, and the generic punctuator/character rules.
pub open spec fn scan_step(src: Seq<u8>, st: ScanState) -> ScanState
    recommends
        wf_at(src, st),
        st.pos < src.len(),
{
    let c = src[st.pos];
    if c == 32 || (8 < c && c < 14) {
        sadv(src, st, 1)
    } else if c == 'e' as u8 && spec_at_exports(src, st.pos) && spec_keyword_start(src, st.pos) {
        scan_exports_dot_assign(src, st, false)
    } else if c == 'r' as u8 && spec_at_require(src, st.pos) && spec_keyword_start(src, st.pos) {
        scan_require(src, st).0
    } else if (c == 'i' as u8 || c == 'w' as u8 || c == 'f' as u8 || c == 'c' as u8 || c
        == 'd' as u8 || c == 'e' as u8 || c == 'n' as u8 || c == 'r' as u8 || c == 't' as u8 || c
        == 'v' as u8 || c == 'y' as u8 || c == 'a' as u8) && spec_keyword_start(src, st.pos) {
        match spec_match_keyword(suffix(src, st.pos)) {
            MaybeKeyword::Expression(s) => {
                if s > 0 {
                    ScanState { expect_expression: true, ..sadv(src, st, s as int) }
                } else {
                    ScanState { expect_expression: false, ..sadv(src, st, 1) }
                }
            },
            MaybeKeyword::Parenthesis(s) => {
                if s > 0 {
                    ScanState {
                        expect_expression: false,
                        paren: ParenthesisType::ParenthesisKeyword,
                        ..sadv(src, st, s as int)
                    }
                } else {
                    ScanState { expect_expression: false, ..sadv(src, st, 1) }
                }
            },
            MaybeKeyword::NoKeyword => ScanState { expect_expression: false, ..sadv(src, st, 1) },
        }
    } else if c == '\'' as u8 || c == '"' as u8 {
        scan_string_literal(src, st, true).0
    } else if c == '`' as u8 {
        scan_template_literal(src, st, false)
    } else if c == 'm' as u8 && spec_at_module(src, st.pos) && spec_keyword_start(src, st.pos) {
        scan_module_exports(src, st)
    } else if c == '/' as u8 {
        if at(src, st.pos + 1) == Some('*' as u8) || at(src, st.pos + 1) == Some('/' as u8) {
            scan_comment_whitespace(src, st)
        } else if st.expect_expression {
            scan_regex_literal(src, st)
        } else {
            ScanState { expect_expression: true, ..sadv(src, st, 1) }
        }
    } else if c == '(' as u8 {
        ScanState {
            stack: st.stack.push(Bracket::Parenthesis(st.paren)),
            paren: if st.paren is ParenthesisKeyword {
                ParenthesisType::Plain
            } else {
                st.paren
            },
            expect_expression: true,
            ..sadv(src, st, 1)
        }
    } else if c == '[' as u8 {
        ScanState { stack: st.stack.push(Bracket::Bracket), expect_expression: true, ..sadv(src, st, 1) }
    } else if c == '{' as u8 {
        ScanState { stack: st.stack.push(Bracket::Brace), expect_expression: true, ..sadv(src, st, 1) }
    } else if c == ')' as u8 || c == ']' as u8 || c == '}' as u8 {
        let r = scan_pop_bracket(src, st);
        match r.1 {
            Some(b) => {
                if b is TemplateBrace {
                    scan_template_literal(src, r.0, true)
                } else {
                    r.0
                }
            },
            None => r.0,
        }
    } else if spec_is_punctuator(c) {
        ScanState {
            expect_expression: if c != '.' as u8 {
                true
            } else {
                st.expect_expression
            },
            ..sadv(src, st, 1)
        }
    } else {
        ScanState { expect_expression: false, ..sadv(src, st, 1) }
    }
}

pub proof fn lemma_step_bounds(src: Seq<u8>, st: ScanState)
    requires
        wf_at(src, st),
        st.pos < src.len(),
    ensures
        ({
            let r = scan_step(src, st);
            &&& st.pos < r.pos <= src.len()
            &&& (r.res.reexports == st.res.reexports || r.res.reexports.len() == 1)
        }),
{
    let c = src[st.pos];
    if c == 32 || (8 < c && c < 14) {
    } else if c == 'e' as u8 && spec_at_exports(src, st.pos) && spec_keyword_start(src, st.pos) {
        lemma_exports_dot_assign_bounds(src, st, false);
    } else if c == 'r' as u8 && spec_at_require(src, st.pos) && spec_keyword_start(src, st.pos) {
        lemma_require_bounds(src, st);
    } else if (c == 'i' as u8 || c == 'w' as u8 || c == 'f' as u8 || c == 'c' as u8 || c
        == 'd' as u8 || c == 'e' as u8 || c == 'n' as u8 || c == 'r' as u8 || c == 't' as u8 || c
        == 'v' as u8 || c == 'y' as u8 || c == 'a' as u8) && spec_keyword_start(src, st.pos) {
    } else if c == '\'' as u8 || c == '"' as u8 {
        lemma_string_literal_bounds(src, st, true);
    } else if c == '`' as u8 {
        lemma_template_literal_bounds(src, st, false);
    } else if c == 'm' as u8 && spec_at_module(src, st.pos) && spec_keyword_start(src, st.pos) {
        lemma_module_exports_bounds(src, st);
    } else if c == '/' as u8 {
        if at(src, st.pos + 1) == Some('*' as u8) || at(src, st.pos + 1) == Some('/' as u8) {
            lemma_comment_whitespace_bounds(src, st);
            lemma_line_comment_bounds(src, st);
            lemma_block_comment_bounds(src, st);
        } else if st.expect_expression {
            lemma_regex_literal_bounds(src, st);
        }
    } else if c == '(' as u8 || c == '[' as u8 || c == '{' as u8 {
    } else if c == ')' as u8 || c == ']' as u8 || c == '}' as u8 {
        let r = scan_pop_bracket(src, st);
        match r.1 {
            Some(b) => {
                if b is TemplateBrace {
                    lemma_template_literal_bounds(src, r.0, true);
                }
            },
            None => {},
        }
    } else {
    }
}

/// The driver's loop from the current state to the end of the input.  At the
/// end, a context entry still expecting its close records one
/// `UnexpectedEOF` diagnostic at the end position.
pub open spec fn scan_loop(src: Seq<u8>, st: ScanState) -> ScanState
    decreases src.len() - st.pos,
    when wf_at(src, st)
    via scan_loop_dec
{
    if st.pos < src.len() {
        scan_loop(src, scan_step(src, st))
    } else {
        if st.stack.len() > 0 {
            push_error(
                st,
                ErrorModel::UnexpectedEOF { pos: st.pos, message: msg_unexpected_eof() },
            )
        } else {
            st
        }
    }
}

#[via_fn]
proof fn scan_loop_dec(src: Seq<u8>, st: ScanState) {
    if st.pos < src.len() {
        lemma_step_bounds(src, st);
    }
}

/// A whole scan from a given starting state: the cursor returns to the
/// start, a shebang line is skipped, and the driver runs to the end.
pub open spec fn spec_parse(src: Seq<u8>, st: ScanState) -> ScanState {
    scan_loop(src, scan_shebang(src, ScanState { pos: 0, ..st }))
}

/// What one scan of a source yields, from a fresh scanner.
pub open spec fn scan_of(src: Seq<u8>) -> ResultModel {
    spec_parse(src, init_state()).res
}

pub proof fn lemma_shebang_tail_res(src: Seq<u8>, st: ScanState)
    requires
        wf_at(src, st),
    ensures
        ({
            let r = scan_shebang_tail(src, st);
            &&& st.pos <= r.pos <= src.len()
            &&& r.res == st.res
        }),
    decreases src.len() - st.pos,
{
    if 0 <= st.pos < src.len() {
        let c = src[st.pos];
        if !(c == 10 || c == 13) {
            lemma_shebang_tail_res(src, sadv(src, st, 1));
        }
    }
}

pub proof fn lemma_shebang_res(src: Seq<u8>, st: ScanState)
    requires
        wf_at(src, st),
    ensures
        ({
            let r = scan_shebang(src, st);
            &&& st.pos <= r.pos <= src.len()
            &&& r.res == st.res
        }),
{
    if at(src, st.pos) == Some('#' as u8) && at(src, st.pos + 1) == Some('!' as u8) {
        lemma_shebang_tail_res(src, st);
    }
}

pub proof fn lemma_scan_loop_reexports(src: Seq<u8>, st: ScanState)
    requires
        wf_at(src, st),
        st.res.reexports.len() <= 1,
    ensures
        scan_loop(src, st).res.reexports.len() <= 1,
    decreases src.len() - st.pos,
{
    if st.pos < src.len() {
        lemma_step_bounds(src, st);
        lemma_scan_loop_reexports(src, scan_step(src, st));
    }
}

/// At most one re-export is ever reported: `module.exports = require(...)`
/// replaces any earlier re-export rather than appending to it, so a whole
/// scan yields zero or one re-exported module name.
pub proof fn lemma_reexports_at_most_one(src: Seq<u8>)
    ensures
        scan_of(src).reexports.len() <= 1,
{
    let st0 = ScanState { pos: 0, ..init_state() };
    lemma_shebang_res(src, st0);
    lemma_scan_loop_reexports(src, scan_shebang(src, st0));
}

/// Determinism: what a scan yields is a function of the source text alone,
/// so two scans of equal sources agree in every part of their outcome.
/// Together with `Parser::parse`'s contract -- a fresh scanner's result is
/// `scan_of` of its source -- and the termination measure on every loop of
/// the scan, this states that a scan always returns, and that running it
/// twice on identical input yields identical output.
pub proof fn lemma_scan_deterministic(s1: Seq<u8>, s2: Seq<u8>)
    requires
        s1 == s2,
    ensures
        scan_of(s1) == scan_of(s2),
{
}

} // verus!
