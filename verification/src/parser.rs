//! The scanner itself: a cursor over the source bytes, the literal
//! sub-scanners, the speculative export/import detectors, and the driving
//! scan loop.  Each method's contract states that its effect on the scanner
//! equals the corresponding transition function of `crate::model`.
use vstd::prelude::*;
use vstd::slice::slice_subrange;
use vstd::utf8::is_scalar;
use crate::chars::{
    decode_scalar_at, encode_scalar_vec, is_identifier_char, is_identifier_start, push_char,
    string_from_utf8,
};
use crate::model::{
    at, init_state, push_error, push_export, push_import, sadv, scan_block_comment,
    scan_block_comment_tail, scan_comment_whitespace, scan_exports_dot_assign, scan_hex_digit,
    scan_hex_digits, scan_hex_tail, scan_identifier, scan_identifier_tail, scan_line_comment,
    scan_literal_exports, scan_literal_exports_prop, scan_literal_exports_tail, scan_loop,
    scan_module_exports, scan_number_literal, scan_number_tail, scan_of, scan_pop_bracket,
    scan_regex_literal, scan_regex_tail, scan_require, scan_shebang, scan_shebang_tail,
    scan_step, scan_string_escape, scan_string_literal, scan_string_tail, scan_template_literal,
    scan_template_tail, scan_unicode_escape, set_reexports, spec_at_exports, spec_at_module,
    spec_at_require, spec_keyword_start, spec_parse, ErrorModel, ResultModel, ScanState,
};
use crate::model::{
    lemma_block_comment_bounds, lemma_comment_whitespace_bounds, lemma_line_comment_bounds,
    lemma_literal_exports_prop_bounds, lemma_step_bounds, lemma_string_escape_bounds,
};
use crate::utils::{
    get_bracket_close_code, is_br, is_br_or_ws_or_puntuator_not_dot, is_punctuator,
    match_keyword, Bracket, MaybeKeyword, ParenthesisType,
};

verus! {

broadcast use vstd::utf8::char_u32_cast;

/// What a scan reports: the modules required, the names exported, at most
/// one re-exported module, and the diagnostics met on the way.
#[derive(Clone, Debug, Eq, PartialEq)]
pub struct ParseResult {
    pub imports: Vec<String>,
    pub exports: Vec<String>,
    pub reexports: Vec<String>,
    pub errors: Vec<ParseError>,
}

/// Where a diagnostic was detected, and its message.
#[derive(Clone, Debug, Eq, PartialEq)]
pub struct ParseErrorMessage {
    pub pos: usize,
    pub message: String,
}

/// A diagnostic, tagged by kind; none of them aborts a scan.
#[derive(Clone, Debug, Eq, PartialEq)]
pub enum ParseError {
    UnexpectedEOF(ParseErrorMessage),
    UnexpectedEscapeCharacter(char, ParseErrorMessage),
    UnexpectedUnicodeEscapeSequence(char, ParseErrorMessage),
    UnexpectedBracket(char, ParseErrorMessage),
    IncorrectClosingBracket(char, ParseErrorMessage),
    UnterminatedRegExp(ParseErrorMessage),
}

impl View for ParseError {
    type V = ErrorModel;

    open spec fn view(&self) -> ErrorModel {
        match self {
            ParseError::UnexpectedEOF(m) => ErrorModel::UnexpectedEOF {
                pos: m.pos as int,
                message: m.message@,
            },
            ParseError::UnexpectedEscapeCharacter(c, m) => ErrorModel::UnexpectedEscapeCharacter {
                ch: *c,
                pos: m.pos as int,
                message: m.message@,
            },
            ParseError::UnexpectedUnicodeEscapeSequence(
                c,
                m,
            ) => ErrorModel::UnexpectedUnicodeEscapeSequence {
                ch: *c,
                pos: m.pos as int,
                message: m.message@,
            },
            ParseError::UnexpectedBracket(c, m) => ErrorModel::UnexpectedBracket {
                ch: *c,
                pos: m.pos as int,
                message: m.message@,
            },
            ParseError::IncorrectClosingBracket(c, m) => ErrorModel::IncorrectClosingBracket {
                ch: *c,
                pos: m.pos as int,
                message: m.message@,
            },
            ParseError::UnterminatedRegExp(m) => ErrorModel::UnterminatedRegExp {
                pos: m.pos as int,
                message: m.message@,
            },
        }
    }
}

impl DeepView for ParseError {
    type V = ErrorModel;

    open spec fn deep_view(&self) -> ErrorModel {
        self.view()
    }
}

impl View for ParseResult {
    type V = ResultModel;

    open spec fn view(&self) -> ResultModel {
        ResultModel {
            imports: self.imports.deep_view(),
            exports: self.exports.deep_view(),
            reexports: self.reexports.deep_view(),
            errors: self.errors.deep_view(),
        }
    }
}

/// The scanner: it borrows the source bytes for one scan, never mutates
/// them, and owns everything else it touches.
pub struct Parser<'a> {
    pub source: &'a [u8],
    pub pos: usize,
    pub filename: &'a str,
    pub open_token_depth: usize,
    pub parse_result: ParseResult,
    pub bracket_stack: Vec<Bracket>,
    pub parenthesis_type: ParenthesisType,
    pub expect_expression: bool,
}

impl<'a> View for Parser<'a> {
    type V = ScanState;

    open spec fn view(&self) -> ScanState {
        ScanState {
            pos: self.pos as int,
            expect_expression: self.expect_expression,
            paren: self.parenthesis_type,
            stack: self.bracket_stack@,
            res: self.parse_result@,
        }
    }
}

impl<'a> Parser<'a> {
    /// The cursor addresses the input or its end.
    pub open spec fn wf(&self) -> bool {
        self.pos <= self.source@.len()
    }

    /// The borrowed buffers are the same ones.
    pub open spec fn same_source(&self, other: &Self) -> bool {
        self.source@ == other.source@ && self.filename@ == other.filename@
    }

    /// A fresh scanner over one source text; the label is kept only for
    /// diagnostic attribution.
    pub fn new(source_str: &'a str, filename: &'a str) -> (p: Parser<'a>)
        ensures
            p.wf(),
            p.source@ == vstd::utf8::encode_utf8(source_str@),
            p.filename@ == filename@,
            p@ == init_state(),
            p.open_token_depth == 0,
    {
        let p = Parser {
            source: source_str.as_bytes(),
            pos: 0,
            filename,
            open_token_depth: 0,
            parse_result: ParseResult {
                imports: Vec::new(),
                exports: Vec::new(),
                reexports: Vec::new(),
                errors: Vec::new(),
            },
            bracket_stack: Vec::new(),
            parenthesis_type: ParenthesisType::Plain,
            expect_expression: true,
        };
        proof {
            assert(p.parse_result.imports.deep_view() =~= Seq::<Seq<char>>::empty());
            assert(p.parse_result.exports.deep_view() =~= Seq::<Seq<char>>::empty());
            assert(p.parse_result.reexports.deep_view() =~= Seq::<Seq<char>>::empty());
            assert(p.parse_result.errors.deep_view() =~= Seq::<ErrorModel>::empty());
            assert(p@ == init_state());
        }
        p
    }

    /// The cursor has reached the end of the input.
    pub fn is_end(&self) -> (r: bool)
        ensures
            r == (self@.pos >= self.source@.len()),
    {
        self.pos >= self.source.len()
    }

    /// The byte at the cursor, or `None` at the end.
    fn cur(&self) -> (r: Option<u8>)
        ensures
            r == at(self.source@, self@.pos),
    {
        match self.source.get(self.pos) {
            Some(c) => Some(*c),
            None => None,
        }
    }

    /// The byte `k` places past the cursor, or `None` past the end.
    fn peek(&self, k: usize) -> (r: Option<u8>)
        requires
            self.wf(),
        ensures
            r == at(self.source@, self@.pos + k),
    {
        let rem = self.source.len() - self.pos;
        if k < rem {
            Some(self.source[self.pos + k])
        } else {
            None
        }
    }

    /// The byte `k` places past the cursor exists and equals `c`.
    fn peek_is(&self, k: usize, c: u8) -> (r: bool)
        requires
            self.wf(),
        ensures
            r == (at(self.source@, self@.pos + k) == Some(c)),
    {
        match self.peek(k) {
            Some(x) => x == c,
            None => false,
        }
    }

    /// Advance by `offset` bytes, stopping at the end of the input.
    fn next_offset(&mut self, offset: usize)
        requires
            old(self).wf(),
        ensures
            final(self).wf(),
            final(self).same_source(old(self)),
            final(self)@ == sadv(old(self).source@, old(self)@, offset as int),
            final(self).filename == old(self).filename,
            final(self).source == old(self).source,
            final(self).open_token_depth == old(self).open_token_depth,
    {
        let rem = self.source.len() - self.pos;
        if offset <= rem {
            self.pos = self.pos + offset;
        } else {
            self.pos = self.source.len();
        }
    }

    fn next(&mut self)
        requires
            old(self).wf(),
        ensures
            final(self).wf(),
            final(self).same_source(old(self)),
            final(self)@ == sadv(old(self).source@, old(self)@, 1),
            final(self).filename == old(self).filename,
            final(self).source == old(self).source,
            final(self).open_token_depth == old(self).open_token_depth,
    {
        self.next_offset(1);
    }

    /// The byte just before the cursor does not continue a token.
    fn keyword_start(&self) -> (r: bool)
        requires
            self.wf(),
        ensures
            r == spec_keyword_start(self.source@, self@.pos),
    {
        if self.pos >= 1 {
            match self.source.get(self.pos - 1) {
                Some(c) => is_br_or_ws_or_puntuator_not_dot(*c),
                None => true,
            }
        } else {
            true
        }
    }

    fn line_comment(&mut self)
        requires
            old(self).wf(),
        ensures
            final(self).wf(),
            final(self).same_source(old(self)),
            final(self)@ == scan_line_comment(old(self).source@, old(self)@),
            final(self).filename == old(self).filename,
            final(self).source == old(self).source,
            final(self).open_token_depth == old(self).open_token_depth,
        decreases old(self).source@.len() - old(self).pos,
    {
        match self.cur() {
            Some(c) => {
                self.next();
                if is_br(c) {
                } else {
                    self.line_comment();
                }
            },
            None => {},
        }
    }

    fn block_comment_tail(&mut self)
        requires
            old(self).wf(),
        ensures
            final(self).wf(),
            final(self).same_source(old(self)),
            final(self)@ == scan_block_comment_tail(old(self).source@, old(self)@),
            final(self).filename == old(self).filename,
            final(self).source == old(self).source,
            final(self).open_token_depth == old(self).open_token_depth,
        decreases old(self).source@.len() - old(self).pos,
    {
        match self.cur() {
            Some(_) => {
                if self.peek_is(0, '*' as u8) && self.peek_is(1, '/' as u8) {
                    self.next_offset(2);
                } else {
                    self.next();
                    self.block_comment_tail();
                }
            },
            None => {},
        }
    }

    fn block_comment(&mut self)
        requires
            old(self).wf(),
        ensures
            final(self).wf(),
            final(self).same_source(old(self)),
            final(self)@ == scan_block_comment(old(self).source@, old(self)@),
            final(self).filename == old(self).filename,
            final(self).source == old(self).source,
            final(self).open_token_depth == old(self).open_token_depth,
    {
        self.next_offset(2);
        self.block_comment_tail();
    }

    fn comment_whitespace(&mut self)
        requires
            old(self).wf(),
        ensures
            final(self).wf(),
            final(self).same_source(old(self)),
            final(self)@ == scan_comment_whitespace(old(self).source@, old(self)@),
            old(self).pos <= final(self).pos,
            final(self).filename == old(self).filename,
            final(self).source == old(self).source,
            final(self).open_token_depth == old(self).open_token_depth,
        decreases old(self).source@.len() - old(self).pos,
    {
        proof {
            lemma_comment_whitespace_bounds(old(self).source@, old(self)@);
        }
        match self.cur() {
            Some(c) => {
                if c == 9 || c == 11 || c == 12 || c == 32 || c == 13 || c == 10 {
                    self.next();
                    self.comment_whitespace();
                } else if c == '/' as u8 && self.peek_is(1, '/' as u8) {
                    proof {
                        lemma_line_comment_bounds(old(self).source@, old(self)@);
                    }
                    self.line_comment();
                    self.comment_whitespace();
                } else if c == '/' as u8 && self.peek_is(1, '*' as u8) {
                    proof {
                        lemma_block_comment_bounds(old(self).source@, old(self)@);
                    }
                    self.block_comment();
                    self.comment_whitespace();
                }
            },
            None => {},
        }
    }

    /// Record one diagnostic; the scan goes on.
    fn push_err(&mut self, e: ParseError)
        requires
            old(self).wf(),
        ensures
            final(self).wf(),
            final(self).same_source(old(self)),
            final(self)@ == push_error(old(self)@, e@),
            final(self).filename == old(self).filename,
            final(self).source == old(self).source,
            final(self).open_token_depth == old(self).open_token_depth,
    {
        let ghost ev = e@;
        self.parse_result.errors.push(e);
        proof {
            assert(self.parse_result.errors.deep_view() =~= old(
                self,
            ).parse_result.errors.deep_view().push(ev));
            assert(self@ == push_error(old(self)@, ev));
        }
    }

    /// Record one export name, in source order.
    fn push_export_val(&mut self, name: String)
        requires
            old(self).wf(),
        ensures
            final(self).wf(),
            final(self).same_source(old(self)),
            final(self)@ == push_export(old(self)@, name@),
            final(self).filename == old(self).filename,
            final(self).source == old(self).source,
            final(self).open_token_depth == old(self).open_token_depth,
    {
        let ghost n = name@;
        self.parse_result.exports.push(name);
        proof {
            assert(self.parse_result.exports.deep_view() =~= old(
                self,
            ).parse_result.exports.deep_view().push(n));
            assert(self@ == push_export(old(self)@, n));
        }
    }

    /// Record one required module, in source order.
    fn push_import_val(&mut self, name: String)
        requires
            old(self).wf(),
        ensures
            final(self).wf(),
            final(self).same_source(old(self)),
            final(self)@ == push_import(old(self)@, name@),
            final(self).filename == old(self).filename,
            final(self).source == old(self).source,
            final(self).open_token_depth == old(self).open_token_depth,
    {
        let ghost n = name@;
        self.parse_result.imports.push(name);
        proof {
            assert(self.parse_result.imports.deep_view() =~= old(
                self,
            ).parse_result.imports.deep_view().push(n));
            assert(self@ == push_import(old(self)@, n));
        }
    }

    /// An identifier at the cursor, decoded; or nothing, leaving the cursor
    /// in place.
    fn identifer(&mut self) -> (r: Option<String>)
        requires
            old(self).wf(),
        ensures
            final(self).wf(),
            final(self).same_source(old(self)),
            final(self).filename == old(self).filename,
            final(self).source == old(self).source,
            final(self).open_token_depth == old(self).open_token_depth,
            ({
                let m = scan_identifier(old(self).source@, old(self)@);
                &&& final(self)@ == m.0
                &&& (r is Some <==> m.1 is Some)
                &&& (r matches Some(s) ==> m.1 == Some(s@))
            }),
            old(self).pos <= final(self).pos,
    {
        proof {
            crate::model::lemma_identifier_bounds(old(self).source@, old(self)@);
        }
        match decode_scalar_at(self.source, self.pos) {
            None => None,
            Some((cp, w)) => {
                let c = char::from_u32(cp).unwrap();
                proof {
                    vstd::utf8::char_u32_cast(c, cp);
                }
                if !is_identifier_start(c) && c != '\\' {
                    None
                } else {
                    let mut acc = String::new();
                    push_char(&mut acc, c);
                    proof {
                        assert(acc@ =~= seq![c]);
                    }
                    self.next_offset(w);
                    self.identifer_tail(acc)
                }
            },
        }
    }

    fn identifer_tail(&mut self, acc: String) -> (r: Option<String>)
        requires
            old(self).wf(),
        ensures
            final(self).wf(),
            final(self).same_source(old(self)),
            final(self).filename == old(self).filename,
            final(self).source == old(self).source,
            final(self).open_token_depth == old(self).open_token_depth,
            ({
                let m = scan_identifier_tail(old(self).source@, old(self)@, acc@);
                &&& final(self)@ == m.0
                &&& (r is Some <==> m.1 is Some)
                &&& (r matches Some(s) ==> m.1 == Some(s@))
            }),
        decreases old(self).source@.len() - old(self).pos,
    {
        match decode_scalar_at(self.source, self.pos) {
            Some((cp, w)) => {
                let c = char::from_u32(cp).unwrap();
                proof {
                    vstd::utf8::char_u32_cast(c, cp);
                }
                if is_identifier_char(c) {
                    let mut acc2 = acc;
                    push_char(&mut acc2, c);
                    self.next_offset(w);
                    self.identifer_tail(acc2)
                } else {
                    self.expect_expression = false;
                    Some(acc)
                }
            },
            None => {
                if self.pos < self.source.len() {
                    self.expect_expression = false;
                    Some(acc)
                } else {
                    Some(acc)
                }
            },
        }
    }

    /// One hex digit's value, when one stands at the cursor.
    fn hex_digit(&mut self, required: bool) -> (r: Option<u8>)
        requires
            old(self).wf(),
        ensures
            final(self).wf(),
            final(self).same_source(old(self)),
            final(self).filename == old(self).filename,
            final(self).source == old(self).source,
            final(self).open_token_depth == old(self).open_token_depth,
            ({
                let m = scan_hex_digit(old(self).source@, old(self)@, required);
                &&& final(self)@ == m.0
                &&& r == m.1
            }),
    {
        match self.cur() {
            Some(c) => {
                if ('0' as u8) <= c && c <= ('9' as u8) {
                    self.next();
                    Some(c - ('0' as u8))
                } else if ('a' as u8) <= c && c <= ('f' as u8) {
                    self.next();
                    Some(c - ('a' as u8) + 10)
                } else if ('A' as u8) <= c && c <= ('F' as u8) {
                    self.next();
                    Some(c - ('A' as u8) + 10)
                } else if required {
                    self.push_err(
                        ParseError::UnexpectedUnicodeEscapeSequence(
                            c as char,
                            ParseErrorMessage {
                                pos: self.pos,
                                message:
                                    "Unexpected character is found in unicode escaped sequence. Expected a hex characters. ".to_owned(),
                            },
                        ),
                    );
                    None
                } else {
                    None
                }
            },
            None => None,
        }
    }

    fn hex_tail(&mut self, acc: u32) -> (r: Option<u32>)
        requires
            old(self).wf(),
            acc <= 0x110000,
        ensures
            final(self).wf(),
            final(self).same_source(old(self)),
            final(self).filename == old(self).filename,
            final(self).source == old(self).source,
            final(self).open_token_depth == old(self).open_token_depth,
            ({
                let m = scan_hex_tail(old(self).source@, old(self)@, acc);
                &&& final(self)@ == m.0
                &&& r == m.1
            }),
        decreases old(self).source@.len() - old(self).pos,
    {
        match self.hex_digit(false) {
            None => Some(acc),
            Some(d) => {
                let next_acc: u32 = if acc * 16 + (d as u32) > 0x10FFFF {
                    0x110000
                } else {
                    acc * 16 + (d as u32)
                };
                self.hex_tail(next_acc)
            },
        }
    }

    /// One or more hex digits, folded into a code point value.
    fn hex_digits(&mut self) -> (r: Option<u32>)
        requires
            old(self).wf(),
        ensures
            final(self).wf(),
            final(self).same_source(old(self)),
            final(self).filename == old(self).filename,
            final(self).source == old(self).source,
            final(self).open_token_depth == old(self).open_token_depth,
            ({
                let m = scan_hex_digits(old(self).source@, old(self)@);
                &&& final(self)@ == m.0
                &&& r == m.1
            }),
    {
        match self.hex_digit(false) {
            None => None,
            Some(d) => self.hex_tail(d as u32),
        }
    }

    /// A unicode escape at the `u`: four hex digits, or `{`, digits, `}`.
    /// Yields the UTF-8 bytes of the named code point.
    #[verifier::rlimit(100)]
    fn unicode_escape_sequence(&mut self) -> (r: Option<Vec<u8>>)
        requires
            old(self).wf(),
        ensures
            final(self).wf(),
            final(self).same_source(old(self)),
            final(self).filename == old(self).filename,
            final(self).source == old(self).source,
            final(self).open_token_depth == old(self).open_token_depth,
            ({
                let m = scan_unicode_escape(old(self).source@, old(self)@);
                &&& final(self)@ == m.0
                &&& (r is Some <==> m.1 is Some)
                &&& (r matches Some(v) ==> m.1 == Some(v@))
            }),
    {
        if self.peek_is(0, 'u' as u8) {
            self.next();
            if self.peek_is(0, '{' as u8) {
                self.next();
                match self.hex_digits() {
                    None => None,
                    Some(v) => {
                        if !self.peek_is(0, '}' as u8) {
                            None
                        } else {
                            self.next();
                            if v <= 0x10FFFF && !(0xD800 <= v && v <= 0xDFFF) {
                                proof {
                                    assert(is_scalar(v));
                                }
                                Some(encode_scalar_vec(v))
                            } else {
                                proof {
                                    assert(!is_scalar(v));
                                }
                                None
                            }
                        }
                    },
                }
            } else {
                let d1 = match self.hex_digit(true) {
                    Some(d) => d,
                    None => {
                        return None;
                    },
                };
                let d2 = match self.hex_digit(true) {
                    Some(d) => d,
                    None => {
                        return None;
                    },
                };
                let d3 = match self.hex_digit(true) {
                    Some(d) => d,
                    None => {
                        return None;
                    },
                };
                let d4 = match self.hex_digit(true) {
                    Some(d) => d,
                    None => {
                        return None;
                    },
                };
                let v: u32 = (d1 as u32) * 4096 + (d2 as u32) * 256 + (d3 as u32) * 16 + (
                d4 as u32);
                if v <= 0x10FFFF && !(0xD800 <= v && v <= 0xDFFF) {
                    proof {
                        assert(is_scalar(v));
                    }
                    Some(encode_scalar_vec(v))
                } else {
                    proof {
                        assert(!is_scalar(v));
                    }
                    None
                }
            }
        } else {
            None
        }
    }

    /// An escape sequence at the backslash: the bytes it stands for, or
    /// nothing when the escape (and with it the literal) fails.
    fn string_escape_sequence(&mut self) -> (r: Option<Vec<u8>>)
        requires
            old(self).wf(),
        ensures
            final(self).wf(),
            final(self).same_source(old(self)),
            final(self).filename == old(self).filename,
            final(self).source == old(self).source,
            final(self).open_token_depth == old(self).open_token_depth,
            ({
                let m = scan_string_escape(old(self).source@, old(self)@);
                &&& final(self)@ == m.0
                &&& (r is Some <==> m.1 is Some)
                &&& (r matches Some(v) ==> m.1 == Some(v@))
            }),
    {
        if self.peek_is(0, '\\' as u8) {
            self.next();
            match self.cur() {
                None => None,
                Some(c) => {
                    if c == '\\' as u8 {
                        self.next();
                        Some(byte_vec1('\\' as u8))
                    } else if c == 'n' as u8 {
                        self.next();
                        Some(byte_vec1(10))
                    } else if c == 'r' as u8 {
                        self.next();
                        Some(byte_vec1(13))
                    } else if c == 't' as u8 {
                        self.next();
                        Some(byte_vec1(9))
                    } else if c == 'b' as u8 {
                        self.next();
                        Some(byte_vec1(8))
                    } else if c == 'v' as u8 {
                        self.next();
                        Some(byte_vec1(11))
                    } else if c == 'f' as u8 {
                        self.next();
                        Some(byte_vec1(12))
                    } else if c == 10 {
                        self.next();
                        Some(Vec::new())
                    } else if c == 13 {
                        self.next();
                        if self.peek_is(0, 10) {
                            self.next();
                            Some(byte_vec2(13, 10))
                        } else {
                            Some(byte_vec1(13))
                        }
                    } else if c == '0' as u8 {
                        let legacy = match self.peek(1) {
                            Some(d) => ('0' as u8) <= d && d <= ('9' as u8),
                            None => false,
                        };
                        if legacy {
                            self.push_err(
                                ParseError::UnexpectedEscapeCharacter(
                                    '0',
                                    ParseErrorMessage {
                                        pos: self.pos,
                                        message:
                                            "Sorry, LegacyOctalEscapeSequence is not supported. ".to_owned(),
                                    },
                                ),
                            );
                            None
                        } else {
                            self.push_err(
                                ParseError::UnexpectedEscapeCharacter(
                                    '0',
                                    ParseErrorMessage {
                                        pos: self.pos,
                                        message:
                                            "Sorry, \0 in string literal is not supported. Inputs like `exports['\\0'] = 1` will be returned with the escape sequence as-is. ".to_owned(),
                                    },
                                ),
                            );
                            self.next();
                            Some(byte_vec2('\\' as u8, '0' as u8))
                        }
                    } else if c == 'u' as u8 {
                        self.unicode_escape_sequence()
                    } else {
                        self.next();
                        Some(byte_vec1(c))
                    }
                },
            }
        } else {
            None
        }
    }

    fn string_tail(&mut self, quote: u8, skip: bool, acc: Vec<u8>) -> (r: Option<String>)
        requires
            old(self).wf(),
        ensures
            final(self).wf(),
            final(self).same_source(old(self)),
            final(self).filename == old(self).filename,
            final(self).source == old(self).source,
            final(self).open_token_depth == old(self).open_token_depth,
            ({
                let m = scan_string_tail(old(self).source@, old(self)@, quote, skip, acc@);
                &&& final(self)@ == m.0
                &&& (r is Some <==> m.1 is Some)
                &&& (r matches Some(v) ==> m.1 == Some(v@))
            }),
        decreases old(self).source@.len() - old(self).pos,
    {
        match self.cur() {
            None => None,
            Some(c) => {
                if c == quote {
                    self.next();
                    self.expect_expression = false;
                    if skip {
                        Some(String::new())
                    } else {
                        string_from_utf8(acc)
                    }
                } else if c == '\\' as u8 {
                    proof {
                        lemma_string_escape_bounds(old(self).source@, old(self)@);
                    }
                    match self.string_escape_sequence() {
                        None => None,
                        Some(bs) => {
                            let mut acc2 = acc;
                            let mut bs2 = bs;
                            acc2.append(&mut bs2);
                            self.string_tail(quote, skip, acc2)
                        },
                    }
                } else if is_br(c) {
                    None
                } else {
                    let mut acc2 = acc;
                    acc2.push(c);
                    self.next();
                    self.string_tail(quote, skip, acc2)
                }
            },
        }
    }

    /// A string literal at the cursor.  In skip mode only "a valid literal
    /// sits here" matters and the empty text is returned; otherwise the
    /// decoded text.  An unterminated or invalid literal yields nothing.
    fn string_literal(&mut self, skip: bool) -> (r: Option<String>)
        requires
            old(self).wf(),
        ensures
            final(self).wf(),
            final(self).same_source(old(self)),
            final(self).filename == old(self).filename,
            final(self).source == old(self).source,
            final(self).open_token_depth == old(self).open_token_depth,
            ({
                let m = scan_string_literal(old(self).source@, old(self)@, skip);
                &&& final(self)@ == m.0
                &&& (r is Some <==> m.1 is Some)
                &&& (r matches Some(v) ==> m.1 == Some(v@))
            }),
            old(self).pos <= final(self).pos,
    {
        proof {
            crate::model::lemma_string_literal_bounds(old(self).source@, old(self)@, skip);
        }
        match self.cur() {
            Some(q) => {
                if q == '\'' as u8 || q == '"' as u8 {
                    self.next();
                    self.string_tail(q, skip, Vec::new())
                } else {
                    None
                }
            },
            None => None,
        }
    }

    fn number_tail(&mut self, acc: String) -> (r: Option<String>)
        requires
            old(self).wf(),
        ensures
            final(self).wf(),
            final(self).same_source(old(self)),
            final(self).filename == old(self).filename,
            final(self).source == old(self).source,
            final(self).open_token_depth == old(self).open_token_depth,
            ({
                let m = scan_number_tail(old(self).source@, old(self)@, acc@);
                &&& final(self)@ == m.0
                &&& (r is Some <==> m.1 is Some)
                &&& (r matches Some(v) ==> m.1 == Some(v@))
            }),
        decreases old(self).source@.len() - old(self).pos,
    {
        match self.cur() {
            Some(c) => {
                if (('0' as u8) <= c && c <= ('9' as u8)) || c == '_' as u8 || c == '.' as u8 || (
                ('a' as u8) <= c && c <= ('z' as u8)) || (('A' as u8) <= c && c <= ('Z' as u8)) {
                    let mut acc2 = acc;
                    push_char(&mut acc2, c as char);
                    self.next();
                    self.number_tail(acc2)
                } else {
                    self.expect_expression = false;
                    Some(acc)
                }
            },
            None => None,
        }
    }

    /// A number-shaped literal at the cursor: digits, `_`, `.`, and letters,
    /// greedily; not a numeric grammar.
    fn number_literal(&mut self) -> (r: Option<String>)
        requires
            old(self).wf(),
        ensures
            final(self).wf(),
            final(self).same_source(old(self)),
            final(self).filename == old(self).filename,
            final(self).source == old(self).source,
            final(self).open_token_depth == old(self).open_token_depth,
            ({
                let m = scan_number_literal(old(self).source@, old(self)@);
                &&& final(self)@ == m.0
                &&& (r is Some <==> m.1 is Some)
                &&& (r matches Some(v) ==> m.1 == Some(v@))
            }),
            old(self).pos <= final(self).pos,
    {
        proof {
            crate::model::lemma_number_literal_bounds(old(self).source@, old(self)@);
        }
        match self.cur() {
            Some(c) => {
                if (('0' as u8) <= c && c <= ('9' as u8)) || c == '.' as u8 {
                    self.number_tail(String::new())
                } else {
                    None
                }
            },
            None => None,
        }
    }

    /// Replace any earlier re-export: a later match wins.
    fn set_reexports_val(&mut self, name: String)
        requires
            old(self).wf(),
        ensures
            final(self).wf(),
            final(self).same_source(old(self)),
            final(self)@ == set_reexports(old(self)@, name@),
            final(self).filename == old(self).filename,
            final(self).source == old(self).source,
            final(self).open_token_depth == old(self).open_token_depth,
    {
        let ghost n = name@;
        let mut v: Vec<String> = Vec::new();
        v.push(name);
        self.parse_result.reexports = v;
        proof {
            assert(self.parse_result.reexports.deep_view() =~= seq![n]);
            assert(self@ == set_reexports(old(self)@, n));
        }
    }

    /// The bytes of `exports` stand at the cursor.
    fn at_exports(&self) -> (r: bool)
        requires
            self.wf(),
        ensures
            r == spec_at_exports(self.source@, self@.pos),
    {
        self.peek_is(0, 'e' as u8) && self.peek_is(1, 'x' as u8) && self.peek_is(2, 'p' as u8)
            && self.peek_is(3, 'o' as u8) && self.peek_is(4, 'r' as u8) && self.peek_is(
            5,
            't' as u8,
        ) && self.peek_is(6, 's' as u8)
    }

    /// The bytes of `require` stand at the cursor.
    fn at_require(&self) -> (r: bool)
        requires
            self.wf(),
        ensures
            r == spec_at_require(self.source@, self@.pos),
    {
        self.peek_is(0, 'r' as u8) && self.peek_is(1, 'e' as u8) && self.peek_is(2, 'q' as u8)
            && self.peek_is(3, 'u' as u8) && self.peek_is(4, 'i' as u8) && self.peek_is(
            5,
            'r' as u8,
        ) && self.peek_is(6, 'e' as u8)
    }

    /// The bytes of `module` stand at the cursor.
    fn at_module(&self) -> (r: bool)
        requires
            self.wf(),
        ensures
            r == spec_at_module(self.source@, self@.pos),
    {
        self.peek_is(0, 'm' as u8) && self.peek_is(1, 'o' as u8) && self.peek_is(2, 'd' as u8)
            && self.peek_is(3, 'u' as u8) && self.peek_is(4, 'l' as u8) && self.peek_is(
            5,
            'e' as u8,
        )
    }

    fn regex_tail(&mut self, start: usize, escaped: bool, in_class: bool)
        requires
            old(self).wf(),
        ensures
            final(self).wf(),
            final(self).same_source(old(self)),
            final(self)@ == scan_regex_tail(
                old(self).source@,
                old(self)@,
                start as int,
                escaped,
                in_class,
            ),
            final(self).filename == old(self).filename,
            final(self).source == old(self).source,
            final(self).open_token_depth == old(self).open_token_depth,
        decreases old(self).source@.len() - old(self).pos,
    {
        match self.cur() {
            Some(c) => {
                self.next();
                if is_br(c) {
                    self.push_err(
                        ParseError::UnterminatedRegExp(
                            ParseErrorMessage {
                                pos: start,
                                message:
                                    "The regular expression ends halfway with a line break.".to_owned(),
                            },
                        ),
                    );
                } else if escaped {
                    self.regex_tail(start, false, in_class);
                } else {
                    let in2 = if c == '[' as u8 {
                        true
                    } else if c == ']' as u8 && in_class {
                        false
                    } else {
                        in_class
                    };
                    if c == '/' as u8 && !in_class {
                        let _ = self.identifer();
                    } else {
                        self.regex_tail(start, c == '\\' as u8, in2);
                    }
                }
            },
            None => {
                let _ = self.identifer();
            },
        }
    }

    /// A regular-expression literal at the cursor; its optional trailing
    /// flags are consumed and discarded.
    fn regex_literal(&mut self)
        requires
            old(self).wf(),
        ensures
            final(self).wf(),
            final(self).same_source(old(self)),
            final(self)@ == scan_regex_literal(old(self).source@, old(self)@),
            final(self).filename == old(self).filename,
            final(self).source == old(self).source,
            final(self).open_token_depth == old(self).open_token_depth,
    {
        if self.peek_is(0, '/' as u8) {
            let start = self.pos;
            self.next();
            self.regex_tail(start, false, false);
        }
    }

    fn template_tail(&mut self)
        requires
            old(self).wf(),
        ensures
            final(self).wf(),
            final(self).same_source(old(self)),
            final(self)@ == scan_template_tail(old(self).source@, old(self)@),
            final(self).filename == old(self).filename,
            final(self).source == old(self).source,
            final(self).open_token_depth == old(self).open_token_depth,
        decreases old(self).source@.len() - old(self).pos,
    {
        match self.cur() {
            Some(c) => {
                if c == '`' as u8 {
                    self.next();
                    self.expect_expression = false;
                } else if c == '\\' as u8 {
                    self.next_offset(2);
                    self.template_tail();
                } else if c == '$' as u8 && self.peek_is(1, '{' as u8) {
                    self.next_offset(2);
                    self.bracket_stack.push(Bracket::TemplateBrace);
                    self.expect_expression = true;
                } else {
                    self.next();
                    self.template_tail();
                }
            },
            None => {},
        }
    }

    /// A template literal, entered at the backtick, or re-entered
    /// (`is_middle`) right after the `}` that closed an interpolation; on
    /// re-entry the verbatim part resumes from the current position.
    pub fn template_literal(&mut self, is_middle: bool)
        requires
            old(self).wf(),
        ensures
            final(self).wf(),
            final(self).same_source(old(self)),
            final(self)@ == scan_template_literal(old(self).source@, old(self)@, is_middle),
            final(self).filename == old(self).filename,
            final(self).source == old(self).source,
            final(self).open_token_depth == old(self).open_token_depth,
    {
        if !is_middle && !self.peek_is(0, '`' as u8) {
            return;
        }
        if is_middle && self.peek_is(0, '`' as u8) {
            self.next();
            self.expect_expression = false;
            return;
        }
        if !is_middle {
            self.next();
        }
        self.template_tail();
    }

    /// A closing byte against the context stack: pop a match, report a
    /// mismatch or an empty stack, and set `expect_expression` by what was
    /// popped.
    fn pop_bracket_stack(&mut self) -> (r: Option<Bracket>)
        requires
            old(self).wf(),
        ensures
            final(self).wf(),
            final(self).same_source(old(self)),
            final(self).filename == old(self).filename,
            final(self).source == old(self).source,
            final(self).open_token_depth == old(self).open_token_depth,
            ({
                let m = scan_pop_bracket(old(self).source@, old(self)@);
                &&& final(self)@ == m.0
                &&& r == m.1
            }),
    {
        match self.cur() {
            None => {
                self.push_err(
                    ParseError::UnexpectedEOF(
                        ParseErrorMessage {
                            pos: self.pos,
                            message: "Expect to find a bracket here, but encountered EOF".to_owned(),
                        },
                    ),
                );
                None
            },
            Some(ch) => {
                self.next();
                match self.bracket_stack.pop() {
                    None => {
                        self.push_err(
                            ParseError::UnexpectedBracket(
                                ch as char,
                                ParseErrorMessage {
                                    pos: self.pos,
                                    message:
                                        "Expect to match a opening bracket, but found nothing. ".to_owned(),
                                },
                            ),
                        );
                        None
                    },
                    Some(top) => {
                        if ch != get_bracket_close_code(&top) {
                            self.push_err(
                                ParseError::IncorrectClosingBracket(
                                    ch as char,
                                    ParseErrorMessage {
                                        pos: self.pos,
                                        message:
                                            "Expect to match a opening bracket, but found none. ".to_owned(),
                                    },
                                ),
                            );
                            None
                        } else {
                            let ee = matches!(
                                top,
                                Bracket::Parenthesis(ParenthesisType::ParenthesisKeyword)
                            );
                            self.expect_expression = ee;
                            Some(top)
                        }
                    },
                }
            },
        }
    }

    /// The `require(...)` detector.  Only full success records the import
    /// and returns the module name; any step failing aborts with no import
    /// recorded.
    fn try_parse_require(&mut self) -> (r: Option<String>)
        requires
            old(self).wf(),
        ensures
            final(self).wf(),
            final(self).same_source(old(self)),
            final(self).filename == old(self).filename,
            final(self).source == old(self).source,
            final(self).open_token_depth == old(self).open_token_depth,
            ({
                let m = scan_require(old(self).source@, old(self)@);
                &&& final(self)@ == m.0
                &&& (r is Some <==> m.1 is Some)
                &&& (r matches Some(v) ==> m.1 == Some(v@))
            }),
            old(self).pos <= final(self).pos,
    {
        proof {
            crate::model::lemma_require_bounds(old(self).source@, old(self)@);
        }
        if self.at_require() {
            self.next_offset(7);
            self.comment_whitespace();
            if self.peek_is(0, '(' as u8) {
                self.next();
                self.comment_whitespace();
                let required = match self.string_literal(false) {
                    Some(v) => v,
                    None => {
                        return None;
                    },
                };
                self.comment_whitespace();
                if self.peek_is(0, ')' as u8) {
                    self.push_import_val(required.clone());
                    self.next();
                    self.expect_expression = false;
                    Some(required)
                } else {
                    None
                }
            } else {
                None
            }
        } else {
            None
        }
    }

    /// One property of an object-literal export block; `false` means the
    /// whole enumeration aborted and the cursor was reverted.
    fn literal_exports_prop(&mut self, revert_pos: usize) -> (ok: bool)
        requires
            old(self).wf(),
            revert_pos <= old(self).source@.len(),
        ensures
            final(self).wf(),
            final(self).same_source(old(self)),
            final(self).filename == old(self).filename,
            final(self).source == old(self).source,
            final(self).open_token_depth == old(self).open_token_depth,
            ({
                let m = scan_literal_exports_prop(old(self).source@, old(self)@, revert_pos as int);
                &&& final(self)@ == m.0
                &&& ok == m.1
            }),
    {
        match self.identifer() {
            None => true,
            Some(identifier) => {
                self.comment_whitespace();
                if self.peek_is(0, ':' as u8) {
                    self.next();
                    self.comment_whitespace();
                    if self.identifer().is_some() {
                        self.push_export_val(identifier);
                        true
                    } else if self.string_literal(true).is_some() {
                        self.push_export_val(identifier);
                        true
                    } else if self.number_literal().is_some() {
                        self.push_export_val(identifier);
                        true
                    } else {
                        self.pos = revert_pos;
                        false
                    }
                } else {
                    self.push_export_val(identifier);
                    true
                }
            },
        }
    }

    fn literal_exports_tail(&mut self, revert_pos: usize)
        requires
            old(self).wf(),
            revert_pos <= old(self).source@.len(),
        ensures
            final(self).wf(),
            final(self).same_source(old(self)),
            final(self)@ == scan_literal_exports_tail(
                old(self).source@,
                old(self)@,
                revert_pos as int,
            ),
            final(self).filename == old(self).filename,
            final(self).source == old(self).source,
            final(self).open_token_depth == old(self).open_token_depth,
        decreases old(self).source@.len() - old(self).pos,
    {
        match self.cur() {
            None => {},
            Some(_) => {
                self.comment_whitespace();
                proof {
                    lemma_comment_whitespace_bounds(old(self).source@, old(self)@);
                    lemma_literal_exports_prop_bounds(
                        old(self).source@,
                        scan_comment_whitespace(old(self).source@, old(self)@),
                        revert_pos as int,
                    );
                }
                let ok = self.literal_exports_prop(revert_pos);
                if ok {
                    proof {
                        lemma_comment_whitespace_bounds(old(self).source@, self@);
                    }
                    self.comment_whitespace();
                    if self.peek_is(0, ',' as u8) {
                        self.next();
                        self.literal_exports_tail(revert_pos);
                    } else if self.peek_is(0, '}' as u8) {
                        self.expect_expression = false;
                        self.next();
                    }
                }
            },
        }
    }

    /// The object-literal export enumeration of `module.exports = { ... }`,
    /// entered at the `{`.
    fn try_parse_literal_exports(&mut self)
        requires
            old(self).wf(),
            old(self).pos >= 1,
        ensures
            final(self).wf(),
            final(self).same_source(old(self)),
            final(self)@ == scan_literal_exports(old(self).source@, old(self)@),
            final(self).filename == old(self).filename,
            final(self).source == old(self).source,
            final(self).open_token_depth == old(self).open_token_depth,
    {
        let revert_pos = self.pos - 1;
        if !self.peek_is(0, '{' as u8) {
            return;
        }
        self.next();
        self.literal_exports_tail(revert_pos);
    }

    /// The detector entered at a boundary-aligned `exports`; `assign` allows
    /// the bare `module.exports = ...` forms.
    #[verifier::rlimit(100)]
    fn try_parse_exports_dot_assign(&mut self, assign: bool)
        requires
            old(self).wf(),
            old(self).pos + 7 <= old(self).source@.len(),
        ensures
            final(self).wf(),
            final(self).same_source(old(self)),
            final(self)@ == scan_exports_dot_assign(old(self).source@, old(self)@, assign),
            final(self).filename == old(self).filename,
            final(self).source == old(self).source,
            final(self).open_token_depth == old(self).open_token_depth,
    {
        self.next_offset(7);
        let revert_pos = self.pos - 1;
        self.comment_whitespace();
        match self.cur() {
            Some(c) => {
                if c == '.' as u8 {
                    self.next();
                    self.comment_whitespace();
                    match self.identifer() {
                        Some(identifier) => {
                            self.comment_whitespace();
                            if self.peek_is(0, '=' as u8) {
                                self.push_export_val(identifier);
                            }
                        },
                        None => {},
                    }
                    self.pos = revert_pos;
                } else if c == '[' as u8 {
                    self.next();
                    self.comment_whitespace();
                    match self.string_literal(false) {
                        Some(key) => {
                            self.comment_whitespace();
                            if self.peek_is(0, ']' as u8) {
                                self.next();
                                self.comment_whitespace();
                                if self.peek_is(0, '=' as u8) {
                                    self.push_export_val(key);
                                } else {
                                    self.pos = revert_pos;
                                }
                            } else {
                                self.pos = revert_pos;
                            }
                        },
                        None => {
                            self.pos = revert_pos;
                        },
                    }
                } else if c == '=' as u8 && assign {
                    self.next();
                    self.comment_whitespace();
                    if self.peek_is(0, '{' as u8) {
                        self.try_parse_literal_exports();
                    } else if self.peek_is(0, 'r' as u8) {
                        match self.try_parse_require() {
                            Some(module) => {
                                self.set_reexports_val(module);
                            },
                            None => {
                                self.pos = revert_pos;
                            },
                        }
                    } else {
                        self.pos = revert_pos;
                    }
                } else {
                    self.pos = revert_pos;
                }
            },
            None => {
                self.pos = revert_pos;
            },
        }
    }

    /// The detector entered at a boundary-aligned `module`.
    fn try_parse_module_exports_dot_assign(&mut self)
        requires
            old(self).wf(),
            old(self).pos + 6 <= old(self).source@.len(),
        ensures
            final(self).wf(),
            final(self).same_source(old(self)),
            final(self)@ == scan_module_exports(old(self).source@, old(self)@),
            final(self).filename == old(self).filename,
            final(self).source == old(self).source,
            final(self).open_token_depth == old(self).open_token_depth,
    {
        self.next_offset(6);
        let revert_pos = self.pos - 1;
        self.comment_whitespace();
        if self.peek_is(0, '.' as u8) {
            self.next();
            self.comment_whitespace();
            if self.at_exports() {
                self.try_parse_exports_dot_assign(true);
            } else {
                self.pos = revert_pos;
            }
        } else {
            self.pos = revert_pos;
        }
    }

    /// One step of the driver at a byte: skip whitespace or dispatch, in
    /// priority order, to the detectors, the literal sub-scanners, comments,
    /// and the bracket and punctuator rules.  Every step moves the cursor
    /// forward.
    #[verifier::rlimit(100)]
    fn step(&mut self)
        requires
            old(self).wf(),
            old(self).pos < old(self).source@.len(),
        ensures
            final(self).wf(),
            final(self).same_source(old(self)),
            final(self)@ == scan_step(old(self).source@, old(self)@),
            old(self).pos < final(self).pos,
            final(self).filename == old(self).filename,
            final(self).source == old(self).source,
            final(self).open_token_depth == old(self).open_token_depth,
    {
        proof {
            lemma_step_bounds(old(self).source@, old(self)@);
        }
        let c = self.source[self.pos];
        if c == 32 || (8 < c && c < 14) {
            self.next();
        } else if c == 'e' as u8 && self.at_exports() && self.keyword_start() {
            self.try_parse_exports_dot_assign(false);
        } else if c == 'r' as u8 && self.at_require() && self.keyword_start() {
            let _ = self.try_parse_require();
        } else if (c == 'i' as u8 || c == 'w' as u8 || c == 'f' as u8 || c == 'c' as u8 || c
            == 'd' as u8 || c == 'e' as u8 || c == 'n' as u8 || c == 'r' as u8 || c == 't' as u8
            || c == 'v' as u8 || c == 'y' as u8 || c == 'a' as u8) && self.keyword_start() {
            let sub = slice_subrange(self.source, self.pos, self.source.len());
            let maybe_keyword = match_keyword(sub);
            match maybe_keyword {
                MaybeKeyword::Expression(s) => {
                    if s > 0 {
                        self.next_offset(s);
                        self.expect_expression = true;
                    } else {
                        self.next();
                        self.expect_expression = false;
                    }
                },
                MaybeKeyword::Parenthesis(s) => {
                    if s > 0 {
                        self.next_offset(s);
                        self.parenthesis_type = ParenthesisType::ParenthesisKeyword;
                        self.expect_expression = false;
                    } else {
                        self.next();
                        self.expect_expression = false;
                    }
                },
                MaybeKeyword::NoKeyword => {
                    self.next();
                    self.expect_expression = false;
                },
            }
        } else if c == '\'' as u8 || c == '"' as u8 {
            let _ = self.string_literal(true);
        } else if c == '`' as u8 {
            self.template_literal(false);
        } else if c == 'm' as u8 && self.at_module() && self.keyword_start() {
            self.try_parse_module_exports_dot_assign();
        } else if c == '/' as u8 {
            if self.peek_is(1, '*' as u8) || self.peek_is(1, '/' as u8) {
                self.comment_whitespace();
            } else if self.expect_expression {
                self.regex_literal();
            } else {
                self.next();
                self.expect_expression = true;
            }
        } else if c == '(' as u8 {
            let pt = self.parenthesis_type;
            self.bracket_stack.push(Bracket::Parenthesis(pt));
            if matches!(self.parenthesis_type, ParenthesisType::ParenthesisKeyword) {
                self.parenthesis_type = ParenthesisType::Plain;
            }
            self.expect_expression = true;
            self.next();
        } else if c == '[' as u8 {
            self.bracket_stack.push(Bracket::Bracket);
            self.expect_expression = true;
            self.next();
        } else if c == '{' as u8 {
            self.bracket_stack.push(Bracket::Brace);
            self.expect_expression = true;
            self.next();
        } else if c == ')' as u8 || c == ']' as u8 || c == '}' as u8 {
            match self.pop_bracket_stack() {
                Some(Bracket::TemplateBrace) => {
                    self.template_literal(true);
                },
                _ => {},
            }
        } else if is_punctuator(c) {
            if c != '.' as u8 {
                self.expect_expression = true;
            }
            self.next();
        } else {
            self.expect_expression = false;
            self.next();
        }
    }

    /// The driver's loop to the end of the input; at the end, a context
    /// entry still waiting for its close records one `UnexpectedEOF`.
    fn run(&mut self)
        requires
            old(self).wf(),
        ensures
            final(self).wf(),
            final(self).same_source(old(self)),
            final(self)@ == scan_loop(old(self).source@, old(self)@),
            final(self).filename == old(self).filename,
            final(self).source == old(self).source,
            final(self).open_token_depth == old(self).open_token_depth,
        decreases old(self).source@.len() - old(self).pos,
    {
        if self.pos < self.source.len() {
            self.step();
            self.run();
        } else {
            if self.bracket_stack.len() > 0 {
                self.push_err(
                    ParseError::UnexpectedEOF(
                        ParseErrorMessage {
                            pos: self.pos,
                            message: "Expect to find a bracket here, but encountered EOF".to_owned(),
                        },
                    ),
                );
            }
        }
    }

    fn shebang_tail(&mut self)
        requires
            old(self).wf(),
        ensures
            final(self).wf(),
            final(self).same_source(old(self)),
            final(self)@ == scan_shebang_tail(old(self).source@, old(self)@),
            final(self).filename == old(self).filename,
            final(self).source == old(self).source,
            final(self).open_token_depth == old(self).open_token_depth,
        decreases old(self).source@.len() - old(self).pos,
    {
        match self.cur() {
            Some(c) => {
                self.next();
                if c == 10 || c == 13 {
                } else {
                    self.shebang_tail();
                }
            },
            None => {},
        }
    }

    /// A `#!` line at the very start of the input is skipped through its
    /// line break.
    fn shebang(&mut self)
        requires
            old(self).wf(),
        ensures
            final(self).wf(),
            final(self).same_source(old(self)),
            final(self)@ == scan_shebang(old(self).source@, old(self)@),
            final(self).filename == old(self).filename,
            final(self).source == old(self).source,
            final(self).open_token_depth == old(self).open_token_depth,
    {
        if self.peek_is(0, '#' as u8) && self.peek_is(1, '!' as u8) {
            self.shebang_tail();
        }
    }

    /// One whole scan: the cursor returns to the start, a shebang line is
    /// skipped, and the driver runs to the end of the input.  The outcome --
    /// both the scanner's final state and the returned copy of the result --
    /// is a function of the source text alone; every loop of the scan
    /// carries a termination measure, so the scan always returns.
    pub fn parse(&mut self) -> (r: ParseResult)
        ensures
            final(self).wf(),
            final(self).same_source(old(self)),
            final(self)@ == spec_parse(old(self).source@, old(self)@),
            r@ == final(self)@.res,
            old(self)@ == init_state() ==> r@ == scan_of(old(self).source@),
            final(self).filename == old(self).filename,
            final(self).source == old(self).source,
            final(self).open_token_depth == old(self).open_token_depth,
    {
        self.pos = 0;
        self.shebang();
        self.run();
        let r = ParseResult {
            imports: clone_strings(&self.parse_result.imports),
            exports: clone_strings(&self.parse_result.exports),
            reexports: clone_strings(&self.parse_result.reexports),
            errors: clone_errors(&self.parse_result.errors),
        };
        proof {
            assert(r@ == self.parse_result@);
        }
        r
    }
}

fn clone_msg(m: &ParseErrorMessage) -> (r: ParseErrorMessage)
    ensures
        r.pos == m.pos,
        r.message@ == m.message@,
{
    ParseErrorMessage { pos: m.pos, message: m.message.clone() }
}

fn clone_error(e: &ParseError) -> (r: ParseError)
    ensures
        r@ == e@,
{
    match e {
        ParseError::UnexpectedEOF(m) => ParseError::UnexpectedEOF(clone_msg(m)),
        ParseError::UnexpectedEscapeCharacter(c, m) => ParseError::UnexpectedEscapeCharacter(
            *c,
            clone_msg(m),
        ),
        ParseError::UnexpectedUnicodeEscapeSequence(
            c,
            m,
        ) => ParseError::UnexpectedUnicodeEscapeSequence(*c, clone_msg(m)),
        ParseError::UnexpectedBracket(c, m) => ParseError::UnexpectedBracket(*c, clone_msg(m)),
        ParseError::IncorrectClosingBracket(c, m) => ParseError::IncorrectClosingBracket(
            *c,
            clone_msg(m),
        ),
        ParseError::UnterminatedRegExp(m) => ParseError::UnterminatedRegExp(clone_msg(m)),
    }
}

fn clone_strings(v: &Vec<String>) -> (r: Vec<String>)
    ensures
        r.deep_view() == v.deep_view(),
{
    let mut r: Vec<String> = Vec::new();
    let n = v.len();
    let mut i: usize = 0;
    while i < n
        invariant
            i <= n,
            n == v@.len(),
            r.deep_view() =~= v.deep_view().subrange(0, i as int),
        decreases n - i,
    {
        let ghost r0 = r.deep_view();
        r.push(v[i].clone());
        proof {
            assert(r.deep_view() =~= r0.push(v@[i as int]@));
            assert(r.deep_view() =~= v.deep_view().subrange(0, i + 1));
        }
        i = i + 1;
    }
    proof {
        assert(r.deep_view() =~= v.deep_view());
    }
    r
}

fn clone_errors(v: &Vec<ParseError>) -> (r: Vec<ParseError>)
    ensures
        r.deep_view() == v.deep_view(),
{
    let mut r: Vec<ParseError> = Vec::new();
    let n = v.len();
    let mut i: usize = 0;
    while i < n
        invariant
            i <= n,
            n == v@.len(),
            r.deep_view() =~= v.deep_view().subrange(0, i as int),
        decreases n - i,
    {
        let ghost r0 = r.deep_view();
        r.push(clone_error(&v[i]));
        proof {
            assert(r.deep_view() =~= r0.push(v@[i as int]@));
            assert(r.deep_view() =~= v.deep_view().subrange(0, i + 1));
        }
        i = i + 1;
    }
    proof {
        assert(r.deep_view() =~= v.deep_view());
    }
    r
}

fn byte_vec1(a: u8) -> (v: Vec<u8>)
    ensures
        v@ == seq![a],
{
    let mut v: Vec<u8> = Vec::new();
    v.push(a);
    proof {
        assert(v@ =~= seq![a]);
    }
    v
}

fn byte_vec2(a: u8, b: u8) -> (v: Vec<u8>)
    ensures
        v@ == seq![a, b],
{
    let mut v: Vec<u8> = Vec::new();
    v.push(a);
    v.push(b);
    proof {
        assert(v@ =~= seq![a, b]);
    }
    v
}

} // verus!
