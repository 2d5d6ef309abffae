use cjs_module_lexer::parser::{ParseError, ParseResult, Parser};
use cjs_module_lexer::utils::match_keyword;

fn scan(source: &str) -> ParseResult {
    let mut p = Parser::new(source, "@");
    p.parse()
}

#[test]
fn test_scan_twice_same_result() {
    let source = "exports.a = 1; var x = require('p'); module.exports = { b };";
    let first = scan(source);
    let second = scan(source);
    assert_eq!(first, second);
}

#[test]
fn test_empty_input() {
    let r = scan("");
    assert_eq!(
        r,
        ParseResult { imports: vec![], exports: vec![], reexports: vec![], errors: vec![] }
    );
}

#[test]
fn test_exports_dot_simple() {
    let r = scan("exports.foo = 1;");
    assert_eq!(r.exports, vec![String::from("foo")]);
    assert_eq!(r.imports, Vec::<String>::new());
    assert_eq!(r.errors, vec![]);
}

#[test]
fn test_module_exports_dot_simple() {
    let r = scan("module.exports.bar = 2;");
    assert_eq!(r.exports, vec![String::from("bar")]);
}

#[test]
fn test_exports_bracket_order() {
    let r = scan("exports[\"a\"]=1; exports['b']=2;");
    assert_eq!(r.exports, vec![String::from("a"), String::from("b")]);
}

#[test]
fn test_require_simple() {
    let r = scan("var x = require('pkg');");
    assert_eq!(r.imports, vec![String::from("pkg")]);
}

#[test]
fn test_object_literal_exports() {
    let r = scan("module.exports = { a, b: 1, c: 'x' };");
    assert_eq!(
        r.exports,
        vec![String::from("a"), String::from("b"), String::from("c")]
    );
}

#[test]
fn test_reexport() {
    let r = scan("module.exports = require('other');");
    assert_eq!(r.reexports, vec![String::from("other")]);
    assert_eq!(r.imports, vec![String::from("other")]);
}

#[test]
fn test_reexport_last_write_wins() {
    let r = scan("module.exports = require('one');\nmodule.exports = require('two');");
    assert_eq!(r.reexports, vec![String::from("two")]);
    assert_eq!(r.imports, vec![String::from("one"), String::from("two")]);
}

#[test]
fn test_nul_escape_diagnostic() {
    let r = scan("\"bad \\0 escape\"");
    assert_eq!(r.errors.len(), 1);
    assert!(matches!(r.errors[0], ParseError::UnexpectedEscapeCharacter('0', _)));
}

#[test]
fn test_legacy_octal_escape_diagnostic() {
    let r = scan("\"bad \\01 escape\"");
    assert_eq!(r.errors.len(), 1);
    assert!(matches!(r.errors[0], ParseError::UnexpectedEscapeCharacter('0', _)));
}

#[test]
fn test_unicode_escape_braced_key() {
    let r = scan("exports[\"\\u{6F22}\\u{5B57}\"] = 1");
    assert_eq!(r.exports, vec![String::from("漢字")]);
}

#[test]
fn test_unicode_escape_bad_digit_diagnostic() {
    let r = scan("\"\\uZZZZ\"");
    assert_eq!(r.errors.len(), 1);
    assert!(matches!(r.errors[0], ParseError::UnexpectedUnicodeEscapeSequence('Z', _)));
}

#[test]
fn test_unicode_escape_surrogate_fails_quietly() {
    // A \u escape naming a surrogate cannot be decoded; the literal fails,
    // so no export is recorded, and the scan still completes.
    let r = scan("exports[\"\\uD800\"] = 1;");
    assert_eq!(r.exports, Vec::<String>::new());
}

#[test]
fn test_stray_close_paren() {
    // The stray bracket yields one diagnostic and the scan continues at the
    // very next byte.
    let r = scan(")exports.x = 1;");
    assert_eq!(r.errors.len(), 1);
    assert!(matches!(r.errors[0], ParseError::UnexpectedBracket(')', _)));
    assert_eq!(r.exports, vec![String::from("x")]);
}

#[test]
fn test_incorrect_closing_bracket() {
    let r = scan("(]");
    assert_eq!(r.errors.len(), 1);
    assert!(matches!(r.errors[0], ParseError::IncorrectClosingBracket(']', _)));
}

#[test]
fn test_unclosed_brace_reports_eof() {
    let r = scan("{");
    assert_eq!(r.errors.len(), 1);
    assert!(matches!(r.errors[0], ParseError::UnexpectedEOF(_)));
}

#[test]
fn test_unterminated_regex() {
    let r = scan("var x = /abc\n");
    assert_eq!(r.errors.len(), 1);
    assert!(matches!(r.errors[0], ParseError::UnterminatedRegExp(_)));
}

#[test]
fn test_shebang_then_exports() {
    let r = scan("#!/usr/bin/env node\nexports.x = 1;");
    assert_eq!(r.exports, vec![String::from("x")]);
}

#[test]
fn test_regex_after_keyword_parenthesis() {
    // After `if (...)`, a slash starts a regular expression, not a division:
    // the parenthesis inside the regex is literal text, so the brackets
    // balance and the scan reports nothing.
    let r = scan("if (x) /a(b/.test(y)\n");
    assert_eq!(r.errors, vec![]);
}

#[test]
fn test_division_is_not_regex() {
    let r = scan("var x = 1 / 2 / 3;\n");
    assert_eq!(r.errors, vec![]);
}

#[test]
fn test_template_interpolation() {
    let r = scan("var t = `x${ require('tpl') }y`;");
    assert_eq!(r.imports, vec![String::from("tpl")]);
    assert_eq!(r.errors, vec![]);
}

#[test]
fn test_exports_in_comment_ignored() {
    let r = scan("// exports.a = 1;\n/* exports.b = 2; */\nexports.c = 3;");
    assert_eq!(r.exports, vec![String::from("c")]);
}

#[test]
fn test_exports_in_string_ignored() {
    let r = scan("var s = 'exports.a = 1;'; exports.b = 2;");
    assert_eq!(r.exports, vec![String::from("b")]);
}

#[test]
fn test_member_exports_not_counted() {
    // `foo.exports.a` is not boundary-aligned: the byte before `exports`
    // is a dot, so the detector does not fire.
    let r = scan("foo.exports.a = 1;");
    assert_eq!(r.exports, Vec::<String>::new());
}

#[test]
fn test_else_is_a_keyword() {
    assert!(match_keyword(b"else").is_some());
    assert!(match_keyword(b"elsewhere").is_none());
}

#[test]
fn test_require_without_close_paren_records_nothing() {
    // The pattern fails at the missing `)`, so the speculative match aborts
    // with no import recorded.
    let r = scan("require('half'");
    assert_eq!(r.imports, Vec::<String>::new());
}

#[test]
fn test_line_continuation_in_string() {
    let r = scan("exports['a\\\nb'] = 1;");
    assert_eq!(r.exports, vec![String::from("ab")]);
    assert_eq!(r.errors, vec![]);
}

#[test]
fn test_exports_dot_without_assign_reverts() {
    let r = scan("exports.foo + 1;");
    assert_eq!(r.exports, Vec::<String>::new());
    assert_eq!(r.errors, vec![]);
}

#[test]
fn test_exports_bracket_without_close_reverts() {
    let r = scan("exports['a' + k] = 1;");
    assert_eq!(r.exports, Vec::<String>::new());
}

#[test]
fn test_module_exports_other_value_reverts() {
    let r = scan("module.exports = 5;");
    assert_eq!(r.exports, Vec::<String>::new());
    assert_eq!(r.reexports, Vec::<String>::new());
}

#[test]
fn test_object_literal_bad_value_aborts_block_only() {
    let r = scan("exports.a = 1; module.exports = { b: [1] };");
    assert_eq!(r.exports, vec![String::from("a")]);
    assert_eq!(r.errors, vec![]);
}

#[test]
fn test_crlf_after_backslash_kept_in_string() {
    let r = scan("exports['a\\\r\nb'] = 1;");
    assert_eq!(r.exports, vec![String::from("a\r\nb")]);
    assert_eq!(r.errors, vec![]);
}

#[test]
fn test_escaped_backtick_inside_template() {
    let r = scan("var t = `a\\`b`; exports.x = 1;");
    assert_eq!(r.exports, vec![String::from("x")]);
    assert_eq!(r.errors, vec![]);
}

#[test]
fn test_regex_after_expression_keyword() {
    // After `return`, a slash is in expression position, so the parenthesis
    // inside the regex is literal text and nothing is reported.
    let r = scan("return /a(b/;\n");
    assert_eq!(r.errors, vec![]);
}

#[test]
fn test_nul_escape_kept_as_written() {
    // `\0` records a diagnostic but keeps the two source bytes, so the key
    // is captured with the escape sequence as written.
    let r = scan("exports['a\\0'] = 1;");
    assert_eq!(r.exports, vec![String::from("a\\0")]);
    assert_eq!(r.errors.len(), 1);
}

#[test]
fn test_template_literal_method() {
    let mut p = Parser::new("`ab`x", "@");
    p.template_literal(false);
    assert_eq!(p.pos, 4);
    assert!(!p.is_end());
}

#[test]
fn test_template_consecutive_interpolations() {
    // After an interpolation's `}` closes, the template resumes at the very
    // next byte, so a second `${` right after it opens a new interpolation.
    let r = scan("var t = `${ require('a') }${ require('b') }`;");
    assert_eq!(r.imports, vec![String::from("a"), String::from("b")]);
    assert_eq!(r.errors, vec![]);
}

#[test]
fn test_template_escape_right_after_interpolation() {
    // A backslash standing right after the closing `}` still protects the
    // next byte, so the escaped backtick does not end the template.
    let r = scan("var t = `${x}\\`y`; exports.z = 1;");
    assert_eq!(r.exports, vec![String::from("z")]);
    assert_eq!(r.errors, vec![]);
}
