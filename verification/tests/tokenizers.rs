use dockerfile_parser::tokens::{
    is_not_newline, keyword, skip_whitespace, trim_end, trimmed_line, ws,
};
use dockerfile_parser::{ParseError, ParseErrorKind};

#[test]
fn skip_whitespace_drops_blanks_and_line_terminators() {
    assert_eq!(skip_whitespace(" \t\r\n x y "), "x y ");
    assert_eq!(skip_whitespace("\n\nFROM"), "FROM");
}

#[test]
fn skip_whitespace_without_whitespace_is_identity() {
    assert_eq!(skip_whitespace("x "), "x ");
    assert_eq!(skip_whitespace(""), "");
}

#[test]
fn skip_whitespace_of_only_whitespace_is_empty() {
    assert_eq!(skip_whitespace(" \n\t\r "), "");
}

#[test]
fn skip_whitespace_stops_at_other_unicode_blanks() {
    assert_eq!(skip_whitespace(" \u{a0}x"), "\u{a0}x");
}

#[test]
fn keyword_splits_word_and_blanks() {
    assert_eq!(keyword("FROM ubuntu"), Ok(("ubuntu", "FROM")));
    assert_eq!(keyword("Run\t \techo hi"), Ok(("echo hi", "Run")));
}

#[test]
fn keyword_skips_leading_whitespace() {
    assert_eq!(keyword("\n\n  FROM   x:y  \n"), Ok(("x:y  \n", "FROM")));
}

#[test]
fn keyword_takes_the_whole_run_of_letters() {
    assert_eq!(keyword("FROMAGE x"), Ok(("x", "FROMAGE")));
}

#[test]
fn keyword_leaves_line_terminators_behind_the_blanks() {
    assert_eq!(keyword("FROM \nubuntu"), Ok(("\nubuntu", "FROM")));
}

#[test]
fn keyword_needs_a_letter() {
    assert_eq!(keyword("123 x"), Err(ParseError::new(ParseErrorKind::MalformedKeyword, "123 x")));
    assert_eq!(keyword("  # note"), Err(ParseError::new(ParseErrorKind::MalformedKeyword, "# note")));
    assert_eq!(keyword(""), Err(ParseError::new(ParseErrorKind::MalformedKeyword, "")));
    assert_eq!(keyword(" \n "), Err(ParseError::new(ParseErrorKind::MalformedKeyword, "")));
}

#[test]
fn keyword_needs_a_blank_behind_the_letters() {
    assert_eq!(keyword("FROM"), Err(ParseError::new(ParseErrorKind::MalformedKeyword, "")));
    assert_eq!(
        keyword("FROM:latest"),
        Err(ParseError::new(ParseErrorKind::MalformedKeyword, ":latest"))
    );
    assert_eq!(
        keyword(" FROM\nubuntu"),
        Err(ParseError::new(ParseErrorKind::MalformedKeyword, "\nubuntu"))
    );
}

#[test]
fn keyword_letters_are_ascii() {
    assert_eq!(
        keyword("FRÖM x"),
        Err(ParseError::new(ParseErrorKind::MalformedKeyword, "ÖM x"))
    );
}

#[test]
fn is_not_newline_stops_at_line_feed() {
    assert_eq!(is_not_newline("abc  \ndef"), ("\ndef", "abc  "));
}

#[test]
fn is_not_newline_stops_at_carriage_return() {
    assert_eq!(is_not_newline("abc\r\ndef"), ("\r\ndef", "abc"));
    assert_eq!(is_not_newline("abc\rdef"), ("\rdef", "abc"));
}

#[test]
fn is_not_newline_takes_all_without_terminator() {
    assert_eq!(is_not_newline("echo \"test\""), ("", "echo \"test\""));
}

#[test]
fn is_not_newline_accepts_empty_line() {
    assert_eq!(is_not_newline("\nabc"), ("\nabc", ""));
    assert_eq!(is_not_newline(""), ("", ""));
}

#[test]
fn trim_end_removes_trailing_whitespace() {
    assert_eq!(trim_end("abc \t "), "abc");
    assert_eq!(trim_end("abc\r\n"), "abc");
    assert_eq!(trim_end("x:y  "), "x:y");
}

#[test]
fn trim_end_keeps_inner_and_leading_whitespace() {
    assert_eq!(trim_end("  a  b  "), "  a  b");
    assert_eq!(trim_end("a b"), "a b");
}

#[test]
fn trim_end_of_blank_text_is_empty() {
    assert_eq!(trim_end("   "), "");
    assert_eq!(trim_end(""), "");
}

#[test]
fn trim_end_counts_characters_not_bytes() {
    assert_eq!(trim_end("héllo wörld \t"), "héllo wörld");
    assert_eq!(trim_end("日本語  "), "日本語");
    assert_eq!(trim_end("x\u{a0}"), "x\u{a0}");
}

#[test]
fn trimmed_line_trims_the_end_of_the_line() {
    assert_eq!(trimmed_line("x:y  \nrest"), Ok(("\nrest", "x:y")));
    assert_eq!(trimmed_line("a b\t"), Ok(("", "a b")));
}

#[test]
fn trimmed_line_may_be_empty() {
    assert_eq!(trimmed_line(""), Ok(("", "")));
    assert_eq!(trimmed_line("  \nx"), Ok(("\nx", "")));
}

#[test]
fn ws_skips_whitespace_on_both_sides() {
    assert_eq!(ws(trimmed_line, "\n  x:y  \n\n  next"), Ok(("next", "x:y")));
    assert_eq!(ws(trimmed_line, "x:y"), Ok(("", "x:y")));
    assert_eq!(ws(trimmed_line, " \n "), Ok(("", "")));
}

#[test]
fn ws_hands_any_token_through() {
    let count = |text: &'static str| -> Result<(&'static str, usize), ParseError<'static>> {
        Ok((&text[1..], text.len()))
    };
    assert_eq!(ws(count, "  ab  c"), Ok(("b  c", 5)));
}

#[test]
fn ws_hands_a_failure_on() {
    let strict = |text: &'static str| -> Result<(&'static str, &'static str), ParseError<'static>> {
        Err(ParseError::new(ParseErrorKind::MalformedArgument, text))
    };
    let error = ws(strict, " \n rest ").unwrap_err();
    assert_eq!(error.kind, ParseErrorKind::MalformedArgument);
    assert_eq!(error.at, "rest ");
}
