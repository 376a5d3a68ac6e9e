//! Primitive tokenizers.
//!
//! Each tokenizer takes the text that is still to be read and returns the
//! text behind what it recognized together with the recognized slice. Both
//! are slices of the input: nothing is copied.

use crate::chars::{
    is_newline, is_whitespace, is_whitespace_char, letters, line_text, none_of, spaces,
    whitespace,
};
use crate::error::{ParseError, ParseErrorKind, ParseErrorView};
use crate::instruction::is_argument;
use crate::runs::{
    all_in, lemma_run_len, lemma_skip_while, lemma_trailing_len, lemma_trailing_len_unique,
    run_len, skip_while, take_while, trailing_len, without_trailing,
};
use vstd::pervasive::unreached;
use vstd::prelude::*;
use vstd::string::*;

verus! {

/// The error type of `nom`'s parsers. Nothing is read from it.
#[verifier::external_type_specification]
#[verifier::external_body]
#[verifier::reject_recursive_types(E)]
pub struct ExNomErr<E>(nom::Err<E>);

/// The payload of `nom`'s default errors. Nothing is read from it.
#[verifier::external_type_specification]
#[verifier::external_body]
#[verifier::reject_recursive_types(I)]
pub struct ExNomError<I>(nom::error::Error<I>);

/// `nom::character::complete::multispace0` on a string slice.
///
/// It splits the input behind its longest prefix of spaces, tabs, carriage
/// returns and line feeds, and never fails: the prefix may be empty.
#[verifier::external_body]
fn multispace0<'a>(input: &'a str) -> (res: Result<
    (&'a str, &'a str),
    nom::Err<nom::error::Error<&'a str>>,
>)
    ensures
        match res {
            Ok((rest, run)) => run@ == take_while(input@, whitespace()) && rest@ == skip_while(
                input@,
                whitespace(),
            ),
            Err(_) => false,
        },
{
    nom::character::complete::multispace0(input)
}

/// `nom::character::complete::alpha1` on a string slice.
///
/// It splits the input behind its longest prefix of ASCII letters, and fails
/// exactly when that prefix is empty.
#[verifier::external_body]
fn alpha1<'a>(input: &'a str) -> (res: Result<
    (&'a str, &'a str),
    nom::Err<nom::error::Error<&'a str>>,
>)
    ensures
        match res {
            Ok((rest, run)) => run_len(input@, letters()) > 0 && run@ == take_while(
                input@,
                letters(),
            ) && rest@ == skip_while(input@, letters()),
            Err(_) => run_len(input@, letters()) == 0,
        },
{
    nom::character::complete::alpha1(input)
}

/// `nom::character::complete::space1` on a string slice.
///
/// It splits the input behind its longest prefix of spaces and tabs, and
/// fails exactly when that prefix is empty.
#[verifier::external_body]
fn space1<'a>(input: &'a str) -> (res: Result<
    (&'a str, &'a str),
    nom::Err<nom::error::Error<&'a str>>,
>)
    ensures
        match res {
            Ok((rest, run)) => run_len(input@, spaces()) > 0 && run@ == take_while(
                input@,
                spaces(),
            ) && rest@ == skip_while(input@, spaces()),
            Err(_) => run_len(input@, spaces()) == 0,
        },
{
    nom::character::complete::space1(input)
}

/// `nom::bytes::complete::is_not`, applied to `excluded` and then to `input`.
///
/// It splits the input in front of the first character that occurs in
/// `excluded`, and fails exactly when nothing stands before that character.
#[verifier::external_body]
fn is_not<'a>(excluded: &str, input: &'a str) -> (res: Result<
    (&'a str, &'a str),
    nom::Err<nom::error::Error<&'a str>>,
>)
    ensures
        match res {
            Ok((rest, run)) => run_len(input@, none_of(excluded@)) > 0 && run@ == take_while(
                input@,
                none_of(excluded@),
            ) && rest@ == skip_while(input@, none_of(excluded@)),
            Err(_) => run_len(input@, none_of(excluded@)) == 0,
        },
{
    nom::bytes::complete::is_not(excluded)(input)
}

/// The mathematical value of a tokenizer's result.
pub open spec fn token_view<'a>(res: Result<(&'a str, &'a str), ParseError<'a>>) -> Result<
    (Seq<char>, Seq<char>),
    ParseErrorView,
> {
    match res {
        Ok((rest, token)) => Ok((rest@, token@)),
        Err(e) => Err(e@),
    }
}

/// What [`keyword`] makes of `input`: the letters behind the leading
/// whitespace, if at least one blank follows them, and the text behind those
/// blanks. A failure holds the text from the place where a letter or a blank
/// is missing.
pub open spec fn spec_keyword(input: Seq<char>) -> Result<(Seq<char>, Seq<char>), ParseErrorView> {
    let start = skip_while(input, whitespace());
    let behind = skip_while(start, letters());
    if run_len(start, letters()) == 0 {
        Err(ParseErrorView { kind: ParseErrorKind::MalformedKeyword, at: start })
    } else if run_len(behind, spaces()) == 0 {
        Err(ParseErrorView { kind: ParseErrorKind::MalformedKeyword, at: behind })
    } else {
        Ok((skip_while(behind, spaces()), take_while(start, letters())))
    }
}

/// What [`trimmed_line`] makes of `input`: the text from the first line
/// terminator on, and the line in front of it without its trailing whitespace.
pub open spec fn spec_trimmed_line(input: Seq<char>) -> (Seq<char>, Seq<char>) {
    (skip_while(input, line_text()), without_trailing(take_while(input, line_text()), whitespace()))
}

/// What `ws` makes of `input` when it wraps [`trimmed_line`]: the trimmed
/// first line behind the leading whitespace, and the text from the first
/// character behind that line that is no whitespace.
pub open spec fn spec_argument(input: Seq<char>) -> (Seq<char>, Seq<char>) {
    let line = spec_trimmed_line(skip_while(input, whitespace()));
    (skip_while(line.0, whitespace()), line.1)
}

/// What [`spec_argument`] hands out: an argument that stands in the consumed
/// part of the input, and a suffix of the input that does not start with
/// whitespace.
pub proof fn lemma_argument_shape(input: Seq<char>)
    ensures
        is_argument(spec_argument(input).1),
        spec_argument(input).0.len() <= input.len(),
        spec_argument(input).0 == input.skip(input.len() - spec_argument(input).0.len()),
        spec_argument(input).0.len() > 0 ==> !is_whitespace(spec_argument(input).0[0]),
        exists|from: int|
            0 <= from && from + spec_argument(input).1.len() <= input.len() - spec_argument(
                input,
            ).0.len() && spec_argument(input).1 == #[trigger] input.subrange(
                from,
                from + spec_argument(input).1.len(),
            ),
{
    let front = skip_while(input, whitespace());
    let line = take_while(front, line_text());
    let behind = skip_while(front, line_text());
    let arg = without_trailing(line, whitespace());
    let rest = skip_while(behind, whitespace());
    lemma_skip_while(input, whitespace());
    lemma_run_len(input, whitespace());
    lemma_skip_while(front, line_text());
    lemma_run_len(front, line_text());
    lemma_skip_while(behind, whitespace());
    lemma_run_len(behind, whitespace());
    lemma_trailing_len(line, whitespace());
    assert(rest =~= input.skip(input.len() - rest.len()));
    assert forall|i: int| 0 <= i < arg.len() implies line_text().contains(#[trigger] arg[i]) by {
        assert(arg[i] == line[i]);
    }
    if arg.len() > 0 {
        assert(arg.first() == front[0]);
        assert(arg.last() == line[line.len() - trailing_len(line, whitespace()) - 1]);
    }
    let from = run_len(input, whitespace()) as int;
    assert(arg =~= input.subrange(from, from + arg.len()));
}

/// Skips the whitespace at the front of `input`.
pub fn skip_whitespace<'a>(input: &'a str) -> (rest: &'a str)
    ensures
        rest@ == skip_while(input@, whitespace()),
{
    match multispace0(input) {
        Ok((rest, _)) => rest,
        Err(_) => unreached(),
    }
}

/// Reads a keyword and the blanks that separate it from its argument.
///
/// Whitespace in front of the keyword is skipped, blank lines included. The
/// keyword is the longest run of ASCII letters that follows. It fails where
/// no letter stands there, and where no space or tab stands directly behind
/// the letters; the error holds the text from the place where the letter or
/// the blank is missing.
pub fn keyword<'a>(input: &'a str) -> (res: Result<(&'a str, &'a str), ParseError<'a>>)
    ensures
        token_view(res) == spec_keyword(input@),
{
    let start = skip_whitespace(input);
    match alpha1(start) {
        Ok((behind, word)) => match space1(behind) {
            Ok((rest, _)) => Ok((rest, word)),
            Err(_) => Err(ParseError::new(ParseErrorKind::MalformedKeyword, behind)),
        },
        Err(_) => Err(ParseError::new(ParseErrorKind::MalformedKeyword, start)),
    }
}

/// Splits `input` in front of its first carriage return or line feed.
///
/// The recognized line may be empty, and it keeps its trailing blanks.
pub fn is_not_newline<'a>(input: &'a str) -> (res: (&'a str, &'a str))
    ensures
        res.0@ == skip_while(input@, line_text()),
        res.1@ == take_while(input@, line_text()),
{
    proof {
        reveal_strlit("\r\n");
        assert forall|c: char| "\r\n"@.contains(c) <==> is_newline(c) by {
            if is_newline(c) {
                assert("\r\n"@[0] == '\r' && "\r\n"@[1] == '\n');
            }
        }
        assert(none_of("\r\n"@) =~= line_text());
    }
    match is_not("\r\n", input) {
        Ok(split) => split,
        Err(_) => (input, input.substring_char(0, 0)),
    }
}

/// Removes the whitespace at the end of `text`.
pub fn trim_end<'a>(text: &'a str) -> (trimmed: &'a str)
    ensures
        trimmed@ == without_trailing(text@, whitespace()),
{
    let mut end: usize = text.unicode_len();
    loop
        invariant
            end <= text@.len(),
            all_in(text@.skip(end as int), whitespace()),
        ensures
            end <= text@.len(),
            all_in(text@.skip(end as int), whitespace()),
            end > 0 ==> !whitespace().contains(text@[end - 1]),
        decreases end,
    {
        if end == 0 {
            break ;
        }
        let last: char = text.get_char(end - 1);
        if !is_whitespace_char(last) {
            break ;
        }
        proof {
            assert forall|i: int| 0 <= i < text@.len() - (end - 1) implies whitespace().contains(
                #[trigger] text@.skip(end - 1)[i],
            ) by {
                if i > 0 {
                    assert(text@.skip(end - 1)[i] == text@.skip(end as int)[i - 1]);
                }
            }
        }
        end = end - 1;
    }
    proof {
        lemma_trailing_len_unique(text@, whitespace(), text@.len() - end);
    }
    text.substring_char(0, end)
}

/// Reads the rest of the current line as an argument.
///
/// The argument is the text in front of the first carriage return or line
/// feed, without the whitespace at its end. It may be empty, so this
/// tokenizer never fails.
pub fn trimmed_line<'a>(input: &'a str) -> (res: Result<(&'a str, &'a str), ParseError<'a>>)
    ensures
        token_view(res) == Ok::<(Seq<char>, Seq<char>), ParseErrorView>(spec_trimmed_line(input@)),
{
    let (rest, line) = is_not_newline(input);
    Ok((rest, trim_end(line)))
}

/// Runs `inner` between two runs of whitespace.
///
/// The whitespace at the front of `input` is skipped, `inner` reads what
/// follows, and the whitespace behind what `inner` consumed is skipped too.
/// A failure of `inner` is handed on unchanged.
pub fn ws<'a, O, E, F>(inner: F, input: &'a str) -> (res: Result<(&'a str, O), E>) where
    F: Fn(&'a str) -> Result<(&'a str, O), E>,

    requires
        forall|front: &'a str|
            front@ == skip_while(input@, whitespace()) ==> call_requires(inner, (front,)),
    ensures
        match res {
            Ok((rest, token)) => exists|front: &'a str, behind: &'a str|
                front@ == skip_while(input@, whitespace()) && #[trigger] call_ensures(
                    inner,
                    (front,),
                    Ok((behind, token)),
                ) && rest@ == skip_while(behind@, whitespace()),
            Err(e) => exists|front: &'a str|
                front@ == skip_while(input@, whitespace()) && #[trigger] call_ensures(
                    inner,
                    (front,),
                    Err(e),
                ),
        },
{
    let front = skip_whitespace(input);
    match inner(front) {
        Ok((behind, token)) => {
            let rest = skip_whitespace(behind);
            let res: Result<(&'a str, O), E> = Ok((rest, token));
            // `front` and `behind` are the witnesses, with the token named as the result holds it.
            assert(call_ensures(inner, (front,), Ok((behind, res->Ok_0.1))));
            res
        },
        Err(e) => Err(e),
    }
}

} // verus!
