//! The scanning primitives and the simplest rules, held against the parser
//! combinators of `nom` that state the same thing.

use nom::branch::alt;
use nom::bytes::complete::{tag, take_until, take_while};
use nom::character::complete::{char as one_char, digit1};
use nom::sequence::{delimited, preceded};
use nom::IResult;
use wiki2md::parser::grammar::CharSet;
use wiki2md::parser::{rules, scan};

fn samples() -> Vec<&'static str> {
    vec![
        "",
        " ",
        "#",
        "#tag",
        "#tag rest",
        "#tag\nrest",
        "##a #b",
        "`code` rest",
        "`code",
        "``",
        "[* bold] rest",
        "[*/-*/ mixed]",
        "[title https://example.com]",
        "[https://example.com title]",
        "[http://example.com]",
        "[open",
        "[open [again]",
        "close]",
        "http://example.com rest",
        "https://example.com",
        "http:/broken x",
        "\t\t12. item",
        "\t- item",
        "123. x",
        "0123456789:/",
        "*/-*-/ x",
        "plain text",
        "日本語 #タグ [リンク]",
        "a\tb c\nd",
    ]
}

fn chars(s: &str) -> Vec<char> {
    s.chars().collect()
}

/// How many characters a combinator took, where it matched.
fn taken(r: IResult<&str, &str>) -> Option<usize> {
    r.ok().map(|(_, t)| t.chars().count())
}

#[test]
fn span_takes_what_take_while_takes() {
    for s in samples() {
        let text = chars(s);
        assert_eq!(
            taken(take_while(|c| c != ']')(s)),
            Some(scan::span(&text, 0, CharSet::Except(']')))
        );
        assert_eq!(
            taken(take_while(|c| c != ' ' && c != '\n')(s)),
            Some(scan::span(&text, 0, CharSet::Except2(' ', '\n')))
        );
        assert_eq!(
            taken(take_while(|c| ['*', '/', '-'].contains(&c))(s)),
            Some(scan::span(&text, 0, CharSet::Markers))
        );
        assert_eq!(
            taken(take_while(|c| c == '\t')(s)),
            Some(scan::span(&text, 0, CharSet::Only('\t')))
        );
    }
}

#[test]
fn span_finds_what_take_until_finds() {
    for s in samples() {
        let text = chars(s);
        for (pattern, stop) in [(" ", ' '), ("\n", '\n'), ("#", '#'), ("]", ']')] {
            let end = scan::span(&text, 0, CharSet::Except(stop));
            match taken(take_until(pattern)(s)) {
                Some(n) => assert_eq!(end, n),
                None => assert_eq!(end, text.len()),
            }
        }
    }
}

#[test]
fn span_of_digits_is_what_digit1_takes() {
    for s in samples() {
        let end = scan::span(&chars(s), 0, CharSet::Digits);
        match taken(digit1(s)) {
            Some(n) => assert_eq!(end, n),
            None => assert_eq!(end, 0),
        }
    }
}

#[test]
fn protocol_is_the_tag_that_matches() {
    for s in samples() {
        let r: IResult<&str, &str> = alt((tag("https://"), tag("http://")))(s);
        assert_eq!(taken(r).unwrap_or(0), scan::protocol(&chars(s)));
    }
}

#[test]
fn space_hash_is_found_where_take_until_finds_it() {
    for s in samples() {
        let r: IResult<&str, &str> = take_until(" #")(s);
        assert_eq!(r.is_ok(), rules::space_hash(&chars(s)));
    }
}

#[test]
fn hashtag_is_a_hash_and_a_run() {
    for s in samples() {
        let r: IResult<&str, &str> =
            preceded(tag("#"), take_while(|c| c != ' ' && c != '\n'))(s);
        match (r, rules::hashtag(&chars(s))) {
            (Ok((rest, value)), Some((n, node))) => {
                assert_eq!(node.value, value);
                assert_eq!(rest, s.chars().skip(n).collect::<String>());
            }
            (Err(_), None) => {}
            (r, found) => panic!("{s:?}: {r:?} against {found:?}"),
        }
    }
}

#[test]
fn block_quote_is_a_run_between_backticks() {
    for s in samples() {
        let r: IResult<&str, &str> =
            delimited(one_char('`'), take_while(|c| c != '`'), one_char('`'))(s);
        match (r, rules::block_quote(&chars(s))) {
            (Ok((rest, value)), Some((n, node))) => {
                assert_eq!(node.value, value);
                assert_eq!(rest, s.chars().skip(n).collect::<String>());
            }
            (Err(_), None) => {}
            (r, found) => panic!("{s:?}: {r:?} against {found:?}"),
        }
    }
}

#[test]
fn internal_link_is_a_run_between_brackets() {
    for s in samples() {
        let r: IResult<&str, &str> =
            delimited(one_char('['), take_while(|c| c != '[' && c != ']'), one_char(']'))(s);
        match (r, rules::internal_link(&chars(s))) {
            (Ok((rest, title)), Some((n, node))) => {
                assert_eq!(node.title, title);
                assert_eq!(rest, s.chars().skip(n).collect::<String>());
            }
            (Err(_), None) => {}
            (r, found) => panic!("{s:?}: {r:?} against {found:?}"),
        }
    }
}
