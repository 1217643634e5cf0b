//! Reading the markup: from text to a [`Page`].
//!
//! The functions of this module take a string and hand back what is left of
//! it. [`grammar`] states what each rule matches, and [`rules`] holds the
//! rules as functions on characters.

use crate::ast::{BlockQuote, Emphasis, HashTag, Line, Node, Page};
use crate::laws::{as_read, lemma_page_rule_as_read, lemma_reading_stops_at_open_bracket};
use crate::parser::grammar::{
    block_quote_rule, bracket_content, emphasis_rule, hashtag_rule, line_rule, page_rule,
};
use crate::parser::scan::chars_of;
use vstd::prelude::*;
use vstd::string::StrSliceExecFns;

pub mod grammar;
pub mod rules;
pub mod scan;

verus! {

/// The rule does not match at the front of the text.
#[derive(Debug, Clone, Copy, PartialEq, Eq)]
pub struct NoMatch;

/// Whether `r` is what a rule with the outcome `rule` returns on `input`:
/// where the rule matches, the node and the text after what it took; where
/// it does not, the error.
pub open spec fn reads<T: View<V = Node>>(
    input: Seq<char>,
    rule: Option<(int, Node)>,
    r: Result<(&str, T), NoMatch>,
) -> bool {
    match rule {
        Some((n, node)) => r matches Ok((rest, value)) && rest@ == input.skip(n) && value@
            == node,
        None => r is Err,
    }
}

/// The text from its character of index `from` on.
fn tail(input: &str, from: usize, len: usize) -> (r: &str)
    requires
        from <= len == input@.len(),
    ensures
        r@ == input@.skip(from as int),
{
    input.substring_char(from, len)
}

/// Reads a whole document. The page holds the lines that were read, and the
/// string is what was left unread: nothing, unless reading stopped at a `[`
/// with which no bracket begins.
///
/// The page is well formed, and holds neither a heading nor a list of the
/// reserved kind.
pub fn page(input: &str) -> (r: (&str, Page))
    ensures
        r.1@ == page_rule(input@).0,
        r.0@ == input@.skip(page_rule(input@).1),
        r.0@.len() > 0 ==> r.0@[0] == '[' && bracket_content(r.0@) is None,
        r.1.wf(),
        forall|i: int| 0 <= i < r.1@.len() ==> as_read(#[trigger] r.1@[i]),
{
    let chars = chars_of(input);
    let (n, page) = rules::page(chars.as_slice());
    proof {
        lemma_reading_stops_at_open_bracket(input@);
        lemma_page_rule_as_read(input@);
        assert(page@ == page_rule(input@).0);
    }
    (tail(input, n, chars.len()), page)
}

/// Reads one line. There is none to read where the text is empty, and
/// nowhere else.
pub fn line(input: &str) -> (r: Result<(&str, Line), NoMatch>)
    ensures
        match line_rule(input@) {
            Some((n, line)) => r matches Ok((rest, value)) && rest@ == input@.skip(n) && value@
                == line && value.wf(),
            None => r is Err,
        },
        r is Err <==> input@.len() == 0,
{
    let chars = chars_of(input);
    match rules::line(chars.as_slice()) {
        Some((n, line)) => Ok((tail(input, n, chars.len()), line)),
        None => Err(NoMatch),
    }
}

/// Reads a hashtag: `#` and what follows it up to the next space or
/// newline.
pub fn hashtag(input: &str) -> (r: Result<(&str, HashTag), NoMatch>)
    ensures
        reads(input@, hashtag_rule(input@), r),
{
    let chars = chars_of(input);
    match rules::hashtag(chars.as_slice()) {
        Some((n, node)) => Ok((tail(input, n, chars.len()), node)),
        None => Err(NoMatch),
    }
}

/// Reads a bracket that holds a decoration: `[`, markers, a space, the
/// text, `]`.
pub fn emphasis(input: &str) -> (r: Result<(&str, Emphasis), NoMatch>)
    ensures
        reads(input@, emphasis_rule(input@), r),
{
    let chars = chars_of(input);
    match rules::emphasis(chars.as_slice()) {
        Some((n, node)) => Ok((tail(input, n, chars.len()), node)),
        None => Err(NoMatch),
    }
}

/// Reads a block quote: what stands between two backticks.
pub fn block_quote(input: &str) -> (r: Result<(&str, BlockQuote), NoMatch>)
    ensures
        reads(input@, block_quote_rule(input@), r),
{
    let chars = chars_of(input);
    match rules::block_quote(chars.as_slice()) {
        Some((n, node)) => Ok((tail(input, n, chars.len()), node)),
        None => Err(NoMatch),
    }
}

} // verus!
