//! The rules of the grammar, each as a function that reads the front of a
//! text and returns what [`crate::parser::grammar`] says it holds.

use crate::ast::{
    lines_view, nodes_view, BlockQuote, Bracket, BracketKind, Emphasis, ExternalLink, HashTag, InternalLink,
    Line, LineKind, LineView, List, ListKind, Node, Page, Syntax, SyntaxKind, Text,
};
use crate::parser::grammar::{
    block_quote_rule, bracket_content, bracket_of, bracket_rule, emphasis_of, emphasis_rule,
    external_link_of, external_link_plain_rule, external_link_rule, has_space_hash,
    hashtag_rule, internal_link_rule, line_rule, list_rule, nearer, nodes_rule, page_rule,
    syntax_rule, text_rule, CharSet,
};
use crate::parser::scan::{
    count_capped, holds, lemma_span_end, part, protocol, rest, span, string_of,
};
use vstd::prelude::*;

verus! {

/// What a rule function found, as the grammar states it: how much it took,
/// and the model of the node.
pub open spec fn matched<T: View<V = Node>>(r: Option<(usize, T)>) -> Option<(int, Node)> {
    match r {
        Some((n, node)) => Some((n as int, node@)),
        None => None,
    }
}

/// The model of a node that may be absent.
pub open spec fn found<T: View<V = Node>>(r: Option<T>) -> Option<Node> {
    match r {
        Some(node) => Some(node@),
        None => None,
    }
}

/// Whether a match takes at least one character and no more than there
/// are.
pub open spec fn within<T>(r: Option<(usize, T)>, len: nat) -> bool {
    r matches Some((n, _)) ==> 0 < n <= len
}

/// A hashtag: `#` and what follows it up to the next space or newline.
pub fn hashtag(s: &[char]) -> (r: Option<(usize, HashTag)>)
    ensures
        matched(r) == hashtag_rule(s@),
        within(r, s@.len()),
{
    if !holds(s, 0, '#') {
        return None;
    }
    let end = span(s, 1, CharSet::Except2(' ', '\n'));
    Some((end, HashTag { value: string_of(part(s, 1, end)) }))
}

/// A block quote: what stands between two backticks.
pub fn block_quote(s: &[char]) -> (r: Option<(usize, BlockQuote)>)
    ensures
        matched(r) == block_quote_rule(s@),
        within(r, s@.len()),
{
    if !holds(s, 0, '`') {
        return None;
    }
    let end = span(s, 1, CharSet::Except('`'));
    if end < s.len() {
        Some((end + 1, BlockQuote { value: string_of(part(s, 1, end)) }))
    } else {
        None
    }
}

/// The content of the bracket that the text begins with, if it begins with
/// one: what stands between its `[` and its `]`.
pub fn bracket(s: &[char]) -> (r: Option<&[char]>)
    ensures
        match r {
            Some(c) => bracket_content(s@) == Some(c@) && c@.len() + 2 <= s@.len() <= usize::MAX,
            None => bracket_content(s@) is None,
        },
{
    if !holds(s, 0, '[') {
        return None;
    }
    let end = span(s, 1, CharSet::Except2('[', ']'));
    if holds(s, end, ']') {
        Some(part(s, 1, end))
    } else {
        None
    }
}

/// The content of a bracket, read as a decoration.
pub fn emphasis_in(c: &[char]) -> (r: Option<Emphasis>)
    ensures
        found(r) == emphasis_of(c@),
{
    let run = span(c, 0, CharSet::Markers);
    if holds(c, run, ' ') {
        let markers = part(c, 0, run);
        Some(
            Emphasis {
                text: string_of(rest(c, run + 1)),
                bold: count_capped(markers, '*'),
                italic: count_capped(markers, '/'),
                strikethrough: count_capped(markers, '-'),
            },
        )
    } else {
        None
    }
}

/// The content of a bracket, read as an external link.
pub fn external_link_in(c: &[char]) -> (r: Option<ExternalLink>)
    ensures
        found(r) == external_link_of(c@),
{
    let space = span(c, 0, CharSet::Except(' '));
    if protocol(c) > 0 {
        if space < c.len() {
            let url = string_of(part(c, 0, space));
            let title = string_of(rest(c, space + 1));
            Some(ExternalLink { title: Some(title), url })
        } else {
            Some(ExternalLink { title: None, url: string_of(c) })
        }
    } else if space < c.len() && protocol(rest(c, space + 1)) > 0 {
        let title = string_of(part(c, 0, space));
        let url = string_of(rest(c, space + 1));
        Some(ExternalLink { title: Some(title), url })
    } else {
        None
    }
}

/// The content of a bracket, read as a decoration, or else as an external
/// link, or else as an internal link.
pub fn bracket_in(c: &[char]) -> (r: BracketKind)
    ensures
        r@ == bracket_of(c@),
{
    if let Some(emphasis) = emphasis_in(c) {
        BracketKind::Emphasis(emphasis)
    } else if let Some(link) = external_link_in(c) {
        BracketKind::ExternalLink(link)
    } else {
        BracketKind::InternalLink(InternalLink { title: string_of(c) })
    }
}

/// A bracket that holds a decoration.
pub fn emphasis(s: &[char]) -> (r: Option<(usize, Emphasis)>)
    ensures
        matched(r) == emphasis_rule(s@),
        within(r, s@.len()),
{
    match bracket(s) {
        Some(c) => match emphasis_in(c) {
            Some(node) => Some((c.len() + 2, node)),
            None => None,
        },
        None => None,
    }
}

/// A bracket that holds an external link, in one of its three shapes.
pub fn external_link(s: &[char]) -> (r: Option<(usize, ExternalLink)>)
    ensures
        matched(r) == external_link_rule(s@),
        within(r, s@.len()),
{
    match bracket(s) {
        Some(c) => match external_link_in(c) {
            Some(node) => Some((c.len() + 2, node)),
            None => None,
        },
        None => None,
    }
}

/// A bracket, read as an internal link whatever it holds.
pub fn internal_link(s: &[char]) -> (r: Option<(usize, InternalLink)>)
    ensures
        matched(r) == internal_link_rule(s@),
        within(r, s@.len()),
{
    match bracket(s) {
        Some(c) => Some((c.len() + 2, InternalLink { title: string_of(c) })),
        None => None,
    }
}

/// A bracket: a decoration, or else an external link, or else an internal
/// link.
pub fn bracketing(s: &[char]) -> (r: Option<(usize, Bracket)>)
    ensures
        matched(r) == bracket_rule(s@),
        within(r, s@.len()),
{
    match bracket(s) {
        Some(c) => Some((c.len() + 2, Bracket::new(bracket_in(c)))),
        None => None,
    }
}

/// A url outside brackets, up to the next space.
pub fn external_link_plain(s: &[char]) -> (r: Option<(usize, ExternalLink)>)
    ensures
        matched(r) == external_link_plain_rule(s@),
        within(r, s@.len()),
{
    let n = protocol(s);
    if n == 0 {
        return None;
    }
    let space = span(s, 0, CharSet::Except(' '));
    if space < s.len() {
        proof {
            // The protocol holds no space, so the url is not empty.
            lemma_span_end(s@, 0, CharSet::Except(' '));
            if space == 0 {
                assert(crate::parser::grammar::https().is_prefix_of(s@)
                    || crate::parser::grammar::http().is_prefix_of(s@));
                assert(s@.subrange(0, n as int)[0] == 'h');
            }
        }
        Some((space, ExternalLink { title: None, url: string_of(part(s, 0, space)) }))
    } else {
        None
    }
}

/// Whether a space with a `#` right after it stands anywhere in the text.
pub fn space_hash(s: &[char]) -> (r: bool)
    ensures
        r == has_space_hash(s@),
{
    if s.len() < 2 {
        return false;
    }
    let last = s.len() - 1;
    let mut k: usize = 0;
    while k < last
        invariant
            last + 1 == s@.len(),
            k <= last,
            forall|j: int| 0 <= j < k ==> !(#[trigger] s@[j] == ' ' && s@[j + 1] == '#'),
        decreases last - k,
    {
        if s[k] == ' ' && s[k + 1] == '#' {
            return true;
        }
        k += 1;
    }
    false
}

/// The nearer of two boundaries, either of which may be absent.
pub fn nearest(a: Option<usize>, b: Option<usize>) -> (r: Option<usize>)
    ensures
        boundary(r) == nearer(boundary(a), boundary(b)),
{
    match (a, b) {
        (Some(x), Some(y)) => if y < x {
            Some(y)
        } else {
            Some(x)
        },
        (Some(x), None) => Some(x),
        (None, _) => b,
    }
}

/// A boundary as the grammar states it.
pub open spec fn boundary(b: Option<usize>) -> Option<int> {
    match b {
        Some(n) => Some(n as int),
        None => None,
    }
}

/// Plain text, up to the nearest of a hashtag further on, the end of the
/// line, and a bracket.
pub fn text(s: &[char]) -> (r: Option<(usize, Text)>)
    ensures
        matched(r) == text_rule(s@),
        within(r, s@.len()),
{
    if s.len() == 0 || s[0] == '#' {
        return None;
    }
    let until_tag = if space_hash(s) {
        Some(span(s, 0, CharSet::Except('#')))
    } else {
        None
    };
    let line_end = span(s, 0, CharSet::Except('\n'));
    let until_newline = if line_end < s.len() {
        Some(line_end)
    } else {
        None
    };
    let until_bracket = Some(span(s, 0, CharSet::Except('[')));
    match nearest(nearest(until_tag, until_newline), until_bracket) {
        Some(end) => if end > 0 {
            Some((end, Text { value: string_of(part(s, 0, end)) }))
        } else {
            None
        },
        None => None,
    }
}

/// One node: the first of hashtag, block quote, bracket, url outside
/// brackets and text that matches.
pub fn syntax(s: &[char]) -> (r: Option<(usize, Syntax)>)
    ensures
        matched(r) == syntax_rule(s@),
        within(r, s@.len()),
        r matches Some((_, node)) ==> node@.wf(),
{
    if let Some((n, v)) = hashtag(s) {
        Some((n, Syntax::new(SyntaxKind::HashTag(v))))
    } else if let Some((n, v)) = block_quote(s) {
        Some((n, Syntax::new(SyntaxKind::BlockQuote(v))))
    } else if let Some((n, v)) = bracketing(s) {
        Some((n, Syntax::new(SyntaxKind::Bracket(v))))
    } else if let Some((n, v)) = external_link_plain(s) {
        Some((n, Syntax::new(SyntaxKind::Bracket(Bracket::new(BracketKind::ExternalLink(v))))))
    } else if let Some((n, v)) = text(s) {
        Some((n, Syntax::new(SyntaxKind::Text(v))))
    } else {
        None
    }
}

/// The nodes at the front of the text, until no rule matches.
pub fn nodes(s: &[char]) -> (r: (usize, Vec<Syntax>))
    ensures
        (nodes_view(r.1@), r.0 as int) == nodes_rule(s@),
        r.0 <= s@.len(),
        forall|i: int| 0 <= i < r.1@.len() ==> (#[trigger] r.1@[i])@.wf(),
{
    let mut values: Vec<Syntax> = Vec::new();
    let total = s.len();
    let mut pos: usize = 0;
    assert(s@.skip(0) == s@);
    assert(nodes_view(values@) + nodes_rule(s@).0 == nodes_rule(s@).0);
    loop
        invariant
            pos <= s@.len() == total,
            nodes_rule(s@) == (
                nodes_view(values@) + nodes_rule(s@.skip(pos as int)).0,
                pos + nodes_rule(s@.skip(pos as int)).1,
            ),
            forall|i: int| 0 <= i < values@.len() ==> (#[trigger] values@[i])@.wf(),
        ensures
            pos <= s@.len(),
            nodes_rule(s@) == (nodes_view(values@), pos as int),
            forall|i: int| 0 <= i < values@.len() ==> (#[trigger] values@[i])@.wf(),
        decreases s@.len() - pos,
    {
        let ghost tail = s@.skip(pos as int);
        match syntax(rest(s, pos)) {
            Some((n, node)) => {
                let ghost before = nodes_view(values@);
                values.push(node);
                pos += n;
                proof {
                    assert(tail.skip(n as int) == s@.skip(pos as int));
                    assert(nodes_view(values@) == before.push(node@));
                    let after = nodes_rule(s@.skip(pos as int)).0;
                    assert(before.push(node@) + after == before + (seq![node@] + after));
                }
            },
            None => {
                assert(nodes_view(values@) + Seq::<Node>::empty() == nodes_view(values@));
                break ;
            },
        }
    }
    (pos, values)
}

/// The list marker at the front of the text, if there is one, and how many
/// characters it takes.
pub fn list(s: &[char]) -> (r: (usize, Option<List>))
    ensures
        (r.0 as int, r.1) == list_rule(s@),
        r.0 <= s@.len(),
        r.1 matches Some(list) ==> list.wf(),
{
    let tabs = span(s, 0, CharSet::Only('\t'));
    if tabs >= 1 {
        let digits = span(s, tabs, CharSet::Digits);
        if digits > tabs && holds(s, digits, '.') && holds(s, digits + 1, ' ') {
            (digits + 2, Some(List { kind: ListKind::Decimal, level: tabs }))
        } else {
            (tabs, Some(List { kind: ListKind::Disc, level: tabs }))
        }
    } else {
        (0, None)
    }
}

/// One line: the newline before it, its list marker, its nodes. The text
/// must not be empty.
pub fn line(s: &[char]) -> (r: Option<(usize, Line)>)
    ensures
        matched_line(r) == line_rule(s@),
        r matches Some((n, line)) ==> n <= s@.len() && line.wf(),
{
    if s.len() == 0 {
        return None;
    }
    let newline: usize = if s[0] == '\n' {
        1
    } else {
        0
    };
    let (marker, list) = list(rest(s, newline));
    let kind = match list {
        Some(list) => LineKind::List(list),
        None => LineKind::Normal,
    };
    let (taken, values) = nodes(rest(s, newline + marker));
    Some((newline + marker + taken, Line::new(kind, values)))
}

/// What [`line`] found, as the grammar states it.
pub open spec fn matched_line(r: Option<(usize, Line)>) -> Option<(int, LineView)> {
    match r {
        Some((n, line)) => Some((n as int, line@)),
        None => None,
    }
}

/// The lines of the text, and how many characters they take together.
pub fn page(s: &[char]) -> (r: (usize, Page))
    ensures
        (r.1@, r.0 as int) == page_rule(s@),
        r.0 <= s@.len(),
        r.1.wf(),
{
    let mut lines: Vec<Line> = Vec::new();
    let total = s.len();
    let mut pos: usize = 0;
    assert(s@.skip(0) == s@);
    assert(lines_view(lines@) + page_rule(s@).0 == page_rule(s@).0);
    loop
        invariant
            pos <= s@.len() == total,
            page_rule(s@) == (
                lines_view(lines@) + page_rule(s@.skip(pos as int)).0,
                pos + page_rule(s@.skip(pos as int)).1,
            ),
            forall|i: int| 0 <= i < lines@.len() ==> (#[trigger] lines@[i]).wf(),
        ensures
            pos <= s@.len(),
            page_rule(s@) == (lines_view(lines@), pos as int),
            forall|i: int| 0 <= i < lines@.len() ==> (#[trigger] lines@[i]).wf(),
        decreases s@.len() - pos,
    {
        let ghost tail = s@.skip(pos as int);
        match line(rest(s, pos)) {
            Some((n, line)) => {
                if n == 0 {
                    assert(lines_view(lines@) + Seq::<LineView>::empty() == lines_view(lines@));
                    break ;
                }
                let ghost before = lines_view(lines@);
                lines.push(line);
                pos += n;
                proof {
                    assert(tail.skip(n as int) == s@.skip(pos as int));
                    assert(lines_view(lines@) == before.push(line@));
                    let after = page_rule(s@.skip(pos as int)).0;
                    assert(before.push(line@) + after == before + (seq![line@] + after));
                }
            },
            None => {
                assert(lines_view(lines@) + Seq::<LineView>::empty() == lines_view(lines@));
                break ;
            },
        }
    }
    (pos, Page { lines })
}

} // verus!
