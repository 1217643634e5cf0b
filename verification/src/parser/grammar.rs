//! The grammar of the markup, as functions on sequences of characters.
//!
//! Every rule is a function of the text that is left to read. A rule that
//! matches says how many characters it takes from the front of that text,
//! and which node they stand for.

use crate::ast::{LineKind, LineView, List, ListKind, Node};
use vstd::prelude::*;

verus! {

/// A set of characters, of the few shapes that the grammar asks for.
#[derive(Clone, Copy, Debug)]
pub enum CharSet {
    /// Every character but the one given.
    Except(char),
    /// Every character but the two given.
    Except2(char, char),
    /// The one character given.
    Only(char),
    /// The decoration markers `*`, `/` and `-`.
    Markers,
    /// The digits `0` to `9`.
    Digits,
}

impl CharSet {
    /// Whether `c` is in the set.
    pub open spec fn has(self, c: char) -> bool {
        match self {
            CharSet::Except(a) => c != a,
            CharSet::Except2(a, b) => c != a && c != b,
            CharSet::Only(a) => c == a,
            CharSet::Markers => c == '*' || c == '/' || c == '-',
            CharSet::Digits => '0' <= c && c <= '9',
        }
    }
}

/// Where the run of characters of `set` that starts at `from` ends: the
/// first index at or after `from` whose character is outside `set`, or the
/// length of `s` where there is none.
pub open spec fn span_end(s: Seq<char>, from: int, set: CharSet) -> int
    decreases s.len() - from,
{
    if 0 <= from < s.len() && set.has(s[from]) {
        span_end(s, from + 1, set)
    } else {
        from
    }
}

/// How often `c` occurs in `s`.
pub open spec fn occurrences(s: Seq<char>, c: char) -> nat
    decreases s.len(),
{
    if s.len() == 0 {
        0
    } else {
        occurrences(s.drop_last(), c) + if s.last() == c {
            1nat
        } else {
            0nat
        }
    }
}

/// A count as a decoration stores it: exact up to 255, and 255 from there.
pub open spec fn capped(n: nat) -> u8 {
    if n > 255 {
        255u8
    } else {
        n as u8
    }
}

/// The protocol `http://`.
pub open spec fn http() -> Seq<char> {
    seq!['h', 't', 't', 'p', ':', '/', '/']
}

/// The protocol `https://`.
pub open spec fn https() -> Seq<char> {
    seq!['h', 't', 't', 'p', 's', ':', '/', '/']
}

/// The length of the protocol that `s` begins with: 8 for `https://`, 7 for
/// `http://`, and 0 where it begins with neither.
pub open spec fn protocol_len(s: Seq<char>) -> int {
    if https().is_prefix_of(s) {
        8
    } else if http().is_prefix_of(s) {
        7
    } else {
        0
    }
}

/// `#`, then every character up to the next space or newline. The run may
/// be empty, and a `[` in it is a character like any other.
pub open spec fn hashtag_rule(s: Seq<char>) -> Option<(int, Node)> {
    if s.len() > 0 && s[0] == '#' {
        let end = span_end(s, 1, CharSet::Except2(' ', '\n'));
        Some((end, Node::HashTag { value: s.subrange(1, end) }))
    } else {
        None
    }
}

/// A backtick, every character up to the next backtick, and that backtick.
pub open spec fn block_quote_rule(s: Seq<char>) -> Option<(int, Node)> {
    if s.len() > 0 && s[0] == '`' {
        let end = span_end(s, 1, CharSet::Except('`'));
        if end < s.len() {
            Some((end + 1, Node::BlockQuote { value: s.subrange(1, end) }))
        } else {
            None
        }
    } else {
        None
    }
}

/// The content of the bracket that `s` begins with: what stands between
/// its `[` and its `]`. No bracket nests in another, so that the content
/// holds neither `[` nor `]`; where a second `[` comes before the `]`, or
/// no `]` comes at all, `s` begins with no bracket.
pub open spec fn bracket_content(s: Seq<char>) -> Option<Seq<char>> {
    if s.len() > 0 && s[0] == '[' {
        let end = span_end(s, 1, CharSet::Except2('[', ']'));
        if end < s.len() && s[end] == ']' {
            Some(s.subrange(1, end))
        } else {
            None
        }
    } else {
        None
    }
}

/// The content of a bracket as a decoration: a run of markers, which may be
/// empty, one space, and the text. Each count is the number of markers of
/// its kind in the run, in whatever order they stand.
pub open spec fn emphasis_of(c: Seq<char>) -> Option<Node> {
    let run = span_end(c, 0, CharSet::Markers);
    if run < c.len() && c[run] == ' ' {
        Some(
            Node::Emphasis {
                text: c.skip(run + 1),
                bold: capped(occurrences(c.take(run), '*')),
                italic: capped(occurrences(c.take(run), '/')),
                strikethrough: capped(occurrences(c.take(run), '-')),
            },
        )
    } else {
        None
    }
}

/// The content of a bracket as an external link. There are three shapes,
/// tried in this order:
/// a url that begins with a protocol, a space, and a title;
/// a title without a space, a space, and a url that begins with a protocol;
/// a url that begins with a protocol and holds no space.
pub open spec fn external_link_of(c: Seq<char>) -> Option<Node> {
    let space = span_end(c, 0, CharSet::Except(' '));
    if protocol_len(c) > 0 {
        if space < c.len() {
            Some(Node::ExternalLink { title: Some(c.skip(space + 1)), url: c.take(space) })
        } else {
            Some(Node::ExternalLink { title: None, url: c })
        }
    } else if space < c.len() && protocol_len(c.skip(space + 1)) > 0 {
        Some(Node::ExternalLink { title: Some(c.take(space)), url: c.skip(space + 1) })
    } else {
        None
    }
}

/// The content of a bracket as an internal link: all of it is the title.
pub open spec fn internal_link_of(c: Seq<char>) -> Node {
    Node::InternalLink { title: c }
}

/// The content of a bracket as the first of decoration, external link and
/// internal link that it can be read as.
pub open spec fn bracket_of(c: Seq<char>) -> Node {
    match emphasis_of(c) {
        Some(node) => node,
        None => match external_link_of(c) {
            Some(node) => node,
            None => internal_link_of(c),
        },
    }
}

/// A bracket whose content reads as a decoration.
pub open spec fn emphasis_rule(s: Seq<char>) -> Option<(int, Node)> {
    match bracket_content(s) {
        Some(c) => match emphasis_of(c) {
            Some(node) => Some(((c.len() + 2) as int, node)),
            None => None,
        },
        None => None,
    }
}

/// A bracket whose content reads as an external link.
pub open spec fn external_link_rule(s: Seq<char>) -> Option<(int, Node)> {
    match bracket_content(s) {
        Some(c) => match external_link_of(c) {
            Some(node) => Some(((c.len() + 2) as int, node)),
            None => None,
        },
        None => None,
    }
}

/// A bracket, read as an internal link.
pub open spec fn internal_link_rule(s: Seq<char>) -> Option<(int, Node)> {
    match bracket_content(s) {
        Some(c) => Some(((c.len() + 2) as int, internal_link_of(c))),
        None => None,
    }
}

/// A bracket, read as whatever its content is first found to be.
pub open spec fn bracket_rule(s: Seq<char>) -> Option<(int, Node)> {
    match bracket_content(s) {
        Some(c) => Some(((c.len() + 2) as int, bracket_of(c))),
        None => None,
    }
}

/// A url outside brackets: a protocol, and every character up to the next
/// space, which must be there and is left unread.
pub open spec fn external_link_plain_rule(s: Seq<char>) -> Option<(int, Node)> {
    let space = span_end(s, 0, CharSet::Except(' '));
    if protocol_len(s) > 0 && space < s.len() {
        Some((space, Node::ExternalLink { title: None, url: s.take(space) }))
    } else {
        None
    }
}

/// Whether a space with a `#` right after it stands anywhere in `s`.
pub open spec fn has_space_hash(s: Seq<char>) -> bool {
    exists|k: int| 0 <= k && k + 1 < s.len() && #[trigger] s[k] == ' ' && s[k + 1] == '#'
}

/// Where a hashtag further on bounds a text: at the first `#`, if a space
/// with a `#` right after it stands anywhere in `s`.
pub open spec fn hash_boundary(s: Seq<char>) -> Option<int> {
    if has_space_hash(s) {
        Some(span_end(s, 0, CharSet::Except('#')))
    } else {
        None
    }
}

/// Where the end of the line bounds a text: at the first newline, if there
/// is one.
pub open spec fn newline_boundary(s: Seq<char>) -> Option<int> {
    let end = span_end(s, 0, CharSet::Except('\n'));
    if end < s.len() {
        Some(end)
    } else {
        None
    }
}

/// Where a bracket bounds a text: at the first `[`, or at the end of `s`
/// where there is none.
pub open spec fn bracket_boundary(s: Seq<char>) -> Option<int> {
    Some(span_end(s, 0, CharSet::Except('[')))
}

/// The nearer of two boundaries, either of which may be absent.
pub open spec fn nearer(a: Option<int>, b: Option<int>) -> Option<int> {
    match (a, b) {
        (Some(x), Some(y)) => if y < x {
            Some(y)
        } else {
            Some(x)
        },
        (Some(x), None) => Some(x),
        (None, _) => b,
    }
}

/// Plain text, up to the nearest of three boundaries. No text begins with
/// `#`, and none is empty.
pub open spec fn text_rule(s: Seq<char>) -> Option<(int, Node)> {
    if s.len() == 0 || s[0] == '#' {
        None
    } else {
        match nearer(nearer(hash_boundary(s), newline_boundary(s)), bracket_boundary(s)) {
            Some(end) => if end > 0 {
                Some((end, Node::Text { value: s.take(end) }))
            } else {
                None
            },
            None => None,
        }
    }
}

/// The node at the front of `s`: the first of hashtag, block quote, bracket,
/// url outside brackets and text that matches.
pub open spec fn syntax_rule(s: Seq<char>) -> Option<(int, Node)> {
    if hashtag_rule(s) is Some {
        hashtag_rule(s)
    } else if block_quote_rule(s) is Some {
        block_quote_rule(s)
    } else if bracket_rule(s) is Some {
        bracket_rule(s)
    } else if external_link_plain_rule(s) is Some {
        external_link_plain_rule(s)
    } else {
        text_rule(s)
    }
}

/// The nodes at the front of `s`, one after the other until none matches,
/// and how many characters they take together.
pub open spec fn nodes_rule(s: Seq<char>) -> (Seq<Node>, int)
    decreases s.len(),
{
    match syntax_rule(s) {
        Some((n, node)) => if 0 < n <= s.len() {
            let rest = nodes_rule(s.skip(n));
            (seq![node] + rest.0, n + rest.1)
        } else {
            (Seq::empty(), 0)
        },
        None => (Seq::empty(), 0),
    }
}

/// The list marker at the front of `s`: one tab or more, which give the
/// level, and after them perhaps digits with a period and a space, which
/// make the list a numbered one. Without a tab there is no marker, and
/// nothing is taken.
pub open spec fn list_rule(s: Seq<char>) -> (int, Option<List>) {
    let tabs = span_end(s, 0, CharSet::Only('\t'));
    if tabs >= 1 {
        let digits = span_end(s, tabs, CharSet::Digits);
        if digits > tabs && digits + 1 < s.len() && s[digits] == '.' && s[digits + 1] == ' ' {
            (digits + 2, Some(List { kind: ListKind::Decimal, level: tabs as usize }))
        } else {
            (tabs, Some(List { kind: ListKind::Disc, level: tabs as usize }))
        }
    } else {
        (0, None)
    }
}

/// The kind of line that a list marker, or its absence, makes.
pub open spec fn line_kind(list: Option<List>) -> LineKind {
    match list {
        Some(list) => LineKind::List(list),
        None => LineKind::Normal,
    }
}

/// The line at the front of `s`, which must not be empty: the newline that
/// parts it from the line before, if `s` begins with one; a list marker, if
/// there is one; and its nodes. The newline after the line is not read.
pub open spec fn line_rule(s: Seq<char>) -> Option<(int, LineView)> {
    if s.len() == 0 {
        None
    } else {
        let newline: int = if s[0] == '\n' {
            1
        } else {
            0
        };
        let list = list_rule(s.skip(newline));
        let nodes = nodes_rule(s.skip(newline + list.0));
        Some(
            (newline + list.0 + nodes.1, LineView { kind: line_kind(list.1), values: nodes.0 }),
        )
    }
}

/// The lines of `s`, and how many characters they take together. Reading
/// stops at the end of `s`, or before a line that would take nothing: that
/// is at a `[` with which no bracket begins.
pub open spec fn page_rule(s: Seq<char>) -> (Seq<LineView>, int)
    decreases s.len(),
{
    match line_rule(s) {
        Some((n, line)) => if 0 < n <= s.len() {
            let rest = page_rule(s.skip(n));
            (seq![line] + rest.0, n + rest.1)
        } else {
            (Seq::empty(), 0)
        },
        None => (Seq::empty(), 0),
    }
}

} // verus!
