//! What holds of reading and writing taken together: on the way from the
//! source to the Markdown no text is lost.
//!
//! The source is told apart into text and markup. Reading keeps the text
//! and drops the markup, so that the source that was read holds every
//! character as often as the text of the page and the markup hold it
//! together. Writing keeps the text, so that the Markdown holds every
//! character at least as often as the text of the page does.

use crate::ast::{LineKind, LineView, Node};
use crate::parser::grammar::{
    block_quote_rule, bracket_content, bracket_of, bracket_rule, emphasis_of,
    external_link_of, external_link_plain_rule, hashtag_rule, line_rule, list_rule,
    nodes_rule, occurrences, page_rule, span_end, syntax_rule, text_rule, CharSet,
};
use crate::parser::scan::{lemma_occurrences_add, lemma_span_end};
use crate::visitor::markdown::{render_node, render_nodes, render_page, MarkdownPass};
use vstd::prelude::*;

verus! {

/// The text that a node carries: what its source had between the markup,
/// the title of a link before its url.
pub open spec fn node_text(node: Node) -> Seq<char> {
    match node {
        Node::HashTag { value } => value,
        Node::InternalLink { title } => title,
        Node::ExternalLink { title: Some(title), url } => title + url,
        Node::ExternalLink { title: None, url } => url,
        Node::Emphasis { text, .. } => text,
        Node::Heading { text, .. } => text,
        Node::BlockQuote { value } => value,
        Node::Text { value } => value,
    }
}

/// The text that a run of nodes carries.
pub open spec fn nodes_text(nodes: Seq<Node>) -> Seq<char>
    decreases nodes.len(),
{
    if nodes.len() == 0 {
        Seq::empty()
    } else {
        nodes_text(nodes.drop_last()) + node_text(nodes.last())
    }
}

/// The text that a page carries.
pub open spec fn page_text(lines: Seq<LineView>) -> Seq<char>
    decreases lines.len(),
{
    if lines.len() == 0 {
        Seq::empty()
    } else {
        page_text(lines.drop_last()) + nodes_text(lines.last().values)
    }
}

/// The markup inside a bracket with the content `c`: the markers of a
/// decoration with the space after them, or the space that parts the title
/// of a link from its url.
pub open spec fn bracket_markup(c: Seq<char>) -> Seq<char> {
    if emphasis_of(c) is Some {
        c.take(span_end(c, 0, CharSet::Markers) + 1)
    } else if external_link_of(c) is Some && span_end(c, 0, CharSet::Except(' ')) < c.len() {
        seq![' ']
    } else {
        Seq::empty()
    }
}

/// The markup of the node at the front of `s`: the `#` of a hashtag, the
/// two backticks of a block quote, the two brackets of a bracket and the
/// markup inside it. A url outside brackets and a text have none.
pub open spec fn syntax_markup(s: Seq<char>) -> Seq<char> {
    if hashtag_rule(s) is Some {
        seq!['#']
    } else if block_quote_rule(s) is Some {
        seq!['`', '`']
    } else {
        match bracket_content(s) {
            Some(c) => seq!['[', ']'] + bracket_markup(c),
            None => Seq::empty(),
        }
    }
}

/// The markup of the nodes at the front of `s`.
pub open spec fn nodes_markup(s: Seq<char>) -> Seq<char>
    decreases s.len(),
{
    match syntax_rule(s) {
        Some((n, _)) => if 0 < n <= s.len() {
            syntax_markup(s) + nodes_markup(s.skip(n))
        } else {
            Seq::empty()
        },
        None => Seq::empty(),
    }
}

/// The markup of the line at the front of `s`: the newline before the
/// line, the list marker, and the markup of the nodes.
pub open spec fn line_markup(s: Seq<char>) -> Seq<char> {
    if s.len() == 0 {
        Seq::empty()
    } else {
        let newline: int = if s[0] == '\n' {
            1
        } else {
            0
        };
        let marker = newline + list_rule(s.skip(newline)).0;
        s.take(marker) + nodes_markup(s.skip(marker))
    }
}

/// The markup of the lines of `s`.
pub open spec fn page_markup(s: Seq<char>) -> Seq<char>
    decreases s.len(),
{
    match line_rule(s) {
        Some((n, _)) => if 0 < n <= s.len() {
            line_markup(s) + page_markup(s.skip(n))
        } else {
            Seq::empty()
        },
        None => Seq::empty(),
    }
}

/// The characters that markup is written with.
pub open spec fn is_markup(c: char) -> bool {
    ||| c == '#'
    ||| c == '`'
    ||| c == '['
    ||| c == ']'
    ||| c == ' '
    ||| c == '\n'
    ||| c == '\t'
    ||| c == '*'
    ||| c == '/'
    ||| c == '-'
    ||| c == '.'
    ||| ('0' <= c && c <= '9')
}

/// Whether every character of `s` is one that markup is written with.
pub open spec fn all_markup(s: Seq<char>) -> bool {
    forall|i: int| 0 <= i < s.len() ==> is_markup(#[trigger] s[i])
}

/// How often a character occurs in a text is how often the text holds it
/// when taken as a bag of characters.
pub proof fn lemma_occurrences_count(s: Seq<char>, c: char)
    ensures
        occurrences(s, c) == s.to_multiset().count(c),
    decreases s.len(),
{
    if s.len() == 0 {
        s.to_multiset_ensures();
        assert(s.to_multiset().len() == 0);
        if s.to_multiset().count(c) > 0 {
            assert(s.to_multiset().contains(c));
            assert(s.contains(c));
        }
    } else {
        lemma_occurrences_count(s.drop_last(), c);
        vstd::seq_lib::to_multiset_build(s.drop_last(), s.last());
        assert(s.drop_last().push(s.last()) =~= s);
    }
}

/// The counts of a decoration do not depend on the order in which its
/// markers stand: two runs of the same markers give the same counts.
pub proof fn lemma_occurrences_ignore_order(a: Seq<char>, b: Seq<char>, c: char)
    requires
        a.to_multiset() == b.to_multiset(),
    ensures
        occurrences(a, c) == occurrences(b, c),
{
    lemma_occurrences_count(a, c);
    lemma_occurrences_count(b, c);
}

/// The Markdown of a node holds every character of the node's text, as
/// often as the text holds it.
pub proof fn lemma_node_text_kept(node: Node, c: char)
    ensures
        occurrences(node_text(node), c) <= occurrences(render_node(node), c),
{
    broadcast use lemma_occurrences_add;

}

/// The Markdown of a run of nodes holds every character of their text.
pub proof fn lemma_nodes_text_kept(nodes: Seq<Node>, c: char)
    ensures
        occurrences(nodes_text(nodes), c) <= occurrences(render_nodes(nodes), c),
    decreases nodes.len(),
{
    broadcast use lemma_occurrences_add;

    if nodes.len() > 0 {
        lemma_nodes_text_kept(nodes.drop_last(), c);
        lemma_node_text_kept(nodes.last(), c);
    }
}

/// Writing loses no text: the Markdown of a page holds every character of
/// the text of the page, at least as often as the text holds it.
pub proof fn lemma_page_text_kept(lines: Seq<LineView>, indent: Seq<char>, c: char)
    ensures
        occurrences(page_text(lines), c) <= occurrences(render_page(lines, indent), c),
    decreases lines.len(),
{
    broadcast use lemma_occurrences_add;

    if lines.len() > 0 {
        lemma_page_text_kept(lines.drop_last(), indent, c);
        lemma_nodes_text_kept(lines.last().values, c);
    }
}

/// Promotion loses no text: a heading carries the text of the decoration
/// that it was made from, so the page carries the same text as before.
pub proof fn lemma_promotion_keeps_text(pass: MarkdownPass, lines: Seq<LineView>)
    ensures
        page_text(pass.promoted_page(lines)) == page_text(lines),
    decreases lines.len(),
{
    if lines.len() > 0 {
        lemma_promotion_keeps_text(pass, lines.drop_last());
        assert(pass.promoted_page(lines).drop_last() =~= pass.promoted_page(lines.drop_last()));
        lemma_promoted_nodes_text(pass, lines.last().values);
    }
}

proof fn lemma_promoted_nodes_text(pass: MarkdownPass, nodes: Seq<Node>)
    ensures
        nodes_text(nodes.map_values(|n: Node| pass.promoted(n))) == nodes_text(nodes),
    decreases nodes.len(),
{
    let after = nodes.map_values(|n: Node| pass.promoted(n));
    if nodes.len() > 0 {
        lemma_promoted_nodes_text(pass, nodes.drop_last());
        assert(after.drop_last() =~= nodes.drop_last().map_values(|n: Node| pass.promoted(n)));
    }
}

proof fn lemma_occurrences_absent(s: Seq<char>, c: char)
    requires
        forall|i: int| 0 <= i < s.len() ==> s[i] != c,
    ensures
        occurrences(s, c) == 0,
    decreases s.len(),
{
    if s.len() > 0 {
        lemma_occurrences_absent(s.drop_last(), c);
    }
}

proof fn lemma_nodes_text_add(a: Seq<Node>, b: Seq<Node>)
    ensures
        nodes_text(a + b) == nodes_text(a) + nodes_text(b),
    decreases b.len(),
{
    if b.len() == 0 {
        assert(a + b =~= a);
        assert(nodes_text(a) + nodes_text(b) =~= nodes_text(a));
    } else {
        lemma_nodes_text_add(a, b.drop_last());
        assert((a + b).drop_last() =~= a + b.drop_last());
        assert((nodes_text(a) + nodes_text(b.drop_last())) + node_text(b.last()) =~= nodes_text(a)
            + nodes_text(b));
    }
}

proof fn lemma_page_text_add(a: Seq<LineView>, b: Seq<LineView>)
    ensures
        page_text(a + b) == page_text(a) + page_text(b),
    decreases b.len(),
{
    if b.len() == 0 {
        assert(a + b =~= a);
        assert(page_text(a) + page_text(b) =~= page_text(a));
    } else {
        lemma_page_text_add(a, b.drop_last());
        assert((a + b).drop_last() =~= a + b.drop_last());
        assert((page_text(a) + page_text(b.drop_last())) + nodes_text(b.last().values)
            =~= page_text(a) + page_text(b));
    }
}

/// The content of a bracket is the text of the node it is read as, and the
/// markup inside the bracket.
proof fn lemma_bracket_parts(content: Seq<char>, c: char)
    ensures
        occurrences(content, c) == occurrences(node_text(bracket_of(content)), c) + occurrences(
            bracket_markup(content),
            c,
        ),
        all_markup(bracket_markup(content)),
{
    broadcast use lemma_occurrences_add;

    reveal_with_fuel(occurrences, 2);
    if emphasis_of(content) is Some {
        lemma_span_end(content, 0, CharSet::Markers);
        let run = span_end(content, 0, CharSet::Markers);
        assert(content =~= content.take(run + 1) + content.skip(run + 1));
    } else if external_link_of(content) is Some {
        lemma_span_end(content, 0, CharSet::Except(' '));
        let space = span_end(content, 0, CharSet::Except(' '));
        if space < content.len() {
            assert(content =~= content.take(space) + seq![' '] + content.skip(space + 1));
        }
    }
}

/// Every node is read from at least one character, and from no more than
/// there are. What it is read from is its text and its markup.
pub proof fn lemma_syntax_rule_parts(s: Seq<char>, c: char)
    ensures
        syntax_rule(s) matches Some((n, node)) ==> 0 < n <= s.len() && occurrences(s.take(n), c)
            == occurrences(node_text(node), c) + occurrences(syntax_markup(s), c),
        all_markup(syntax_markup(s)),
{
    broadcast use lemma_occurrences_add;

    reveal_with_fuel(occurrences, 3);
    if hashtag_rule(s) is Some {
        lemma_span_end(s, 1, CharSet::Except2(' ', '\n'));
        let end = span_end(s, 1, CharSet::Except2(' ', '\n'));
        assert(s.take(end) =~= seq!['#'] + s.subrange(1, end));
    } else if block_quote_rule(s) is Some {
        lemma_span_end(s, 1, CharSet::Except('`'));
        let end = span_end(s, 1, CharSet::Except('`'));
        assert(s.take(end + 1) =~= seq!['`'] + s.subrange(1, end) + seq!['`']);
        assert(seq!['`', '`'] =~= seq!['`'] + seq!['`']);
    } else if bracket_rule(s) is Some {
        let content = bracket_content(s)->0;
        lemma_span_end(s, 1, CharSet::Except2('[', ']'));
        assert(s.take((content.len() + 2) as int) =~= seq!['['] + content + seq![']']);
        assert(seq!['[', ']'] =~= seq!['['] + seq![']']);
        lemma_bracket_parts(content, c);
    } else if external_link_plain_rule(s) is Some {
        lemma_span_end(s, 0, CharSet::Except(' '));
        let space = span_end(s, 0, CharSet::Except(' '));
        if space == 0 {
            assert(s.subrange(0, 8)[0] == 'h' || s.subrange(0, 7)[0] == 'h');
        }
    } else if text_rule(s) is Some {
        lemma_span_end(s, 0, CharSet::Except('#'));
        lemma_span_end(s, 0, CharSet::Except('\n'));
        lemma_span_end(s, 0, CharSet::Except('['));
    }
}

/// What a run of nodes is read from is their text and their markup.
pub proof fn lemma_nodes_rule_parts(s: Seq<char>, c: char)
    ensures
        0 <= nodes_rule(s).1 <= s.len(),
        occurrences(s.take(nodes_rule(s).1), c) == occurrences(nodes_text(nodes_rule(s).0), c)
            + occurrences(nodes_markup(s), c),
        all_markup(nodes_markup(s)),
    decreases s.len(),
{
    broadcast use lemma_occurrences_add;

    lemma_syntax_rule_parts(s, c);
    match syntax_rule(s) {
        Some((n, node)) => {
            let rest = nodes_rule(s.skip(n));
            lemma_nodes_rule_parts(s.skip(n), c);
            assert(s.take(n + rest.1) =~= s.take(n) + s.skip(n).take(rest.1));
            lemma_nodes_text_add(seq![node], rest.0);
            assert(seq![node].drop_last() =~= Seq::<Node>::empty());
            assert(nodes_text(seq![node]) =~= node_text(node)) by {
                reveal_with_fuel(nodes_text, 2);
            }
        },
        None => {
            assert(s.take(0) =~= Seq::<char>::empty());
        },
    }
}

/// A list marker is markup all through.
proof fn lemma_list_rule_markup(s: Seq<char>)
    ensures
        0 <= list_rule(s).0 <= s.len(),
        all_markup(s.take(list_rule(s).0)),
{
    lemma_span_end(s, 0, CharSet::Only('\t'));
    let tabs = span_end(s, 0, CharSet::Only('\t'));
    lemma_span_end(s, tabs, CharSet::Digits);
}

/// What a line is read from is the text of its nodes and its markup.
pub proof fn lemma_line_rule_parts(s: Seq<char>, c: char)
    ensures
        line_rule(s) matches Some((n, line)) ==> 0 <= n <= s.len() && occurrences(s.take(n), c)
            == occurrences(nodes_text(line.values), c) + occurrences(line_markup(s), c),
        all_markup(line_markup(s)),
{
    broadcast use lemma_occurrences_add;

    if s.len() > 0 {
        let newline: int = if s[0] == '\n' {
            1
        } else {
            0
        };
        let list = list_rule(s.skip(newline));
        let marker = newline + list.0;
        let nodes = nodes_rule(s.skip(marker));
        lemma_list_rule_markup(s.skip(newline));
        lemma_nodes_rule_parts(s.skip(marker), c);
        assert(s.take(marker + nodes.1) =~= s.take(marker) + s.skip(marker).take(nodes.1));
        assert forall|i: int| 0 <= i < marker implies is_markup(#[trigger] s.take(marker)[i]) by {
            if i >= newline {
                assert(s.take(marker)[i] == s.skip(newline).take(list.0)[i - newline]);
            }
        }
    }
}

/// Reading loses no text: the part of the source that was read holds
/// every character as often as the text of the page and the markup hold it
/// together, and the markup is written with none but markup characters.
pub proof fn lemma_page_rule_parts(s: Seq<char>, c: char)
    ensures
        0 <= page_rule(s).1 <= s.len(),
        occurrences(s.take(page_rule(s).1), c) == occurrences(page_text(page_rule(s).0), c)
            + occurrences(page_markup(s), c),
        all_markup(page_markup(s)),
    decreases s.len(),
{
    broadcast use lemma_occurrences_add;

    lemma_line_rule_parts(s, c);
    match line_rule(s) {
        Some((n, line)) => {
            if 0 < n {
                let rest = page_rule(s.skip(n));
                lemma_page_rule_parts(s.skip(n), c);
                assert(s.take(n + rest.1) =~= s.take(n) + s.skip(n).take(rest.1));
                lemma_page_text_add(seq![line], rest.0);
                assert(seq![line].drop_last() =~= Seq::<LineView>::empty());
                assert(page_text(seq![line]) =~= nodes_text(line.values)) by {
                    reveal_with_fuel(page_text, 2);
                }
            } else {
                assert(s.take(0) =~= Seq::<char>::empty());
            }
        },
        None => {
            assert(s.take(0) =~= Seq::<char>::empty());
        },
    }
}

/// Where no rule matches a text that is not empty and begins with no
/// newline, the text begins with a `[`, but with no bracket.
proof fn lemma_syntax_rule_fails(s: Seq<char>)
    requires
        s.len() > 0,
        s[0] != '\n',
        syntax_rule(s) is None,
    ensures
        s[0] == '[',
        bracket_content(s) is None,
{
    assert(hashtag_rule(s) is None);
    assert(bracket_rule(s) is None);
    assert(text_rule(s) is None);
    if s[0] != '[' {
        lemma_span_end(s, 1, CharSet::Except('#'));
        lemma_span_end(s, 1, CharSet::Except('\n'));
        lemma_span_end(s, 1, CharSet::Except('['));
        assert(span_end(s, 0, CharSet::Except('#')) >= 1);
        assert(span_end(s, 0, CharSet::Except('\n')) >= 1);
        assert(span_end(s, 0, CharSet::Except('[')) >= 1);
        assert(text_rule(s) is Some);
    }
}

/// A line that takes nothing stands before a `[` with which no bracket
/// begins.
proof fn lemma_line_takes_nothing(s: Seq<char>)
    requires
        line_rule(s) matches Some((n, _)) && n == 0,
    ensures
        s.len() > 0,
        s[0] == '[',
        bracket_content(s) is None,
{
    let newline: int = if s[0] == '\n' {
        1
    } else {
        0
    };
    let list = list_rule(s.skip(newline));
    lemma_list_rule_markup(s.skip(newline));
    lemma_nodes_rule_parts(s.skip(newline + list.0), 'a');
    assert(newline == 0 && list.0 == 0);
    assert(s.skip(0) =~= s);
    lemma_syntax_rule_parts(s, 'a');
    match syntax_rule(s) {
        Some((n, node)) => {
            lemma_nodes_rule_parts(s.skip(n), 'a');
        },
        None => {
            lemma_syntax_rule_fails(s);
        },
    }
}

/// Reading stops short of the end of the source in one case only: at a `[`
/// with which no bracket begins.
pub proof fn lemma_reading_stops_at_open_bracket(s: Seq<char>)
    ensures
        0 <= page_rule(s).1 <= s.len(),
        page_rule(s).1 < s.len() ==> s[page_rule(s).1] == '[' && bracket_content(
            s.skip(page_rule(s).1),
        ) is None,
    decreases s.len(),
{
    lemma_line_rule_parts(s, 'a');
    match line_rule(s) {
        Some((n, line)) => {
            if 0 < n {
                lemma_reading_stops_at_open_bracket(s.skip(n));
                let rest = page_rule(s.skip(n));
                assert(s.skip(n).skip(rest.1) =~= s.skip(n + rest.1));
            } else {
                lemma_line_takes_nothing(s);
                assert(s.skip(0) =~= s);
            }
        },
        None => {},
    }
}

/// What reading makes: no heading, and no list of the reserved kind.
pub open spec fn as_read(line: LineView) -> bool {
    &&& !(line.kind matches LineKind::List(list) && list.kind is Alphabet)
    &&& forall|i: int| 0 <= i < line.values.len() ==> !(#[trigger] line.values[i] is Heading)
}

proof fn lemma_nodes_rule_as_read(s: Seq<char>)
    ensures
        forall|i: int| 0 <= i < nodes_rule(s).0.len() ==> !(#[trigger] nodes_rule(s).0[i]
            is Heading),
    decreases s.len(),
{
    match syntax_rule(s) {
        Some((n, node)) => {
            if 0 < n <= s.len() {
                lemma_nodes_rule_as_read(s.skip(n));
                let rest = nodes_rule(s.skip(n)).0;
                assert forall|i: int| 0 <= i < nodes_rule(s).0.len() implies !(
                #[trigger] nodes_rule(s).0[i] is Heading) by {
                    if i > 0 {
                        assert(nodes_rule(s).0[i] == rest[i - 1]);
                    }
                }
            }
        },
        None => {},
    }
}

/// A page that was read holds no heading and no list of the reserved kind:
/// only a change made to the page afterwards brings them in.
pub proof fn lemma_page_rule_as_read(s: Seq<char>)
    ensures
        forall|i: int| 0 <= i < page_rule(s).0.len() ==> as_read(#[trigger] page_rule(s).0[i]),
    decreases s.len(),
{
    match line_rule(s) {
        Some((n, line)) => {
            if 0 < n <= s.len() {
                lemma_page_rule_as_read(s.skip(n));
                let newline: int = if s[0] == '\n' {
                    1
                } else {
                    0
                };
                lemma_nodes_rule_as_read(s.skip(newline + list_rule(s.skip(newline)).0));
                let rest = page_rule(s.skip(n)).0;
                assert forall|i: int| 0 <= i < page_rule(s).0.len() implies as_read(
                    #[trigger] page_rule(s).0[i],
                ) by {
                    if i > 0 {
                        assert(page_rule(s).0[i] == rest[i - 1]);
                    }
                }
            }
        },
        None => {},
    }
}

/// From the source to the Markdown no text is lost. Where a source is read
/// to its end, every character stands in the Markdown of the page at least
/// as often as it stands in the source outside the markup.
///
/// A source is read to its end unless reading comes to a `[` with which no
/// bracket begins; see [`lemma_reading_stops_at_open_bracket`].
pub proof fn lemma_no_text_lost(source: Seq<char>, indent: Seq<char>, c: char)
    requires
        page_rule(source).1 == source.len(),
    ensures
        occurrences(source, c) - occurrences(page_markup(source), c) <= occurrences(
            render_page(page_rule(source).0, indent),
            c,
        ),
        all_markup(page_markup(source)),
{
    lemma_page_rule_parts(source, c);
    lemma_page_text_kept(page_rule(source).0, indent, c);
    assert(source.take(source.len() as int) =~= source);
}

/// The same holds where the page is promoted before it is written.
pub proof fn lemma_no_text_lost_with_promotion(
    source: Seq<char>,
    pass: MarkdownPass,
    indent: Seq<char>,
    c: char,
)
    requires
        page_rule(source).1 == source.len(),
    ensures
        occurrences(source, c) - occurrences(page_markup(source), c) <= occurrences(
            render_page(pass.promoted_page(page_rule(source).0), indent),
            c,
        ),
        all_markup(page_markup(source)),
{
    lemma_page_rule_parts(source, c);
    lemma_promotion_keeps_text(pass, page_rule(source).0);
    lemma_page_text_kept(pass.promoted_page(page_rule(source).0), indent, c);
    assert(source.take(source.len() as int) =~= source);
}

/// A character that markup is not written with is text wherever it
/// stands: the Markdown holds it at least as often as the source does.
pub proof fn lemma_plain_characters_kept(source: Seq<char>, indent: Seq<char>, c: char)
    requires
        page_rule(source).1 == source.len(),
        !is_markup(c),
    ensures
        occurrences(source, c) <= occurrences(render_page(page_rule(source).0, indent), c),
{
    lemma_no_text_lost(source, indent, c);
    lemma_occurrences_absent(page_markup(source), c);
}

} // verus!
