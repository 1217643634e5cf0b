//! The two visitors that turn a parsed page into Markdown: a pass that
//! promotes bold decorations to headings, and the generator of the text.

use crate::ast::{
    BlockQuote, Bracket, BracketKind, Emphasis, ExternalLink, HashTag, Heading, InternalLink,
    LineKind, LineView, ListKind, Node, Page, Syntax, SyntaxKind, Text,
};
use crate::visitor::{
    apply_deletes, apply_replaces, commands_for, state_after, walk_line, walk_page, Edit, Step,
    TransformCommand, Visitor,
};
use vstd::prelude::*;
use vstd::string::StringExecFns;

verus! {

/// Promotes decorations to headings: the bolder the decoration, the higher
/// the heading.
///
/// `h1_level` is the number of heading levels in use, and so the bold count
/// that stands for a first-level heading. With `bold_to_h` unset a single
/// bold marker stays a decoration.
pub struct MarkdownPass {
    pub h1_level: u8,
    pub bold_to_h: bool,
}

impl View for MarkdownPass {
    type V = MarkdownPass;

    open spec fn view(&self) -> MarkdownPass {
        *self
    }
}

impl Default for MarkdownPass {
    fn default() -> (r: Self)
        ensures
            r.h1_level == 3,
            r.bold_to_h == false,
    {
        Self { h1_level: 3, bold_to_h: false }
    }
}

/// The heading level that a decoration of the given bold count is a
/// candidate for: one more than `h1_level`, less the bold count, and never
/// below zero.
pub open spec fn candidate_level(h1_level: u8, bold: u8) -> int {
    if h1_level + 1 >= bold {
        h1_level + 1 - bold
    } else {
        0
    }
}

impl MarkdownPass {
    /// Whether a decoration of the given bold count becomes a heading.
    pub open spec fn promotes(self, bold: u8) -> bool {
        &&& candidate_level(self.h1_level, bold) > 0
        &&& candidate_level(self.h1_level, bold) <= self.h1_level
        &&& (self.bold_to_h || bold > 1)
    }

    /// The node as the pass leaves it: a decoration that is bold enough
    /// becomes a heading with the same text, and loses what italic and
    /// strikethrough it had. Every other node stays.
    pub open spec fn promoted(self, node: Node) -> Node {
        match node {
            Node::Emphasis { text, bold, .. } => if self.promotes(bold) {
                Node::Heading { text, level: candidate_level(self.h1_level, bold) as u8 }
            } else {
                node
            },
            _ => node,
        }
    }

    /// The command that the pass gives for a node.
    pub open spec fn command(self, node: Node) -> Option<Edit> {
        match node {
            Node::Emphasis { bold, .. } => if self.promotes(bold) {
                Some(Edit::Replace(self.promoted(node)))
            } else {
                None
            },
            _ => None,
        }
    }

    /// The line as the pass leaves it: the same kind, the same number of
    /// nodes, each one promoted where the rule says so.
    pub open spec fn promoted_line(self, line: LineView) -> LineView {
        LineView { kind: line.kind, values: line.values.map_values(|n: Node| self.promoted(n)) }
    }

    /// The page as the pass leaves it.
    pub open spec fn promoted_page(self, lines: Seq<LineView>) -> Seq<LineView> {
        lines.map_values(|l: LineView| self.promoted_line(l))
    }

    /// The pass keeps no state, deletes nothing, and replaces exactly the
    /// decorations that [`MarkdownPass::promotes`] names: walking a line
    /// gives the promoted line.
    pub proof fn lemma_walk_line(self, line: LineView)
        ensures
            walk_line(|s: MarkdownPass, n: Node| Self::on_syntax(s, n), self, line) == (
                self,
                self.promoted_line(line),
            ),
    {
        let step: Step<MarkdownPass> = |s: MarkdownPass, n: Node| Self::on_syntax(s, n);
        let nodes = line.values;
        self.lemma_state_after(nodes);
        let commands = commands_for(step, self, nodes);
        assert forall|i: int| 0 <= i < nodes.len() implies commands[i] == self.command(
            nodes[i],
        ) by {
            self.lemma_state_after(nodes.take(i));
        }
        let replaced = apply_replaces(nodes, commands);
        assert(replaced =~= self.promoted_line(line).values);
        lemma_nothing_deleted(replaced, commands);
    }

    proof fn lemma_state_after(self, nodes: Seq<Node>)
        ensures
            state_after(|s: MarkdownPass, n: Node| Self::on_syntax(s, n), self, nodes) == self,
        decreases nodes.len(),
    {
        if nodes.len() > 0 {
            self.lemma_state_after(nodes.drop_last());
        }
    }

    /// Walking a page gives the promoted page: the lines keep their number,
    /// their order and their kinds.
    pub proof fn lemma_walk_page(self, lines: Seq<LineView>)
        ensures
            walk_page(|s: MarkdownPass, n: Node| Self::on_syntax(s, n), self, lines) == (
                self,
                self.promoted_page(lines),
            ),
        decreases lines.len(),
    {
        if lines.len() == 0 {
            assert(lines =~= self.promoted_page(lines));
        } else {
            self.lemma_walk_page(lines.drop_last());
            self.lemma_walk_line(lines.last());
            assert(self.promoted_page(lines.drop_last()).push(
                self.promoted_line(lines.last()),
            ) =~= self.promoted_page(lines));
        }
    }

    /// A promoted heading has a level of at least one, so the pass keeps a
    /// well-formed page well formed.
    pub proof fn lemma_promoted_wf(self, lines: Seq<LineView>)
        requires
            crate::ast::page_wf(lines),
        ensures
            crate::ast::page_wf(self.promoted_page(lines)),
    {
        assert forall|i: int| 0 <= i < lines.len() implies (#[trigger] self.promoted_page(
            lines,
        )[i]).wf() by {
            let line = lines[i];
            assert(line.wf());
            let after = self.promoted_line(line);
            assert forall|j: int| 0 <= j < after.values.len() implies (
            #[trigger] after.values[j]).wf() by {
                assert(line.values[j].wf());
            }
        }
    }
}

/// Where no command is a deletion, the deletion step keeps every node.
pub proof fn lemma_nothing_deleted(nodes: Seq<Node>, commands: Seq<Option<Edit>>)
    requires
        nodes.len() == commands.len(),
        forall|i: int| 0 <= i < commands.len() ==> commands[i] != Some(Edit::Delete),
    ensures
        apply_deletes(nodes, commands) == nodes,
    decreases nodes.len(),
{
    if nodes.len() > 0 {
        lemma_nothing_deleted(nodes.drop_last(), commands.drop_last());
        assert(nodes.drop_last().push(nodes.last()) =~= nodes);
    }
}

impl Visitor for MarkdownPass {
    open spec fn on_syntax(state: MarkdownPass, node: Node) -> (MarkdownPass, Option<Edit>) {
        (state, state.command(node))
    }

    open spec fn plain_page_walk() -> bool {
        true
    }

    /// Rewrites the page in place: every decoration that the rule promotes
    /// becomes a heading, and nothing else changes.
    fn visit(&mut self, value: &mut Page)
        ensures
            *final(self) == *old(self),
            final(value)@ == old(self).promoted_page(old(value)@),
            old(value).wf() ==> final(value).wf(),
    {
        self.visit_page(value);
        proof {
            old(self).lemma_walk_page(old(value)@);
            if old(value).wf() {
                old(self).lemma_promoted_wf(old(value)@);
            }
        }
    }

    fn visit_hashtag(&mut self, _value: &HashTag) -> (r: Option<TransformCommand>) {
        None
    }

    fn visit_bracket_internal_link(&mut self, _value: &InternalLink) -> (r: Option<
        TransformCommand,
    >) {
        None
    }

    fn visit_bracket_external_link(&mut self, _value: &ExternalLink) -> (r: Option<
        TransformCommand,
    >) {
        None
    }

    fn visit_bracket_emphasis(&mut self, emphasis: &Emphasis) -> (r: Option<TransformCommand>) {
        let top: u16 = self.h1_level as u16 + 1;
        let bold: u16 = emphasis.bold as u16;
        let h_level: u16 = if top >= bold {
            top - bold
        } else {
            0
        };
        if (emphasis.bold > 1 || self.bold_to_h) && h_level <= self.h1_level as u16 && h_level
            > 0 {
            Some(
                TransformCommand::Replace(
                    Syntax::new(
                        SyntaxKind::Bracket(
                            Bracket::new(
                                BracketKind::Heading(
                                    Heading::new(emphasis.text.as_str(), h_level as u8),
                                ),
                            ),
                        ),
                    ),
                ),
            )
        } else {
            None
        }
    }

    fn visit_bracket_heading(&mut self, _value: &Heading) -> (r: Option<TransformCommand>) {
        None
    }

    fn visit_block_quote(&mut self, _value: &BlockQuote) -> (r: Option<TransformCommand>) {
        None
    }

    fn visit_text(&mut self, _value: &Text) -> (r: Option<TransformCommand>) {
        None
    }
}

/// `unit` written `n` times over.
pub open spec fn repeated(unit: Seq<char>, n: nat) -> Seq<char>
    decreases n,
{
    if n == 0 {
        Seq::empty()
    } else {
        repeated(unit, (n - 1) as nat) + unit
    }
}

/// `body` between two copies of `mark` where `on` holds, and bare where not.
pub open spec fn wrapped(mark: Seq<char>, body: Seq<char>, on: bool) -> Seq<char> {
    if on {
        mark + body + mark
    } else {
        body
    }
}

/// How many indent units stand before the marker of a list item: one less
/// than its level. (A level of zero, which no well-formed line has, is
/// indented like level one.)
pub open spec fn indent_count(level: usize) -> nat {
    if level >= 1 {
        (level - 1) as nat
    } else {
        0
    }
}

/// The Markdown of one node.
pub open spec fn render_node(node: Node) -> Seq<char> {
    match node {
        Node::HashTag { value } => seq!['[', '#'] + value + seq![']', '(', '#'] + value
            + seq!['.', 'm', 'd', ')'],
        // The suffix stands outside the parenthesis.
        Node::InternalLink { title } => seq!['['] + title + seq![']', '('] + title
            + seq![')', '.', 'm', 'd'],
        Node::ExternalLink { title: Some(title), url } => seq!['['] + title + seq![']', '(']
            + url + seq![')'],
        Node::ExternalLink { title: None, url } => url,
        // Bold innermost, then italic, then strikethrough.
        Node::Emphasis { text, bold, italic, strikethrough } => wrapped(
            seq!['~', '~'],
            wrapped(seq!['*'], wrapped(seq!['*', '*'], text, bold > 0), italic > 0),
            strikethrough > 0,
        ),
        Node::Heading { text, level } => repeated(seq!['#'], level as nat) + seq![' '] + text,
        Node::BlockQuote { value } => value,
        Node::Text { value } => value,
    }
}

/// The Markdown of a run of nodes: one after the other, nothing between.
pub open spec fn render_nodes(nodes: Seq<Node>) -> Seq<char>
    decreases nodes.len(),
{
    if nodes.len() == 0 {
        Seq::empty()
    } else {
        render_nodes(nodes.drop_last()) + render_node(nodes.last())
    }
}

/// What stands before the nodes of a line: for a list item the indent and
/// the marker, else nothing.
pub open spec fn line_prefix(kind: LineKind, indent: Seq<char>) -> Seq<char> {
    match kind {
        LineKind::Normal => Seq::empty(),
        LineKind::List(list) => match list.kind {
            ListKind::Disc => repeated(indent, indent_count(list.level)) + seq!['*', ' '],
            ListKind::Decimal => repeated(indent, indent_count(list.level)) + seq![
                '1',
                '.',
                ' ',
            ],
            ListKind::Alphabet => Seq::empty(),
        },
    }
}

/// The Markdown of one line, with the newline that ends it.
pub open spec fn render_line(line: LineView, indent: Seq<char>) -> Seq<char> {
    line_prefix(line.kind, indent) + render_nodes(line.values) + seq!['\n']
}

/// The Markdown of a page: its lines in order, each ended by a newline.
pub open spec fn render_page(lines: Seq<LineView>, indent: Seq<char>) -> Seq<char>
    decreases lines.len(),
{
    if lines.len() == 0 {
        Seq::empty()
    } else {
        render_page(lines.drop_last(), indent) + render_line(lines.last(), indent)
    }
}

/// The Markdown of a page that has a line ends with a newline: the one
/// that ends its last line.
pub proof fn lemma_render_page_ends_with_newline(lines: Seq<LineView>, indent: Seq<char>)
    requires
        lines.len() > 0,
    ensures
        render_page(lines, indent).len() > 0,
        render_page(lines, indent).last() == '\n',
{
}

/// Puts `unit` at the end of `text`, `n` times over.
fn append_repeated(text: &mut String, unit: &str, n: usize)
    ensures
        final(text)@ == old(text)@ + repeated(unit@, n as nat),
{
    let mut k: usize = 0;
    assert(old(text)@ + repeated(unit@, 0) =~= old(text)@);
    while k < n
        invariant
            k <= n,
            text@ == old(text)@ + repeated(unit@, k as nat),
        decreases n - k,
    {
        text.append(unit);
        k += 1;
        assert((old(text)@ + repeated(unit@, (k - 1) as nat)) + unit@ =~= old(text)@ + repeated(
            unit@,
            k as nat,
        ));
    }
}

/// How the generator lays out a page.
pub struct MarkdownGenConfig {
    /// Written once for each level of nesting below the first.
    pub indent: String,
}

impl Default for MarkdownGenConfig {
    fn default() -> (r: Self)
        ensures
            r.indent@ == seq![' ', ' ', ' '],
    {
        proof {
            reveal_strlit("   ");
        }
        let indent = "   ".to_owned();
        assert(indent@ =~= seq![' ', ' ', ' ']);
        Self { indent }
    }
}

/// Writes a page out as Markdown.
pub struct MarkdownGen {
    document: String,
    config: MarkdownGenConfig,
}

/// The mathematical value of a [`MarkdownGen`]: the text written so far,
/// and the indent unit it was set up with.
pub struct MarkdownGenView {
    pub document: Seq<char>,
    pub indent: Seq<char>,
}

impl View for MarkdownGen {
    type V = MarkdownGenView;

    closed spec fn view(&self) -> MarkdownGenView {
        MarkdownGenView { document: self.document@, indent: self.config.indent@ }
    }
}

impl MarkdownGenView {
    /// The state with `text` written after what was there.
    pub open spec fn write(self, text: Seq<char>) -> MarkdownGenView {
        MarkdownGenView { document: self.document + text, indent: self.indent }
    }
}

impl MarkdownGen {
    pub fn new(config: MarkdownGenConfig) -> (r: Self)
        ensures
            r@ == (MarkdownGenView { document: Seq::empty(), indent: config.indent@ }),
    {
        Self { document: String::new(), config }
    }

    /// The Markdown of the page, which it leaves as it was.
    ///
    /// The text depends on the page and the indent unit alone: whatever the
    /// generator wrote before is dropped, so a second call on the same page
    /// returns the same text.
    pub fn generate(&mut self, page: &mut Page) -> (r: String)
        ensures
            r@ == render_page(old(page)@, old(self)@.indent),
            final(page)@ == old(page)@,
            final(self)@ == (MarkdownGenView { document: r@, indent: old(self)@.indent }),
    {
        self.document = String::new();
        self.visit(page);
        assert(self@.document =~= render_page(old(page)@, old(self)@.indent));
        self.document.clone()
    }

    /// Writing the nodes of a line one by one writes [`render_nodes`], and
    /// asks for no change to the line.
    pub proof fn lemma_walk_line(state: MarkdownGenView, line: LineView)
        ensures
            walk_line(|s: MarkdownGenView, n: Node| Self::on_syntax(s, n), state, line) == (
                state.write(render_nodes(line.values)),
                line,
            ),
    {
        let step: Step<MarkdownGenView> = |s: MarkdownGenView, n: Node| Self::on_syntax(s, n);
        let nodes = line.values;
        Self::lemma_state_after(state, nodes);
        let commands = commands_for(step, state, nodes);
        assert(apply_replaces(nodes, commands) =~= nodes);
        lemma_nothing_deleted(nodes, commands);
    }

    proof fn lemma_state_after(state: MarkdownGenView, nodes: Seq<Node>)
        ensures
            state_after(|s: MarkdownGenView, n: Node| Self::on_syntax(s, n), state, nodes)
                == state.write(render_nodes(nodes)),
        decreases nodes.len(),
    {
        if nodes.len() == 0 {
            assert(state.document + render_nodes(nodes) =~= state.document);
        } else {
            Self::lemma_state_after(state, nodes.drop_last());
            assert((state.document + render_nodes(nodes.drop_last())) + render_node(nodes.last())
                =~= state.document + render_nodes(nodes));
        }
    }

    /// Writes `text` after what the document holds.
    fn write(&mut self, text: &str)
        ensures
            final(self)@ == old(self)@.write(text@),
    {
        self.document.append(text);
    }

    /// Writes the indent unit `n` times over.
    fn write_indent(&mut self, n: usize)
        ensures
            final(self)@ == old(self)@.write(repeated(old(self)@.indent, n as nat)),
    {
        append_repeated(&mut self.document, self.config.indent.as_str(), n);
    }

    /// Writes what stands before the nodes of a line of the given kind.
    fn write_prefix(&mut self, kind: &LineKind)
        ensures
            final(self)@ == old(self)@.write(line_prefix(*kind, old(self)@.indent)),
    {
        if let LineKind::List(list) = kind {
            let count: usize = if list.level >= 1 {
                list.level - 1
            } else {
                0
            };
            match list.kind {
                ListKind::Disc => {
                    self.write_indent(count);
                    self.write("* ");
                    proof {
                        reveal_strlit("* ");
                        assert("* "@ =~= seq!['*', ' ']);
                        assert(self@.document =~= old(self)@.document + line_prefix(
                            *kind,
                            old(self)@.indent,
                        ));
                    }
                },
                ListKind::Decimal => {
                    self.write_indent(count);
                    self.write("1. ");
                    proof {
                        reveal_strlit("1. ");
                        assert("1. "@ =~= seq!['1', '.', ' ']);
                        assert(self@.document =~= old(self)@.document + line_prefix(
                            *kind,
                            old(self)@.indent,
                        ));
                    }
                },
                ListKind::Alphabet => {
                    assert(self@.document =~= old(self)@.document + line_prefix(
                        *kind,
                        old(self)@.indent,
                    ));
                },
            }
        } else {
            assert(self@.document =~= old(self)@.document + line_prefix(
                *kind,
                old(self)@.indent,
            ));
        }
    }
}

impl Visitor for MarkdownGen {
    /// The generator writes the Markdown of the node and asks for no change.
    open spec fn on_syntax(state: MarkdownGenView, node: Node) -> (
        MarkdownGenView,
        Option<Edit>,
    ) {
        (state.write(render_node(node)), None)
    }

    /// The generator writes a list marker before the nodes of a line and a
    /// newline after them.
    open spec fn plain_page_walk() -> bool {
        false
    }

    fn visit(&mut self, value: &mut Page)
        ensures
            final(self)@ == old(self)@.write(render_page(old(value)@, old(self)@.indent)),
            final(value)@ == old(value)@,
    {
        self.visit_page(value);
    }

    /// Writes the lines of the page in order: for each its prefix, its
    /// nodes, and a newline.
    fn visit_page(&mut self, value: &mut Page)
        ensures
            final(self)@ == old(self)@.write(render_page(old(value)@, old(self)@.indent)),
            final(value)@ == old(value)@,
    {
        let n = value.lines.len();
        let mut i: usize = 0;
        assert(old(self)@.document + render_page(old(value)@.take(0), old(self)@.indent)
            =~= old(self)@.document);
        while i < n
            invariant
                i <= n,
                n == value.lines.len(),
                value@ == old(value)@,
                self@ == old(self)@.write(
                    render_page(old(value)@.take(i as int), old(self)@.indent),
                ),
            decreases n - i,
        {
            let ghost before = value@;
            let ghost line = value.lines@[i as int]@;
            let ghost indent = old(self)@.indent;
            let ghost start = self@;
            let kind = value.lines[i].kind;
            self.write_prefix(&kind);
            self.visit_line(&mut value.lines[i]);
            self.write("\n");
            proof {
                Self::lemma_walk_line(start.write(line_prefix(kind, indent)), line);
                reveal_strlit("\n");
                assert("\n"@ =~= seq!['\n']);
                assert(value.lines@[i as int]@ == line);
                assert(value@ =~= before);
                let lines = old(value)@.take(i + 1);
                assert(lines.drop_last() == old(value)@.take(i as int));
                assert(lines.last() == line);
                assert(self@.document =~= start.document + render_line(line, indent));
                assert(self@.document =~= old(self)@.document + render_page(lines, indent));
            }
            i += 1;
        }
        proof {
            assert(old(value)@.take(n as int) == old(value)@);
        }
    }

    fn visit_hashtag(&mut self, value: &HashTag) -> (r: Option<TransformCommand>) {
        self.write("[#");
        self.write(value.value.as_str());
        self.write("](#");
        self.write(value.value.as_str());
        self.write(".md)");
        proof {
            reveal_strlit("[#");
            reveal_strlit("](#");
            reveal_strlit(".md)");
            assert("[#"@ =~= seq!['[', '#']);
            assert("](#"@ =~= seq![']', '(', '#']);
            assert(".md)"@ =~= seq!['.', 'm', 'd', ')']);
            assert(self@.document =~= old(self)@.document + render_node(value@));
        }
        None
    }

    fn visit_bracket_internal_link(&mut self, value: &InternalLink) -> (r: Option<
        TransformCommand,
    >) {
        self.write("[");
        self.write(value.title.as_str());
        self.write("](");
        self.write(value.title.as_str());
        self.write(").md");
        proof {
            reveal_strlit("[");
            reveal_strlit("](");
            reveal_strlit(").md");
            assert("["@ =~= seq!['[']);
            assert("]("@ =~= seq![']', '(']);
            assert(").md"@ =~= seq![')', '.', 'm', 'd']);
            assert(self@.document =~= old(self)@.document + render_node(value@));
        }
        None
    }

    fn visit_bracket_external_link(&mut self, value: &ExternalLink) -> (r: Option<
        TransformCommand,
    >) {
        if let Some(title) = &value.title {
            self.write("[");
            self.write(title.as_str());
            self.write("](");
            self.write(value.url.as_str());
            self.write(")");
            proof {
                reveal_strlit("[");
                reveal_strlit("](");
                reveal_strlit(")");
                assert("["@ =~= seq!['[']);
                assert("]("@ =~= seq![']', '(']);
                assert(")"@ =~= seq![')']);
                assert(self@.document =~= old(self)@.document + render_node(value@));
            }
        } else {
            self.write(value.url.as_str());
        }
        None
    }

    fn visit_bracket_emphasis(&mut self, value: &Emphasis) -> (r: Option<TransformCommand>) {
        proof {
            reveal_strlit("**");
            reveal_strlit("*");
            reveal_strlit("~~");
            assert("**"@ =~= seq!['*', '*']);
            assert("*"@ =~= seq!['*']);
            assert("~~"@ =~= seq!['~', '~']);
        }
        let mut tmp = value.text.clone();
        if value.bold > 0 {
            tmp = "**".to_owned().concat(tmp.as_str()).concat("**");
        }
        if value.italic > 0 {
            tmp = "*".to_owned().concat(tmp.as_str()).concat("*");
        }
        if value.strikethrough > 0 {
            tmp = "~~".to_owned().concat(tmp.as_str()).concat("~~");
        }
        assert(tmp@ =~= render_node(value@));
        self.write(tmp.as_str());
        None
    }

    fn visit_bracket_heading(&mut self, value: &Heading) -> (r: Option<TransformCommand>) {
        append_repeated(&mut self.document, "#", value.level as usize);
        self.write(" ");
        self.write(value.text.as_str());
        proof {
            reveal_strlit("#");
            reveal_strlit(" ");
            assert("#"@ =~= seq!['#']);
            assert(" "@ =~= seq![' ']);
            assert(self@.document =~= old(self)@.document + render_node(value@));
        }
        None
    }

    fn visit_block_quote(&mut self, value: &BlockQuote) -> (r: Option<TransformCommand>) {
        self.write(value.value.as_str());
        None
    }

    fn visit_text(&mut self, text: &Text) -> (r: Option<TransformCommand>) {
        self.write(text.value.as_str());
        None
    }
}

} // verus!
