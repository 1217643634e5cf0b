//! A walk over a mutable page that lets a visitor replace or delete nodes.
//!
//! A visitor sees every node of a line in source order and may answer each
//! with a [`TransformCommand`]. The commands of one line are collected first
//! and applied afterwards, replacements before deletions, so that no edit
//! shifts the index another edit refers to.

use crate::ast::{
    nodes_view, BlockQuote, Bracket, BracketKind, Emphasis, ExternalLink, HashTag, Heading,
    InternalLink, Line, LineView, Node, Page, Syntax, SyntaxKind, Text,
};
use vstd::prelude::*;
use vstd::std_specs::iter::IteratorSpec;

pub mod markdown;

verus! {

/// What a visitor asks to be done with the node it has just seen.
#[derive(Debug)]
pub enum TransformCommand {
    Replace(Syntax),
    Delete,
}

/// The mathematical value of a [`TransformCommand`].
pub enum Edit {
    Replace(Node),
    Delete,
}

impl View for TransformCommand {
    type V = Edit;

    open spec fn view(&self) -> Edit {
        match *self {
            TransformCommand::Replace(s) => Edit::Replace(s@),
            TransformCommand::Delete => Edit::Delete,
        }
    }
}

/// The model of an optional command.
pub open spec fn command_view(c: Option<TransformCommand>) -> Option<Edit> {
    match c {
        Some(c) => Some(c@),
        None => None,
    }
}

/// The models of a sequence of optional commands, in order.
pub open spec fn commands_view(cs: Seq<Option<TransformCommand>>) -> Seq<Option<Edit>> {
    cs.map_values(|c: Option<TransformCommand>| command_view(c))
}

/// What a visitor does with one node, as a function: from the state it is in
/// and the node, to the state it is left in and the command it returns.
pub type Step<S> = spec_fn(S, Node) -> (S, Option<Edit>);

/// The visitor's state after it has seen `nodes`, in order, starting from
/// `state`.
pub open spec fn state_after<S>(step: Step<S>, state: S, nodes: Seq<Node>) -> S
    decreases nodes.len(),
{
    if nodes.len() == 0 {
        state
    } else {
        step(state_after(step, state, nodes.drop_last()), nodes.last()).0
    }
}

/// The command that the visitor gives for each of `nodes` when it sees them
/// in order, starting from `state`.
pub open spec fn commands_for<S>(step: Step<S>, state: S, nodes: Seq<Node>) -> Seq<
    Option<Edit>,
> {
    Seq::new(nodes.len(), |i: int| step(state_after(step, state, nodes.take(i)), nodes[i]).1)
}

/// Every node with a `Replace` command gives way to the command's node; the
/// others stay. The length does not change.
pub open spec fn apply_replaces(nodes: Seq<Node>, commands: Seq<Option<Edit>>) -> Seq<Node> {
    Seq::new(
        nodes.len(),
        |i: int|
            match commands[i] {
                Some(Edit::Replace(n)) => n,
                _ => nodes[i],
            },
    )
}

/// The nodes whose command is not `Delete`, in their old order.
pub open spec fn apply_deletes(nodes: Seq<Node>, commands: Seq<Option<Edit>>) -> Seq<Node>
    decreases nodes.len(),
{
    if nodes.len() == 0 {
        nodes
    } else {
        let front = apply_deletes(nodes.drop_last(), commands.drop_last());
        if commands.last() == Some(Edit::Delete) {
            front
        } else {
            front.push(nodes.last())
        }
    }
}

/// Replacements first, then deletions, both by the index at which the
/// command was given.
pub open spec fn apply_commands(nodes: Seq<Node>, commands: Seq<Option<Edit>>) -> Seq<Node> {
    apply_deletes(apply_replaces(nodes, commands), commands)
}

/// The walk over one line: the visitor's state afterwards and the line as
/// the collected commands leave it.
pub open spec fn walk_line<S>(step: Step<S>, state: S, line: LineView) -> (S, LineView) {
    (
        state_after(step, state, line.values),
        LineView {
            kind: line.kind,
            values: apply_commands(line.values, commands_for(step, state, line.values)),
        },
    )
}

/// The walk over the lines of a page, first to last.
pub open spec fn walk_page<S>(step: Step<S>, state: S, lines: Seq<LineView>) -> (
    S,
    Seq<LineView>,
)
    decreases lines.len(),
{
    if lines.len() == 0 {
        (state, lines)
    } else {
        let front = walk_page(step, state, lines.drop_last());
        let last = walk_line(step, front.0, lines.last());
        (last.0, front.1.push(last.1))
    }
}

/// Whether two pages have the same number of lines, and the same kind of
/// line at each place.
pub open spec fn same_lines(before: Seq<LineView>, after: Seq<LineView>) -> bool {
    &&& after.len() == before.len()
    &&& forall|i: int| 0 <= i < before.len() ==> (#[trigger] after[i]).kind == before[i].kind
}

/// A walk changes nodes and nothing else: the page keeps the number of its
/// lines, and each line keeps its kind.
pub proof fn lemma_walk_page_keeps_lines<S>(step: Step<S>, state: S, lines: Seq<LineView>)
    ensures
        same_lines(lines, walk_page(step, state, lines).1),
    decreases lines.len(),
{
    if lines.len() > 0 {
        lemma_walk_page_keeps_lines(step, state, lines.drop_last());
    }
}

/// A tree walk with one method for each shape of node.
///
/// The methods for a hashtag, a block quote, a text and the four kinds of
/// bracket are the visitor's own: a visitor that has nothing to do at a node
/// returns `None`. What they do is named by [`Visitor::on_syntax`]: each
/// returns the command, and leaves the visitor in the state, that
/// `on_syntax` gives for the node it was handed.
///
/// The other methods walk the tree and come with a body. A visitor may put
/// another body in the place of [`Visitor::visit_line`],
/// [`Visitor::visit_syntax`] or [`Visitor::visit_bracket`], but not another
/// effect. It may give [`Visitor::visit_page`] another effect, and says so
/// by [`Visitor::plain_page_walk`].
pub trait Visitor: View + Sized {
    /// Visiting `node` in state `state`: the state afterwards, and the
    /// command returned.
    spec fn on_syntax(state: Self::V, node: Node) -> (Self::V, Option<Edit>);

    /// Whether [`Visitor::visit_page`] does what its body in this trait
    /// does: walk the lines from first to last, and nothing besides. A
    /// visitor that puts another body in its place answers `false` and says
    /// in its own contract what that body does.
    spec fn plain_page_walk() -> bool;

    /// Walks the page. No walk adds, drops or reorders lines, or changes the
    /// kind of one.
    fn visit(&mut self, value: &mut Page)
        ensures
            same_lines(old(value)@, final(value)@),
            Self::plain_page_walk() ==> (final(self)@, final(value)@) == walk_page(
                |s: Self::V, n: Node| Self::on_syntax(s, n),
                old(self)@,
                old(value)@,
            ),
    {
        self.visit_page(value);
    }

    /// Walks the lines of the page from first to last.
    fn visit_page(&mut self, value: &mut Page)
        ensures
            same_lines(old(value)@, final(value)@),
            Self::plain_page_walk() ==> (final(self)@, final(value)@) == walk_page(
                |s: Self::V, n: Node| Self::on_syntax(s, n),
                old(self)@,
                old(value)@,
            ),
    {
        proof {
            lemma_walk_page_keeps_lines(
                |s: Self::V, n: Node| Self::on_syntax(s, n),
                old(self)@,
                old(value)@,
            );
        }
        let n = value.lines.len();
        let mut i: usize = 0;
        while i < n
            invariant
                i <= n,
                n == value.lines.len(),
                value.lines@.len() == old(value).lines@.len(),
                forall|j: int| i <= j < n ==> value.lines@[j] == old(value).lines@[j],
                (self@, value@.take(i as int)) == walk_page(
                    |s: Self::V, n: Node| Self::on_syntax(s, n),
                    old(self)@,
                    old(value)@.take(i as int),
                ),
            decreases n - i,
        {
            let ghost before = value@;
            let ghost state = self@;
            self.visit_line(&mut value.lines[i]);
            proof {
                let lines = old(value)@.take(i + 1);
                assert(lines.drop_last() == old(value)@.take(i as int));
                assert(lines.last() == old(value).lines@[i as int]@);
                assert(value@.take(i as int) == before.take(i as int));
                assert(value@.take(i + 1) == value@.take(i as int).push(value.lines@[i as int]@));
            }
            i += 1;
        }
        proof {
            assert(value@.take(n as int) == value@);
            assert(old(value)@.take(n as int) == old(value)@);
        }
    }

    /// Visits the nodes of the line in order and collects one command for
    /// each; then carries out the replacements; then the deletions.
    fn visit_line(&mut self, value: &mut Line)
        ensures
            (final(self)@, final(value)@) == walk_line(
                |s: Self::V, n: Node| Self::on_syntax(s, n),
                old(self)@,
                old(value)@,
            ),
    {
        let n = value.values.len();
        let mut commands: Vec<Option<TransformCommand>> = Vec::new();
        let mut i: usize = 0;
        while i < n
            invariant
                i <= n,
                n == value.values.len(),
                *value == *old(value),
                commands@.len() == i,
                self@ == state_after(
                    |s: Self::V, n: Node| Self::on_syntax(s, n),
                    old(self)@,
                    value@.values.take(i as int),
                ),
                commands_view(commands@) == commands_for(
                    |s: Self::V, n: Node| Self::on_syntax(s, n),
                    old(self)@,
                    value@.values,
                ).take(i as int),
            decreases n - i,
        {
            let command = self.visit_syntax(&value.values[i]);
            proof {
                let nodes = value@.values;
                assert(nodes.take(i + 1).drop_last() == nodes.take(i as int));
                assert(nodes.take(i + 1).last() == nodes[i as int]);
                assert(value.values@[i as int]@ == nodes[i as int]);
            }
            commands.push(command);
            proof {
                let all = commands_for(
                    |s: Self::V, n: Node| Self::on_syntax(s, n),
                    old(self)@,
                    value@.values,
                );
                assert(commands_view(commands@) == all.take(i + 1));
            }
            i += 1;
        }
        proof {
            assert(value@.values.take(n as int) == value@.values);
            let all = commands_for(
                    |s: Self::V, n: Node| Self::on_syntax(s, n),
                    old(self)@,
                    value@.values,
                );
            assert(all.take(n as int) == all);
        }
        replace_nodes(&mut value.values, &commands);
        delete_nodes(&mut value.values, &commands);
    }

    fn visit_syntax(&mut self, value: &Syntax) -> (r: Option<TransformCommand>)
        ensures
            (final(self)@, command_view(r)) == Self::on_syntax(old(self)@, value@),
    {
        match &value.kind {
            SyntaxKind::HashTag(v) => self.visit_hashtag(v),
            SyntaxKind::Bracket(v) => self.visit_bracket(v),
            SyntaxKind::BlockQuote(v) => self.visit_block_quote(v),
            SyntaxKind::Text(v) => self.visit_text(v),
        }
    }

    fn visit_hashtag(&mut self, value: &HashTag) -> (r: Option<TransformCommand>)
        ensures
            (final(self)@, command_view(r)) == Self::on_syntax(old(self)@, value@),
    ;

    fn visit_bracket(&mut self, value: &Bracket) -> (r: Option<TransformCommand>)
        ensures
            (final(self)@, command_view(r)) == Self::on_syntax(old(self)@, value@),
    {
        match &value.kind {
            BracketKind::InternalLink(v) => self.visit_bracket_internal_link(v),
            BracketKind::ExternalLink(v) => self.visit_bracket_external_link(v),
            BracketKind::Emphasis(v) => self.visit_bracket_emphasis(v),
            BracketKind::Heading(v) => self.visit_bracket_heading(v),
        }
    }

    fn visit_bracket_internal_link(&mut self, value: &InternalLink) -> (r: Option<
        TransformCommand,
    >)
        ensures
            (final(self)@, command_view(r)) == Self::on_syntax(old(self)@, value@),
    ;

    fn visit_bracket_external_link(&mut self, value: &ExternalLink) -> (r: Option<
        TransformCommand,
    >)
        ensures
            (final(self)@, command_view(r)) == Self::on_syntax(old(self)@, value@),
    ;

    fn visit_bracket_emphasis(&mut self, value: &Emphasis) -> (r: Option<TransformCommand>)
        ensures
            (final(self)@, command_view(r)) == Self::on_syntax(old(self)@, value@),
    ;

    fn visit_bracket_heading(&mut self, value: &Heading) -> (r: Option<TransformCommand>)
        ensures
            (final(self)@, command_view(r)) == Self::on_syntax(old(self)@, value@),
    ;

    fn visit_block_quote(&mut self, value: &BlockQuote) -> (r: Option<TransformCommand>)
        ensures
            (final(self)@, command_view(r)) == Self::on_syntax(old(self)@, value@),
    ;

    fn visit_text(&mut self, value: &Text) -> (r: Option<TransformCommand>)
        ensures
            (final(self)@, command_view(r)) == Self::on_syntax(old(self)@, value@),
    ;
}

/// Puts the node of each `Replace` command at the index the command was
/// given for.
pub fn replace_nodes(values: &mut Vec<Syntax>, commands: &Vec<Option<TransformCommand>>)
    requires
        commands@.len() == old(values)@.len(),
    ensures
        final(values)@.len() == old(values)@.len(),
        nodes_view(final(values)@) == apply_replaces(
            nodes_view(old(values)@),
            commands_view(commands@),
        ),
{
    let n = values.len();
    let mut i: usize = 0;
    while i < n
        invariant
            i <= n,
            n == values@.len(),
            n == commands@.len(),
            n == old(values)@.len(),
            forall|j: int| i <= j < n ==> values@[j] == old(values)@[j],
            forall|j: int|
                0 <= j < i ==> (#[trigger] values@[j])@ == apply_replaces(
                    nodes_view(old(values)@),
                    commands_view(commands@),
                )[j],
        decreases n - i,
    {
        if let Some(TransformCommand::Replace(s)) = &commands[i] {
            let copy = s.duplicate();
            values[i] = copy;
        }
        i += 1;
    }
    assert(nodes_view(values@) =~= apply_replaces(
        nodes_view(old(values)@),
        commands_view(commands@),
    ));
}

/// Drops every node whose command is `Delete`; the others keep their order.
pub fn delete_nodes(values: &mut Vec<Syntax>, commands: &Vec<Option<TransformCommand>>)
    requires
        commands@.len() == old(values)@.len(),
    ensures
        nodes_view(final(values)@) == apply_deletes(
            nodes_view(old(values)@),
            commands_view(commands@),
        ),
{
    let n = commands.len();
    let mut all: Vec<Syntax> = Vec::new();
    core::mem::swap(values, &mut all);
    let ghost nodes = nodes_view(all@);
    let ghost cmds = commands_view(commands@);
    let mut i: usize = 0;
    for node in it: all
        invariant
            i == it.index(),
            it.seq().len() == n == commands@.len(),
            nodes == nodes_view(it.seq()),
            cmds == commands_view(commands@),
            nodes_view(values@) == apply_deletes(nodes.take(i as int), cmds.take(i as int)),
    {
        proof {
            assert(nodes.take(i + 1).drop_last() == nodes.take(i as int));
            assert(cmds.take(i + 1).drop_last() == cmds.take(i as int));
            assert(nodes.take(i + 1).last() == node@);
            assert(cmds.take(i + 1).last() == command_view(commands@[i as int]));
        }
        let delete = match &commands[i] {
            Some(TransformCommand::Delete) => true,
            _ => false,
        };
        if !delete {
            let ghost before = nodes_view(values@);
            values.push(node);
            assert(nodes_view(values@) == before.push(node@));
        }
        i += 1;
    }
    proof {
        assert(nodes.take(i as int) == nodes);
        assert(cmds.take(i as int) == cmds);
    }
}

} // verus!
