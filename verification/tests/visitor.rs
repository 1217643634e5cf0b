use wiki2md::ast::{
    BlockQuote, Bracket, BracketKind, Emphasis, ExternalLink, HashTag, Heading, InternalLink,
    Line, LineKind, Node, Page, Syntax, SyntaxKind, Text,
};
use wiki2md::visitor::{delete_nodes, replace_nodes, Edit, TransformCommand, Visitor};

fn text(value: &str) -> Syntax {
    Syntax::new(SyntaxKind::Text(Text::new(value)))
}

fn tag(value: &str) -> Syntax {
    Syntax::new(SyntaxKind::HashTag(HashTag::new(value)))
}

/// Deletes every hashtag and puts a block quote in the place of every text.
struct Rewriter {
    seen: usize,
}

impl vstd::view::View for Rewriter {
    type V = usize;

    fn view(&self) -> usize {
        self.seen
    }
}

impl Visitor for Rewriter {
    // The two functions that only contracts speak of are never called.
    fn on_syntax(_state: usize, _node: Node) -> (usize, Option<Edit>) {
        unreachable!()
    }

    fn plain_page_walk() -> bool {
        true
    }

    fn visit_hashtag(&mut self, _value: &HashTag) -> Option<TransformCommand> {
        self.seen += 1;
        Some(TransformCommand::Delete)
    }

    fn visit_bracket_internal_link(&mut self, _value: &InternalLink) -> Option<TransformCommand> {
        self.seen += 1;
        None
    }

    fn visit_bracket_external_link(&mut self, _value: &ExternalLink) -> Option<TransformCommand> {
        self.seen += 1;
        None
    }

    fn visit_bracket_emphasis(&mut self, _value: &Emphasis) -> Option<TransformCommand> {
        self.seen += 1;
        None
    }

    fn visit_bracket_heading(&mut self, _value: &Heading) -> Option<TransformCommand> {
        self.seen += 1;
        None
    }

    fn visit_block_quote(&mut self, _value: &BlockQuote) -> Option<TransformCommand> {
        self.seen += 1;
        None
    }

    fn visit_text(&mut self, value: &Text) -> Option<TransformCommand> {
        self.seen += 1;
        Some(TransformCommand::Replace(Syntax::new(
            SyntaxKind::BlockQuote(BlockQuote::new(&value.value)),
        )))
    }
}

#[test]
fn walk_applies_replacements_then_deletions() {
    let mut page = Page {
        lines: vec![
            Line::new(LineKind::Normal, vec![tag("a"), text("b"), tag("c"), text("d")]),
            Line::new(LineKind::Normal, vec![]),
            Line::new(LineKind::Normal, vec![tag("e")]),
        ],
    };
    let mut rewriter = Rewriter { seen: 0 };
    rewriter.visit(&mut page);
    assert_eq!(rewriter.seen, 5);
    let quote = |v: &str| Syntax::new(SyntaxKind::BlockQuote(BlockQuote::new(v)));
    assert_eq!(
        page,
        Page {
            lines: vec![
                Line::new(LineKind::Normal, vec![quote("b"), quote("d")]),
                Line::new(LineKind::Normal, vec![]),
                Line::new(LineKind::Normal, vec![]),
            ],
        }
    );
}

#[test]
fn replace_nodes_substitutes_by_index() {
    let mut values = vec![text("a"), text("b"), text("c")];
    let commands = vec![
        None,
        Some(TransformCommand::Replace(tag("x"))),
        Some(TransformCommand::Delete),
    ];
    replace_nodes(&mut values, &commands);
    assert_eq!(values, vec![text("a"), tag("x"), text("c")]);
}

#[test]
fn delete_nodes_keeps_the_order_of_the_rest() {
    let mut values = vec![text("a"), text("b"), text("c"), text("d")];
    let commands = vec![
        Some(TransformCommand::Delete),
        None,
        Some(TransformCommand::Replace(tag("x"))),
        Some(TransformCommand::Delete),
    ];
    delete_nodes(&mut values, &commands);
    assert_eq!(values, vec![text("b"), text("c")]);
}

#[test]
fn bracket_dispatch_reaches_each_kind() {
    let mut rewriter = Rewriter { seen: 0 };
    let bracket = Bracket::new(BracketKind::Heading(Heading::new("h", 1)));
    assert!(rewriter.visit_bracket(&bracket).is_none());
    assert!(rewriter
        .visit_syntax(&Syntax::new(SyntaxKind::Bracket(bracket)))
        .is_none());
    assert_eq!(rewriter.seen, 2);
}
