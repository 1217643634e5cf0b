use wiki2md::ast::{
    BlockQuote, Bracket, BracketKind, Emphasis, ExternalLink, HashTag, Heading, InternalLink,
    Line, LineKind, List, ListKind, Page, Syntax, SyntaxKind, Text,
};

#[test]
fn constructors_keep_what_they_are_given() {
    assert_eq!(HashTag::new("a").value, "a");
    assert_eq!(BlockQuote::new("b").value, "b");
    assert_eq!(Text::new("c").value, "c");
    assert_eq!(InternalLink::new("d").title, "d");
    let link = ExternalLink::new(Some("t"), "u");
    assert_eq!(link.title.as_deref(), Some("t"));
    assert_eq!(link.url, "u");
    assert_eq!(ExternalLink::new(None, "u").title, None);
    let heading = Heading::new("h", 3);
    assert_eq!((heading.text.as_str(), heading.level), ("h", 3));
    let list = List::new(ListKind::Decimal, 4);
    assert_eq!((list.kind, list.level), (ListKind::Decimal, 4));
    assert_eq!(List::disc(1), List::new(ListKind::Disc, 1));
    assert_eq!(List::decimal(2), List::new(ListKind::Decimal, 2));
    assert_eq!(List::alphabet(3), List::new(ListKind::Alphabet, 3));
}

#[test]
fn decoration_builders_set_one_count() {
    assert_eq!(Emphasis::bold("t"), Emphasis::new("t", 1, 0, 0));
    assert_eq!(Emphasis::bold_level("t", 9), Emphasis::new("t", 9, 0, 0));
    assert_eq!(Emphasis::italic("t"), Emphasis::new("t", 0, 1, 0));
    assert_eq!(Emphasis::strikethrough("t"), Emphasis::new("t", 0, 0, 1));
    let all = Emphasis::new("t", 1, 2, 3);
    assert_eq!((all.bold, all.italic, all.strikethrough), (1, 2, 3));
}

#[test]
fn defaults_are_empty() {
    assert_eq!(Page::default(), Page { lines: vec![] });
    assert_eq!(Text::default(), Text::new(""));
    assert_eq!(InternalLink::default(), InternalLink::new(""));
    assert_eq!(ExternalLink::default(), ExternalLink::new(None, ""));
    assert_eq!(Emphasis::default(), Emphasis::new("", 0, 0, 0));
}

#[test]
fn nodes_wrap_their_kinds() {
    let bracket = Bracket::new(BracketKind::Emphasis(Emphasis::bold("t")));
    assert_eq!(bracket.kind, BracketKind::Emphasis(Emphasis::bold("t")));
    let node = Syntax::new(SyntaxKind::Bracket(bracket.clone()));
    assert_eq!(node.kind, SyntaxKind::Bracket(bracket));
    let line = Line::new(LineKind::List(List::disc(2)), vec![node.clone()]);
    assert_eq!(line.kind, LineKind::List(List::disc(2)));
    assert_eq!(line.values, vec![node]);
}

#[test]
fn duplicate_is_a_deep_copy() {
    let nodes = vec![
        Syntax::new(SyntaxKind::HashTag(HashTag::new("a"))),
        Syntax::new(SyntaxKind::BlockQuote(BlockQuote::new("b"))),
        Syntax::new(SyntaxKind::Text(Text::new("c"))),
        Syntax::new(SyntaxKind::Bracket(Bracket::new(BracketKind::InternalLink(
            InternalLink::new("d"),
        )))),
        Syntax::new(SyntaxKind::Bracket(Bracket::new(BracketKind::ExternalLink(
            ExternalLink::new(Some("t"), "u"),
        )))),
        Syntax::new(SyntaxKind::Bracket(Bracket::new(BracketKind::ExternalLink(
            ExternalLink::new(None, "u"),
        )))),
        Syntax::new(SyntaxKind::Bracket(Bracket::new(BracketKind::Emphasis(
            Emphasis::new("e", 1, 2, 3),
        )))),
        Syntax::new(SyntaxKind::Bracket(Bracket::new(BracketKind::Heading(
            Heading::new("h", 2),
        )))),
    ];
    for node in &nodes {
        assert_eq!(&node.duplicate(), node);
        assert_eq!(node.kind.duplicate(), node.kind);
    }
}
