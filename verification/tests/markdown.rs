use wiki2md::ast::{
    BlockQuote, Bracket, BracketKind, Emphasis, ExternalLink, HashTag, Heading, InternalLink,
    Line, LineKind, List, Page, Syntax, SyntaxKind, Text,
};
use wiki2md::parser::page;
use wiki2md::visitor::markdown::{MarkdownGen, MarkdownGenConfig, MarkdownPass};
use wiki2md::visitor::{TransformCommand, Visitor};

fn one_line(kind: LineKind, values: Vec<Syntax>) -> Page {
    Page {
        lines: vec![Line::new(kind, values)],
    }
}

fn bracket_node(kind: BracketKind) -> Syntax {
    Syntax::new(SyntaxKind::Bracket(Bracket::new(kind)))
}

fn decoration_node(text: &str, bold: u8, italic: u8, strikethrough: u8) -> Syntax {
    bracket_node(BracketKind::Emphasis(Emphasis::new(
        text,
        bold,
        italic,
        strikethrough,
    )))
}

fn heading_node(text: &str, level: u8) -> Syntax {
    bracket_node(BracketKind::Heading(Heading::new(text, level)))
}

fn render(page: &mut Page) -> String {
    MarkdownGen::new(MarkdownGenConfig::default()).generate(page)
}

fn render_node(node: Syntax) -> String {
    render(&mut one_line(LineKind::Normal, vec![node]))
}

/// Reads, promotes with the given pass, and renders.
fn convert(source: &str, mut pass: MarkdownPass) -> String {
    let (rest, mut page) = page(source);
    assert_eq!(rest, "");
    pass.visit(&mut page);
    render(&mut page)
}

#[test]
fn empty_page_renders_as_nothing() {
    let (_, mut parsed) = page("");
    assert_eq!(render(&mut parsed), "");
    assert_eq!(render(&mut Page::default()), "");
}

#[test]
fn default_pass_promotes_from_two_bold_markers() {
    let pass = MarkdownPass::default();
    assert_eq!(pass.h1_level, 3);
    assert!(!pass.bold_to_h);
    assert_eq!(convert("[* text]", MarkdownPass::default()), "**text**\n");
    assert_eq!(convert("[** text]", MarkdownPass::default()), "## text\n");
    assert_eq!(convert("[*** text]", MarkdownPass::default()), "# text\n");
    assert_eq!(convert("[***** text]", MarkdownPass::default()), "**text**\n");
}

#[test]
fn promotion_gives_a_heading_of_the_candidate_level() {
    let mut pass = MarkdownPass::default();
    let mut page = one_line(
        LineKind::Normal,
        vec![
            decoration_node("a", 1, 0, 0),
            decoration_node("b", 2, 0, 0),
            decoration_node("c", 3, 0, 0),
            decoration_node("d", 4, 0, 0),
            decoration_node("e", 5, 0, 0),
            decoration_node("f", 0, 1, 0),
        ],
    );
    pass.visit(&mut page);
    assert_eq!(
        page,
        one_line(
            LineKind::Normal,
            vec![
                decoration_node("a", 1, 0, 0),
                heading_node("b", 2),
                heading_node("c", 1),
                decoration_node("d", 4, 0, 0),
                decoration_node("e", 5, 0, 0),
                decoration_node("f", 0, 1, 0),
            ],
        )
    );
}

#[test]
fn single_bold_marker_promotes_where_asked() {
    let pass = || MarkdownPass {
        h1_level: 3,
        bold_to_h: true,
    };
    assert_eq!(convert("[* text]", pass()), "### text\n");
    assert_eq!(convert("[** text]", pass()), "## text\n");
    assert_eq!(convert("[*** text]", pass()), "# text\n");
    assert_eq!(convert("[**** text]", pass()), "**text**\n");
    assert_eq!(convert("[ text]", pass()), "text\n");
    assert_eq!(convert("[/ text]", pass()), "*text*\n");
}

#[test]
fn promotion_drops_italic_and_strikethrough() {
    let mut pass = MarkdownPass::default();
    let command = pass.visit_bracket_emphasis(&Emphasis::new("t", 2, 3, 4));
    assert!(matches!(
        command,
        Some(TransformCommand::Replace(node)) if node == heading_node("t", 2)
    ));
    assert!(pass
        .visit_bracket_emphasis(&Emphasis::new("t", 1, 3, 4))
        .is_none());
}

#[test]
fn pass_works_at_the_limits_of_its_levels() {
    let mut widest = MarkdownPass {
        h1_level: 255,
        bold_to_h: true,
    };
    assert!(matches!(
        widest.visit_bracket_emphasis(&Emphasis::bold("t")),
        Some(TransformCommand::Replace(node)) if node == heading_node("t", 255)
    ));
    assert!(matches!(
        widest.visit_bracket_emphasis(&Emphasis::bold_level("t", 255)),
        Some(TransformCommand::Replace(node)) if node == heading_node("t", 1)
    ));
    assert!(widest
        .visit_bracket_emphasis(&Emphasis::new("t", 0, 1, 0))
        .is_none());
    let mut none = MarkdownPass {
        h1_level: 0,
        bold_to_h: true,
    };
    assert!(none.visit_bracket_emphasis(&Emphasis::bold("t")).is_none());
    assert!(none
        .visit_bracket_emphasis(&Emphasis::new("t", 0, 0, 0))
        .is_none());
}

#[test]
fn pass_leaves_other_nodes_alone() {
    let mut pass = MarkdownPass {
        h1_level: 3,
        bold_to_h: true,
    };
    assert!(pass.visit_hashtag(&HashTag::new("a")).is_none());
    assert!(pass.visit_text(&Text::new("a")).is_none());
    assert!(pass.visit_block_quote(&BlockQuote::new("a")).is_none());
    assert!(pass
        .visit_bracket_internal_link(&InternalLink::new("a"))
        .is_none());
    assert!(pass
        .visit_bracket_external_link(&ExternalLink::new(None, "a"))
        .is_none());
    assert!(pass.visit_bracket_heading(&Heading::new("a", 1)).is_none());
}

#[test]
fn document_is_read_promoted_and_rendered() {
    assert_eq!(
        convert(
            "[** Title]\n#topic some text [https://example.com Example]",
            MarkdownPass::default()
        ),
        "## Title\n[#topic](#topic.md) some text [Example](https://example.com)\n"
    );
}

#[test]
fn list_item_is_indented_by_its_level() {
    let mut page = one_line(
        LineKind::List(List::disc(2)),
        vec![Syntax::new(SyntaxKind::Text(Text::new("item")))],
    );
    assert_eq!(render(&mut page), "   * item\n");
}

#[test]
fn list_markers_follow_the_kind() {
    let item = || vec![Syntax::new(SyntaxKind::Text(Text::new("x")))];
    assert_eq!(
        render(&mut one_line(LineKind::List(List::disc(1)), item())),
        "* x\n"
    );
    assert_eq!(
        render(&mut one_line(LineKind::List(List::disc(3)), item())),
        "      * x\n"
    );
    assert_eq!(
        render(&mut one_line(LineKind::List(List::decimal(1)), item())),
        "1. x\n"
    );
    assert_eq!(
        render(&mut one_line(LineKind::List(List::decimal(2)), item())),
        "   1. x\n"
    );
    assert_eq!(
        render(&mut one_line(LineKind::List(List::alphabet(2)), item())),
        "x\n"
    );
    assert_eq!(render(&mut one_line(LineKind::Normal, item())), "x\n");
}

#[test]
fn indent_unit_is_configurable() {
    let mut page = one_line(
        LineKind::List(List::decimal(3)),
        vec![Syntax::new(SyntaxKind::Text(Text::new("x")))],
    );
    let config = MarkdownGenConfig {
        indent: "\t".to_string(),
    };
    assert_eq!(MarkdownGen::new(config).generate(&mut page), "\t\t1. x\n");
    let config = MarkdownGenConfig {
        indent: String::new(),
    };
    assert_eq!(MarkdownGen::new(config).generate(&mut page), "1. x\n");
    assert_eq!(MarkdownGenConfig::default().indent, "   ");
}

#[test]
fn each_node_has_its_markdown() {
    assert_eq!(
        render_node(Syntax::new(SyntaxKind::HashTag(HashTag::new("v")))),
        "[#v](#v.md)\n"
    );
    assert_eq!(
        render_node(bracket_node(BracketKind::InternalLink(InternalLink::new(
            "a page"
        )))),
        "[a page](a page).md\n"
    );
    assert_eq!(
        render_node(bracket_node(BracketKind::ExternalLink(ExternalLink::new(
            Some("t"),
            "http://u"
        )))),
        "[t](http://u)\n"
    );
    assert_eq!(
        render_node(bracket_node(BracketKind::ExternalLink(ExternalLink::new(
            None,
            "http://u"
        )))),
        "http://u\n"
    );
    assert_eq!(render_node(heading_node("t", 1)), "# t\n");
    assert_eq!(render_node(heading_node("t", 4)), "#### t\n");
    assert_eq!(
        render_node(Syntax::new(SyntaxKind::BlockQuote(BlockQuote::new("q")))),
        "q\n"
    );
    assert_eq!(
        render_node(Syntax::new(SyntaxKind::Text(Text::new("plain")))),
        "plain\n"
    );
}

#[test]
fn decorations_nest_bold_inside_italic_inside_strikethrough() {
    assert_eq!(render_node(decoration_node("t", 0, 0, 0)), "t\n");
    assert_eq!(render_node(decoration_node("t", 1, 0, 0)), "**t**\n");
    assert_eq!(render_node(decoration_node("t", 7, 0, 0)), "**t**\n");
    assert_eq!(render_node(decoration_node("t", 0, 1, 0)), "*t*\n");
    assert_eq!(render_node(decoration_node("t", 0, 0, 1)), "~~t~~\n");
    assert_eq!(render_node(decoration_node("t", 1, 1, 0)), "***t***\n");
    assert_eq!(render_node(decoration_node("t", 1, 0, 1)), "~~**t**~~\n");
    assert_eq!(render_node(decoration_node("t", 0, 2, 3)), "~~*t*~~\n");
    assert_eq!(render_node(decoration_node("t", 1, 1, 1)), "~~***t***~~\n");
}

#[test]
fn every_line_ends_with_a_newline() {
    let (rest, mut parsed) = page("one\n\ttwo\n\nfour\n");
    assert_eq!(rest, "");
    assert_eq!(render(&mut parsed), "one\n* two\n\nfour\n\n");
}

#[test]
fn rendering_twice_gives_the_same_text() {
    let (_, mut parsed) = page("[** Title]\n\t#a [b] `c` [/ d]\n\t\t1. e");
    let before = parsed.clone();
    let mut generator = MarkdownGen::new(MarkdownGenConfig::default());
    let first = generator.generate(&mut parsed);
    let second = generator.generate(&mut parsed);
    assert_eq!(
        first,
        "**Title**\n* [#a](#a.md) [b](b).md `c` *d*\n   1. e\n"
    );
    assert_eq!(first, second);
    assert_eq!(parsed, before);
    assert_eq!(render(&mut parsed), first);
}

#[test]
fn generator_writes_through_the_walk_as_well() {
    let (_, mut parsed) = page("\ta\nb");
    let mut generator = MarkdownGen::new(MarkdownGenConfig::default());
    generator.visit(&mut parsed);
    assert!(generator.visit_text(&Text::new("c")).is_none());
    assert_eq!(generator.generate(&mut parsed), "* a\nb\n");
}

#[test]
fn text_of_the_source_is_in_the_markdown() {
    let source = "Notes on [Rust book] and #rust\n\t1. read `The Book` [* twice]\nhttp://x.y z";
    let markdown = convert(source, MarkdownPass::default());
    assert_eq!(
        markdown,
        "Notes on [Rust book](Rust book).md and [#rust](#rust.md)\n1. read `The Book` **twice**\nhttp://x.y z\n"
    );
    for c in source.chars().filter(|c| c.is_alphabetic()) {
        let in_source = source.chars().filter(|d| *d == c).count();
        let in_markdown = markdown.chars().filter(|d| *d == c).count();
        assert!(in_source <= in_markdown);
    }
}
