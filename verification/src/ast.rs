//! The document tree: a page is a sequence of lines, a line a sequence of
//! syntax nodes.
//!
//! Every type with text in it has a mathematical view in which the text is a
//! `Seq<char>`; contracts elsewhere in the crate are stated over these views.

use vstd::prelude::*;

verus! {

/// The mathematical value of a [`Syntax`] node.
///
/// The executable tree nests `Syntax` / `SyntaxKind` / `Bracket` /
/// `BracketKind`; the model flattens them into one sum.
#[allow(inconsistent_fields)]
pub enum Node {
    HashTag { value: Seq<char> },
    InternalLink { title: Seq<char> },
    ExternalLink { title: Option<Seq<char>>, url: Seq<char> },
    Emphasis { text: Seq<char>, bold: u8, italic: u8, strikethrough: u8 },
    Heading { text: Seq<char>, level: u8 },
    BlockQuote { value: Seq<char> },
    Text { value: Seq<char> },
}

impl Node {
    /// A heading carries a level of at least one; every other node is
    /// well formed as it stands.
    pub open spec fn wf(self) -> bool {
        self matches Node::Heading { level, .. } ==> level >= 1
    }
}

/// The mathematical value of a [`Line`].
pub struct LineView {
    pub kind: LineKind,
    pub values: Seq<Node>,
}

impl LineView {
    /// A list line is nested at least one level deep, and every node of the
    /// line is well formed.
    pub open spec fn wf(self) -> bool {
        &&& self.kind.wf()
        &&& forall|i: int| 0 <= i < self.values.len() ==> (#[trigger] self.values[i]).wf()
    }
}

/// Whether every line of a page model is well formed.
pub open spec fn page_wf(lines: Seq<LineView>) -> bool {
    forall|i: int| 0 <= i < lines.len() ==> (#[trigger] lines[i]).wf()
}

/// The models of a sequence of nodes, in order.
pub open spec fn nodes_view(values: Seq<Syntax>) -> Seq<Node> {
    values.map_values(|s: Syntax| s@)
}

/// The models of a sequence of lines, in order.
pub open spec fn lines_view(lines: Seq<Line>) -> Seq<LineView> {
    lines.map_values(|l: Line| l@)
}

/// The root of the tree: the lines of a document, in source order.
#[derive(Debug, Clone, PartialEq)]
pub struct Page {
    pub lines: Vec<Line>,
}

impl View for Page {
    type V = Seq<LineView>;

    open spec fn view(&self) -> Seq<LineView> {
        lines_view(self.lines@)
    }
}

impl Page {
    pub open spec fn wf(&self) -> bool {
        page_wf(self@)
    }
}

impl Default for Page {
    fn default() -> (r: Self)
        ensures
            r@ == Seq::<LineView>::empty(),
    {
        Page { lines: Vec::new() }
    }
}

/// One source line: what kind of line it is, and its nodes in source order.
#[derive(Debug, Clone, PartialEq)]
pub struct Line {
    pub kind: LineKind,
    pub values: Vec<Syntax>,
}

impl View for Line {
    type V = LineView;

    open spec fn view(&self) -> LineView {
        LineView { kind: self.kind, values: nodes_view(self.values@) }
    }
}

impl Line {
    pub open spec fn wf(&self) -> bool {
        self@.wf()
    }

    pub fn new(kind: LineKind, values: Vec<Syntax>) -> (r: Self)
        ensures
            r.kind == kind,
            r.values == values,
    {
        Self { kind, values }
    }
}

#[derive(Debug, Clone, Copy, PartialEq)]
pub enum LineKind {
    Normal,
    List(List),
}

impl LineKind {
    pub open spec fn wf(self) -> bool {
        self matches LineKind::List(list) ==> list.wf()
    }
}

/// A list marker. Lines are not nested in the tree: `level` alone says how
/// deep the item sits.
#[derive(Debug, Clone, Copy, PartialEq)]
pub struct List {
    pub kind: ListKind,
    pub level: usize,
}

impl List {
    /// The outermost list level is one.
    pub open spec fn wf(self) -> bool {
        self.level >= 1
    }

    pub fn new(kind: ListKind, level: usize) -> (r: Self)
        requires
            level >= 1,
        ensures
            r == (List { kind, level }),
            r.wf(),
    {
        Self { kind, level }
    }

    pub fn disc(level: usize) -> (r: Self)
        requires
            level >= 1,
        ensures
            r == (List { kind: ListKind::Disc, level }),
            r.wf(),
    {
        Self { kind: ListKind::Disc, level }
    }

    pub fn decimal(level: usize) -> (r: Self)
        requires
            level >= 1,
        ensures
            r == (List { kind: ListKind::Decimal, level }),
            r.wf(),
    {
        Self { kind: ListKind::Decimal, level }
    }

    pub fn alphabet(level: usize) -> (r: Self)
        requires
            level >= 1,
        ensures
            r == (List { kind: ListKind::Alphabet, level }),
            r.wf(),
    {
        Self { kind: ListKind::Alphabet, level }
    }
}

#[derive(Debug, Clone, Copy, PartialEq)]
pub enum ListKind {
    Disc,
    Decimal,
    /// Reserved: no source text produces it and it renders without a marker.
    Alphabet,
}

/// One unit of markup.
#[derive(Debug, Clone, PartialEq)]
pub struct Syntax {
    pub kind: SyntaxKind,
}

impl View for Syntax {
    type V = Node;

    open spec fn view(&self) -> Node {
        self.kind@
    }
}

impl Syntax {
    pub fn new(kind: SyntaxKind) -> (r: Self)
        ensures
            r.kind == kind,
    {
        Self { kind }
    }

    /// A deep copy.
    pub fn duplicate(&self) -> (r: Self)
        ensures
            r@ == self@,
    {
        Self { kind: self.kind.duplicate() }
    }
}

#[derive(Debug, Clone, PartialEq)]
pub enum SyntaxKind {
    HashTag(HashTag),
    Bracket(Bracket),
    BlockQuote(BlockQuote),
    Text(Text),
}

impl View for SyntaxKind {
    type V = Node;

    open spec fn view(&self) -> Node {
        match *self {
            SyntaxKind::HashTag(v) => v@,
            SyntaxKind::Bracket(v) => v@,
            SyntaxKind::BlockQuote(v) => v@,
            SyntaxKind::Text(v) => v@,
        }
    }
}

impl SyntaxKind {
    /// A deep copy.
    pub fn duplicate(&self) -> (r: Self)
        ensures
            r@ == self@,
    {
        match self {
            SyntaxKind::HashTag(v) => SyntaxKind::HashTag(HashTag { value: v.value.clone() }),
            SyntaxKind::Bracket(v) => SyntaxKind::Bracket(v.duplicate()),
            SyntaxKind::BlockQuote(v) => SyntaxKind::BlockQuote(
                BlockQuote { value: v.value.clone() },
            ),
            SyntaxKind::Text(v) => SyntaxKind::Text(Text { value: v.value.clone() }),
        }
    }
}

#[derive(Debug, Clone, PartialEq)]
pub struct HashTag {
    pub value: String,
}

impl View for HashTag {
    type V = Node;

    open spec fn view(&self) -> Node {
        Node::HashTag { value: self.value@ }
    }
}

impl HashTag {
    pub fn new(value: &str) -> (r: Self)
        ensures
            r.value@ == value@,
    {
        Self { value: value.to_owned() }
    }
}

/// A `[...]` construct: a link, a decoration, or the heading that a
/// decoration was promoted to.
#[derive(Debug, Clone, PartialEq)]
pub struct Bracket {
    pub kind: BracketKind,
}

impl View for Bracket {
    type V = Node;

    open spec fn view(&self) -> Node {
        self.kind@
    }
}

impl Bracket {
    pub fn new(kind: BracketKind) -> (r: Self)
        ensures
            r.kind == kind,
    {
        Self { kind }
    }

    /// A deep copy.
    pub fn duplicate(&self) -> (r: Self)
        ensures
            r@ == self@,
    {
        Self { kind: self.kind.duplicate() }
    }
}

#[derive(Debug, Clone, PartialEq)]
pub enum BracketKind {
    InternalLink(InternalLink),
    ExternalLink(ExternalLink),
    Emphasis(Emphasis),
    /// Never read from source text: only a rewrite of the tree makes one.
    Heading(Heading),
}

impl View for BracketKind {
    type V = Node;

    open spec fn view(&self) -> Node {
        match *self {
            BracketKind::InternalLink(v) => v@,
            BracketKind::ExternalLink(v) => v@,
            BracketKind::Emphasis(v) => v@,
            BracketKind::Heading(v) => v@,
        }
    }
}

impl BracketKind {
    /// A deep copy.
    pub fn duplicate(&self) -> (r: Self)
        ensures
            r@ == self@,
    {
        match self {
            BracketKind::InternalLink(v) => BracketKind::InternalLink(
                InternalLink { title: v.title.clone() },
            ),
            BracketKind::ExternalLink(v) => {
                let title = match &v.title {
                    Some(t) => Some(t.clone()),
                    None => None,
                };
                BracketKind::ExternalLink(ExternalLink { title, url: v.url.clone() })
            },
            BracketKind::Emphasis(v) => BracketKind::Emphasis(
                Emphasis {
                    text: v.text.clone(),
                    bold: v.bold,
                    italic: v.italic,
                    strikethrough: v.strikethrough,
                },
            ),
            BracketKind::Heading(v) => BracketKind::Heading(
                Heading { text: v.text.clone(), level: v.level },
            ),
        }
    }
}

#[derive(Debug, Clone, PartialEq)]
pub struct BlockQuote {
    pub value: String,
}

impl View for BlockQuote {
    type V = Node;

    open spec fn view(&self) -> Node {
        Node::BlockQuote { value: self.value@ }
    }
}

impl BlockQuote {
    pub fn new(value: &str) -> (r: Self)
        ensures
            r.value@ == value@,
    {
        Self { value: value.to_owned() }
    }
}

#[derive(Debug, Clone, PartialEq)]
pub struct Text {
    pub value: String,
}

impl View for Text {
    type V = Node;

    open spec fn view(&self) -> Node {
        Node::Text { value: self.value@ }
    }
}

impl Text {
    pub fn new(value: &str) -> (r: Self)
        ensures
            r.value@ == value@,
    {
        Self { value: value.to_owned() }
    }
}

impl Default for Text {
    fn default() -> (r: Self)
        ensures
            r.value@ == Seq::<char>::empty(),
    {
        Text { value: String::new() }
    }
}

#[derive(Debug, Clone, PartialEq)]
pub struct InternalLink {
    pub title: String,
}

impl View for InternalLink {
    type V = Node;

    open spec fn view(&self) -> Node {
        Node::InternalLink { title: self.title@ }
    }
}

impl InternalLink {
    pub fn new(title: &str) -> (r: Self)
        ensures
            r.title@ == title@,
    {
        Self { title: title.to_owned() }
    }
}

impl Default for InternalLink {
    fn default() -> (r: Self)
        ensures
            r.title@ == Seq::<char>::empty(),
    {
        InternalLink { title: String::new() }
    }
}

#[derive(Debug, Clone, PartialEq)]
pub struct ExternalLink {
    pub title: Option<String>,
    pub url: String,
}

/// The model of an optional string.
pub open spec fn opt_view(s: Option<String>) -> Option<Seq<char>> {
    match s {
        Some(t) => Some(t@),
        None => None,
    }
}

impl View for ExternalLink {
    type V = Node;

    open spec fn view(&self) -> Node {
        Node::ExternalLink { title: opt_view(self.title), url: self.url@ }
    }
}

impl ExternalLink {
    pub fn new(title: Option<&str>, url: &str) -> (r: Self)
        ensures
            r.url@ == url@,
            match title {
                Some(t) => r.title matches Some(rt) && rt@ == t@,
                None => r.title is None,
            },
    {
        let title = match title {
            Some(t) => Some(t.to_owned()),
            None => None,
        };
        Self { title, url: url.to_owned() }
    }
}

impl Default for ExternalLink {
    fn default() -> (r: Self)
        ensures
            r.title is None,
            r.url@ == Seq::<char>::empty(),
    {
        ExternalLink { title: None, url: String::new() }
    }
}

#[derive(Debug, Clone, PartialEq)]
pub struct Heading {
    pub text: String,
    pub level: u8,
}

impl View for Heading {
    type V = Node;

    open spec fn view(&self) -> Node {
        Node::Heading { text: self.text@, level: self.level }
    }
}

impl Heading {
    pub fn new(text: &str, level: u8) -> (r: Self)
        requires
            level >= 1,
        ensures
            r.text@ == text@,
            r.level == level,
    {
        Self { text: text.to_owned(), level }
    }
}

/// Inline decoration. Each count is the number of marker characters seen,
/// so `[*** x]` has `bold == 3`.
#[derive(Debug, Clone, PartialEq)]
pub struct Emphasis {
    pub text: String,
    pub bold: u8,
    pub italic: u8,
    pub strikethrough: u8,
}

impl View for Emphasis {
    type V = Node;

    open spec fn view(&self) -> Node {
        Node::Emphasis {
            text: self.text@,
            bold: self.bold,
            italic: self.italic,
            strikethrough: self.strikethrough,
        }
    }
}

impl Emphasis {
    pub fn new(text: &str, bold: u8, italic: u8, strikethrough: u8) -> (r: Self)
        ensures
            r.text@ == text@,
            r.bold == bold,
            r.italic == italic,
            r.strikethrough == strikethrough,
    {
        Self { text: text.to_owned(), bold, italic, strikethrough }
    }

    pub fn bold(text: &str) -> (r: Self)
        ensures
            r.text@ == text@,
            r.bold == 1,
            r.italic == 0,
            r.strikethrough == 0,
    {
        Self { text: text.to_owned(), bold: 1, italic: 0, strikethrough: 0 }
    }

    pub fn bold_level(text: &str, level: u8) -> (r: Self)
        ensures
            r.text@ == text@,
            r.bold == level,
            r.italic == 0,
            r.strikethrough == 0,
    {
        Self { text: text.to_owned(), bold: level, italic: 0, strikethrough: 0 }
    }

    pub fn italic(text: &str) -> (r: Self)
        ensures
            r.text@ == text@,
            r.bold == 0,
            r.italic == 1,
            r.strikethrough == 0,
    {
        Self { text: text.to_owned(), bold: 0, italic: 1, strikethrough: 0 }
    }

    pub fn strikethrough(text: &str) -> (r: Self)
        ensures
            r.text@ == text@,
            r.bold == 0,
            r.italic == 0,
            r.strikethrough == 1,
    {
        Self { text: text.to_owned(), bold: 0, italic: 0, strikethrough: 1 }
    }
}

impl Default for Emphasis {
    fn default() -> (r: Self)
        ensures
            r.text@ == Seq::<char>::empty(),
            r.bold == 0,
            r.italic == 0,
            r.strikethrough == 0,
    {
        Emphasis { text: String::new(), bold: 0, italic: 0, strikethrough: 0 }
    }
}

} // verus!
