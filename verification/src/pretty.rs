//! Terminal-oriented inspection of source, raw tokens, and typed syntax trees.
//!
//! [`PrettyReport`] combines the three useful views of a parsed file. The
//! renderer owns only presentation data; the typed tree remains the source of
//! truth and implements [`PrettyTree`] directly.
use vstd::prelude::*;

use crate::delim::{closing_text, opening_text, Delimiter, DelimiterKind};
use crate::punct::{Pair, Punctuated};
use crate::cst::Token;
use crate::delim::{Delim, DelimiterToken};
use crate::span::{point_le, range_of, span_join, Span, Spanned, TextPoint, TextRange};
use crate::tokens::{BinaryOperator, PostfixOperator, PrefixOperator, Tok};
use crate::text::{decimal, decimal_string, push_decimal};
use crate::token_stream::{append_str, str_eq, CellStream, TokenModel, TokenStream, TokenTree};

verus! {

pub const RESET: &'static str = "\u{1b}[0m";

pub const BOLD_CYAN: &'static str = "\u{1b}[1;36m";

pub const BRIGHT_YELLOW: &'static str = "\u{1b}[93m";

pub const NON_TERMINAL_BLUE: &'static str = "\u{1b}[38;5;75m";

pub const DIM: &'static str = "\u{1b}[2m";

pub const IDENT_COLOR: &'static str = "\u{1b}[38;5;45m";

pub const LITERAL_COLOR: &'static str = "\u{1b}[38;5;207m";

pub const PUNCT_COLOR: &'static str = "\u{1b}[38;5;82m";

pub const OPEN_COLOR: &'static str = "\u{1b}[38;5;75m";

pub const CLOSE_COLOR: &'static str = "\u{1b}[38;5;213m";

pub const EOC_COLOR: &'static str = "\u{1b}[38;5;208m";

pub const TRIVIA_COLOR: &'static str = "\u{1b}[38;5;245m";

/// The part a node plays in the presentation tree.
#[derive(Debug, Clone, Copy, PartialEq, Eq, Structural)]
pub enum NodeRole {
    Syntax,
    Token,
    Collection,
    Absent,
}

/// One owned node in the presentation tree.
#[derive(Debug, PartialEq, Eq)]
pub struct PrettyNode {
    pub name: String,
    pub detail: Option<String>,
    pub span: Span,
    pub role: NodeRole,
    pub children: Vec<PrettyEdge>,
}

/// A labelled child of a presentation node.
#[derive(Debug, PartialEq, Eq)]
pub struct PrettyEdge {
    pub label: String,
    pub node: PrettyNode,
}

/// Converts typed syntax into its structural presentation.
pub trait PrettyTree {
    /// Builds the presentation node for this syntax value.
    fn pretty_tree(&self) -> PrettyNode;
}

/// The delimiter family written in `notation`, such as `(…)`.
pub open spec fn notation_kind(notation: Seq<char>) -> Option<DelimiterKind> {
    if notation == "…"@ {
        Some(DelimiterKind::Empty)
    } else if notation == "…;"@ {
        Some(DelimiterKind::Semicolon)
    } else if notation == "(…)"@ {
        Some(DelimiterKind::Parenthesis)
    } else if notation == "[…]"@ {
        Some(DelimiterKind::Bracket)
    } else if notation == "{…}"@ {
        Some(DelimiterKind::Brace)
    } else if notation == "<|…|>"@ {
        Some(DelimiterKind::AngleBar)
    } else {
        None
    }
}

fn delimiter_notation(notation: &str) -> (kind: Option<DelimiterKind>)
    ensures
        kind == notation_kind(notation@),
{
    if str_eq(notation, "…") {
        Some(DelimiterKind::Empty)
    } else if str_eq(notation, "…;") {
        Some(DelimiterKind::Semicolon)
    } else if str_eq(notation, "(…)") {
        Some(DelimiterKind::Parenthesis)
    } else if str_eq(notation, "[…]") {
        Some(DelimiterKind::Bracket)
    } else if str_eq(notation, "{…}") {
        Some(DelimiterKind::Brace)
    } else if str_eq(notation, "<|…|>") {
        Some(DelimiterKind::AngleBar)
    } else {
        None
    }
}

fn owned(text: &str) -> (owned: String)
    ensures
        owned@ == text@,
{
    text.to_owned()
}

impl PrettyNode {
    fn new(name: String, span: Span, role: NodeRole) -> (node: Self)
        ensures
            node.name == name,
            node.detail is None,
            node.span == span,
            node.role == role,
            node.children@.len() == 0,
    {
        PrettyNode { name, detail: None, span, role, children: Vec::new() }
    }

    /// Creates a concrete syntax node.
    pub fn syntax(name: &str, span: Span) -> (node: Self)
        ensures
            node.name@ == name@,
            node.detail is None,
            node.span == span,
            node.role == NodeRole::Syntax,
            node.children@.len() == 0,
    {
        Self::new(owned(name), span, NodeRole::Syntax)
    }

    /// Presents an enum variant transparently as the value it wraps; a
    /// located span of the variant replaces the value's span.
    pub fn variant(category: &str, variant: &str, span: Span, value: PrettyNode) -> (node: Self)
        ensures
            node.name == value.name,
            node.detail == value.detail,
            node.role == value.role,
            node.children == value.children,
            node.span == if span is Detached {
                value.span
            } else {
                span
            },
    {
        let mut value = value;
        if !(span == Span::detached()) {
            value.span = span;
        }
        value
    }

    /// Creates a delimiter node with explicit opening and closing boundaries.
    pub fn delimiter(kind: DelimiterKind, span: Span) -> (node: Self)
        ensures
            node.name@ == "Delimiter"@,
            node.role == NodeRole::Token,
            node.span == span,
            node.children@.len() == (if opening_text(kind).len() > 0 {
                1int
            } else {
                0int
            }) + (if closing_text(kind).len() > 0 {
                1int
            } else {
                0int
            }),
    {
        let delimiter = Delimiter::new(kind, span);
        let mut node = Self::new(owned("Delimiter"), span, NodeRole::Token);
        if kind.opening().unicode_len() != 0 {
            node.push_node("opening", Self::token("Token", kind.opening(), delimiter.opening_span()));
        }
        if kind.closing().unicode_len() != 0 {
            node.push_node("closing", Self::token("Token", kind.closing(), delimiter.closing_span()));
        }
        node
    }

    /// Creates a leaf holding token or source text; a `Delimiter` leaf whose
    /// text is a delimiter notation becomes a delimiter node.
    pub fn token(name: &str, text: &str, span: Span) -> (node: Self)
        ensures
            !(name@ == "Delimiter"@ && notation_kind(text@) is Some) ==> {
                &&& node.name@ == name@
                &&& node.detail matches Some(d) && d@ == text@
                &&& node.span == span
                &&& node.role == NodeRole::Token
                &&& node.children@.len() == 0
            },
            name@ == "Delimiter"@ && notation_kind(text@) is Some ==> node.name@ == "Delimiter"@
                && node.role == NodeRole::Token && node.span == span,
        decreases 1int,
    {
        if str_eq(name, "Delimiter") {
            if let Some(kind) = delimiter_notation(text) {
                return Self::delimiter_leaf(kind, span);
            }
        }
        let mut node = Self::new(owned(name), span, NodeRole::Token);
        node.detail = Some(owned(text));
        node
    }

    fn delimiter_leaf(kind: DelimiterKind, span: Span) -> (node: Self)
        ensures
            node.name@ == "Delimiter"@,
            node.role == NodeRole::Token,
            node.span == span,
        decreases 0int,
    {
        let delimiter = Delimiter::new(kind, span);
        let mut node = Self::new(owned("Delimiter"), span, NodeRole::Token);
        if kind.opening().len() != 0 {
            let mut leaf = Self::new(owned("Token"), delimiter.opening_span(), NodeRole::Token);
            leaf.detail = Some(owned(kind.opening()));
            node.push_node("opening", leaf);
        }
        if kind.closing().len() != 0 {
            let mut leaf = Self::new(owned("Token"), delimiter.closing_span(), NodeRole::Token);
            leaf.detail = Some(owned(kind.closing()));
            node.push_node("closing", leaf);
        }
        node
    }

    /// Creates a collection wrapper.
    pub fn collection(name: &str, span: Span) -> (node: Self)
        ensures
            node.name@ == name@,
            node.detail is None,
            node.span == span,
            node.role == NodeRole::Collection,
            node.children@.len() == 0,
    {
        Self::new(owned(name), span, NodeRole::Collection)
    }

    /// Creates an absent optional value.
    pub fn absent() -> (node: Self)
        ensures
            node.name@ == "None"@,
            node.detail is None,
            node.span is Detached,
            node.role == NodeRole::Absent,
            node.children@.len() == 0,
    {
        Self::new(owned("None"), Span::detached(), NodeRole::Absent)
    }

    /// Adds a labelled child; a detached child takes this node's span.
    pub fn push_node(&mut self, label: &str, node: PrettyNode)
        ensures
            final(self).name == old(self).name,
            final(self).detail == old(self).detail,
            final(self).span == old(self).span,
            final(self).role == old(self).role,
            final(self).children@.len() == old(self).children@.len() + 1,
            final(self).children@.subrange(0, old(self).children@.len() as int) == old(self).children@,
            final(self).children@.last().label@ == label@,
            final(self).children@.last().node.name == node.name,
            final(self).children@.last().node.span == if node.span is Detached {
                old(self).span
            } else {
                node.span
            },
    {
        let mut node = node;
        if node.span == Span::detached() {
            node.span = self.span;
        }
        self.children.push(PrettyEdge { label: owned(label), node });
        proof {
            assert(self.children@.subrange(0, old(self).children@.len() as int) =~= old(self).children@);
        }
    }

    /// Adds a labelled child built from a syntax value.
    pub fn push<T: PrettyTree>(&mut self, label: &str, child: &T)
        ensures
            final(self).name == old(self).name,
            final(self).span == old(self).span,
            final(self).children@.len() == old(self).children@.len() + 1,
            final(self).children@.subrange(0, old(self).children@.len() as int) == old(self).children@,
            final(self).children@.last().label@ == label@,
    {
        let node = child.pretty_tree();
        self.push_node(label, node);
    }
}

/// The name of a collection node: its kind, its size, and `item` or `items`.
pub open spec fn item_count_text(name: Seq<char>, count: nat) -> Seq<char> {
    name + " · "@ + decimal(count) + if count == 1 {
        " item"@
    } else {
        " items"@
    }
}

pub fn item_count(name: &str, count: usize) -> (text: String)
    ensures
        text@ == item_count_text(name@, count as nat),
{
    let mut text = String::new();
    append_str(&mut text, name);
    append_str(&mut text, " · ");
    push_decimal(&mut text, count as u64);
    if count == 1 {
        append_str(&mut text, " item");
    } else {
        append_str(&mut text, " items");
    }
    proof {
        assert(text@ =~= item_count_text(name@, count as nat));
    }
    text
}

impl<T: PrettyTree> PrettyTree for Box<T> {
    fn pretty_tree(&self) -> PrettyNode {
        (**self).pretty_tree()
    }
}

impl<T: PrettyTree> PrettyTree for Option<T> {
    fn pretty_tree(&self) -> PrettyNode {
        match self {
            Some(value) => value.pretty_tree(),
            None => PrettyNode::absent(),
        }
    }
}

impl<T: PrettyTree + Spanned> PrettyTree for Vec<T> {
    fn pretty_tree(&self) -> PrettyNode {
        let mut spans: Vec<Span> = Vec::new();
        let mut i: usize = 0;
        while i < self.len()
            decreases self@.len() - i,
        {
            spans.push(self[i].span());
            i = i + 1;
        }
        let name = item_count("List", self.len());
        let mut node = PrettyNode::collection(name.as_str(), Span::join_all(spans.as_slice()));
        let mut i: usize = 0;
        while i < self.len()
            decreases self@.len() - i,
        {
            let mut label = String::new();
            append_str(&mut label, "[");
            push_decimal(&mut label, i as u64);
            append_str(&mut label, "]");
            node.push(label.as_str(), &self[i]);
            i = i + 1;
        }
        node
    }
}

/// The name under which a typed token appears: its spelling in `Token![…]`.
pub open spec fn token_name(spelling: Seq<char>) -> Seq<char> {
    "Token!["@ + spelling + "]"@
}

fn token_node(spelling: &str, span: Span) -> (node: PrettyNode)
    ensures
        node.name@ == token_name(spelling@),
        node.role == NodeRole::Token,
        node.span == span,
{
    let mut name = String::new();
    append_str(&mut name, "Token![");
    append_str(&mut name, spelling);
    append_str(&mut name, "]");
    proof {
        reveal_strlit("Token![");
        reveal_strlit("]");
        reveal_strlit("Delimiter");
        assert(name@ =~= token_name(spelling@));
        assert(name@[0] == 'T');
        assert("Delimiter"@[0] == 'D');
    }
    PrettyNode::token(name.as_str(), spelling, span)
}

impl<const K: u16> PrettyTree for Tok<K> {
    fn pretty_tree(&self) -> (node: PrettyNode)
        ensures
            node.span == self.spec_span(),
    {
        token_node(<Tok<K> as Token>::spelling_text(), self.span())
    }
}

impl PrettyTree for BinaryOperator {
    fn pretty_tree(&self) -> (node: PrettyNode)
        ensures
            node.span == self.spec_span(),
    {
        token_node(self.spelling(), self.span())
    }
}

impl PrettyTree for PrefixOperator {
    fn pretty_tree(&self) -> (node: PrettyNode)
        ensures
            node.span == self.spec_span(),
    {
        token_node(self.spelling(), self.span())
    }
}

impl PrettyTree for PostfixOperator {
    fn pretty_tree(&self) -> (node: PrettyNode)
        ensures
            node.span == self.spec_span(),
    {
        token_node(self.spelling(), self.span())
    }
}

impl<const K: u8> PrettyTree for Delim<K> {
    fn pretty_tree(&self) -> (node: PrettyNode)
        ensures
            node.span == self.spec_span(),
    {
        PrettyNode::delimiter(<Delim<K> as DelimiterToken>::kind(), self.span())
    }
}

/// The span a one-column comma takes right after `left`, when it ends no later
/// than `right` starts on the same line of the same source.
pub open spec fn inferred_comma_span(left: Span, right: Span) -> Option<Span> {
    match (left, right) {
        (
            Span::FileLocated { source, range: TextRange::Range { end: start, .. } },
            Span::FileLocated { source: right_source, range: TextRange::Range { start: limit, .. } },
        ) => {
            let end = TextPoint {
                line: start.line,
                column: if start.column < u32::MAX {
                    (start.column + 1) as u32
                } else {
                    u32::MAX
                },
                byte: if start.byte < usize::MAX {
                    (start.byte + 1) as usize
                } else {
                    usize::MAX
                },
            };
            if source == right_source && start.line == limit.line && point_le(end, limit) {
                Some(Span::FileLocated { source, range: range_of(start, end) })
            } else {
                None
            }
        },
        _ => None,
    }
}

fn infer_comma_span(left: Span, right: Span) -> (span: Option<Span>)
    ensures
        span == inferred_comma_span(left, right),
{
    let (source, start) = match (left.source(), left.end_point()) {
        (Ok(source), Ok(start)) => (source, start),
        _ => return None,
    };
    let (right_source, limit) = match (right.source(), right.start_point()) {
        (Ok(source), Ok(limit)) => (source, limit),
        _ => return None,
    };
    if source.0 != right_source.0 || start.line != limit.line {
        return None;
    }
    let end = TextPoint::new(start.line, start.column.saturating_add(1), start.byte.saturating_add(1));
    if limit.less_than(end) {
        None
    } else {
        Some(Span::new(source, TextRange::new(start, end)))
    }
}

/// The items of a vector in the opposite order.
fn reversed<T>(items: Vec<T>) -> (out: Vec<T>)
    ensures
        out@.len() == items@.len(),
{
    let mut items = items;
    let mut out: Vec<T> = Vec::new();
    let ghost n = items@.len();
    while items.len() > 0
        invariant
            out@.len() + items@.len() == n,
        decreases items@.len(),
    {
        out.push(items.pop().unwrap());
    }
    out
}

/// Assembles the collection node of a comma sequence from the nodes of its
/// values and of the commas after them. A detached comma takes the column
/// after its value when that fits before the next value, and the sequence's
/// span otherwise.
pub fn punctuated_node(span: Span, values: Vec<PrettyNode>, commas: Vec<Option<PrettyNode>>) -> (node: PrettyNode)
    requires
        values@.len() == commas@.len(),
    ensures
        node.name@ == item_count_text("Punctuated"@, values@.len()),
        node.role == NodeRole::Collection,
        node.span == span,
{
    let n = values.len();
    let mut spans: Vec<Span> = Vec::new();
    let mut i: usize = 0;
    while i < n
        invariant
            n == values@.len(),
            i <= n,
            spans@.len() == i,
            forall|j: int| 0 <= j < i ==> #[trigger] spans@[j] == values@[j].span,
        decreases n - i,
    {
        spans.push(values[i].span);
        i = i + 1;
    }
    let name = item_count("Punctuated", n);
    proof {
        reveal_strlit("Punctuated");
    }
    let mut node = PrettyNode::collection(name.as_str(), span);
    let mut values = reversed(values);
    let mut commas = reversed(commas);
    let mut i: usize = 0;
    while i < n
        invariant
            n == spans@.len(),
            i <= n,
            values@.len() == n - i,
            commas@.len() == n - i,
            node.name@ == item_count_text("Punctuated"@, n as nat),
            node.role == NodeRole::Collection,
            node.span == span,
        decreases n - i,
    {
        let value = values.pop().unwrap();
        let comma = commas.pop().unwrap();
        let mut label = String::new();
        append_str(&mut label, "[");
        push_decimal(&mut label, i as u64);
        append_str(&mut label, "]");
        node.push_node(label.as_str(), value);
        match comma {
            Some(comma) => {
                let mut comma = comma;
                if comma.span == Span::detached() {
                    let right = if i + 1 < n {
                        spans[i + 1]
                    } else {
                        node.span
                    };
                    comma.span = match infer_comma_span(spans[i], right) {
                        Some(inferred) => inferred,
                        None => node.span,
                    };
                }
                node.push_node("comma", comma);
            },
            None => {},
        }
        i = i + 1;
    }
    node
}

impl<T: PrettyTree + Spanned> PrettyTree for Punctuated<T> {
    fn pretty_tree(&self) -> PrettyNode {
        let pairs = self.pairs();
        let mut values: Vec<PrettyNode> = Vec::new();
        let mut commas: Vec<Option<PrettyNode>> = Vec::new();
        let mut i: usize = 0;
        while i < pairs.len()
            invariant
                i <= pairs@.len(),
                values@.len() == i,
                commas@.len() == i,
            decreases pairs@.len() - i,
        {
            match &pairs[i] {
                Pair::Punctuated(value, comma) => {
                    values.push(value.pretty_tree());
                    commas.push(Some(comma.pretty_tree()));
                },
                Pair::End(value) => {
                    values.push(value.pretty_tree());
                    commas.push(None);
                },
            }
            i = i + 1;
        }
        punctuated_node(self.span(), values, commas)
    }
}

/// Formatting choices shared by token, tree, and combined reports.
#[derive(Debug, Clone, Copy, PartialEq, Eq, Structural)]
pub struct PrettyOptions {
    /// Emits ANSI terminal styling when enabled.
    pub color: bool,
    /// Includes source ranges beside tokens and tree nodes.
    pub spans: bool,
    /// Includes coalesced whitespace and comment trivia in the flat token view.
    pub trivia: bool,
    /// Preferred width of source headings and horizontal token bands.
    pub width: usize,
}

impl PrettyOptions {
    /// The options of plain output.
    pub open spec fn plain_spec() -> Self {
        PrettyOptions { color: false, spans: true, trivia: false, width: 120 }
    }

    /// Plain, deterministic output suitable for tests and redirected output.
    pub fn plain() -> (options: Self)
        ensures
            options == (PrettyOptions { color: false, spans: true, trivia: false, width: 120 }),
    {
        PrettyOptions { color: false, spans: true, trivia: false, width: 120 }
    }

    /// Colored output intended for an interactive terminal.
    pub fn ansi() -> (options: Self)
        ensures
            options == (PrettyOptions { color: true, spans: true, trivia: false, width: 120 }),
    {
        PrettyOptions { color: true, spans: true, trivia: false, width: 120 }
    }
}

impl Default for PrettyOptions {
    fn default() -> (options: Self)
        ensures
            options == (PrettyOptions { color: false, spans: true, trivia: false, width: 120 }),
    {
        PrettyOptions::plain()
    }
}

/// `text` wrapped in `style` and the reset sequence when colors are on and the text is nonempty.
pub open spec fn painted(style: Seq<char>, text: Seq<char>, options: PrettyOptions) -> Seq<char> {
    if options.color && text.len() > 0 {
        style + text + RESET@
    } else {
        text
    }
}

pub fn paint(style: &'static str, text: &str, options: PrettyOptions) -> (r: String)
    ensures
        r@ == painted(style@, text@, options),
{
    let mut out = String::new();
    if options.color && text.unicode_len() != 0 {
        append_str(&mut out, style);
        append_str(&mut out, text);
        append_str(&mut out, RESET);
    } else {
        append_str(&mut out, text);
    }
    proof {
        assert(out@ =~= painted(style@, text@, options));
    }
    out
}

/// `n` copies of `unit`.
pub open spec fn repeated(unit: Seq<char>, n: nat) -> Seq<char>
    decreases n,
{
    if n == 0 {
        seq![]
    } else {
        repeated(unit, (n - 1) as nat) + unit
    }
}

pub fn push_repeated(out: &mut String, unit: &str, n: usize)
    ensures
        final(out)@ == old(out)@ + repeated(unit@, n as nat),
{
    let mut i: usize = 0;
    while i < n
        invariant
            i <= n,
            out@ == old(out)@ + repeated(unit@, i as nat),
        decreases n - i,
    {
        append_str(out, unit);
        proof {
            assert(out@ =~= old(out)@ + repeated(unit@, (i + 1) as nat));
        }
        i = i + 1;
    }
}

/// `text` centered in `width` columns, with one extra space on each side; an
/// odd remainder goes to the right.
pub open spec fn centered(text: Seq<char>, width: nat) -> Seq<char> {
    let padding: nat = if width > text.len() {
        (width - text.len()) as nat
    } else {
        0
    };
    let left: nat = padding / 2;
    let right: nat = (padding - left) as nat;
    seq![' '] + repeated(seq![' '], left) + text + repeated(seq![' '], right) + seq![' ']
}

pub fn centered_cell(text: &str, width: usize) -> (r: String)
    ensures
        r@ == centered(text@, width as nat),
{
    let count = text.unicode_len();
    let padding = if width > count {
        width - count
    } else {
        0
    };
    let left = padding / 2;
    let right = padding - left;
    let mut out = String::new();
    append_str(&mut out, " ");
    push_repeated(&mut out, " ", left);
    append_str(&mut out, text);
    push_repeated(&mut out, " ", right);
    append_str(&mut out, " ");
    proof {
        reveal_strlit(" ");
        assert(" "@ =~= seq![' ']);
        assert(out@ =~= centered(text@, width as nat));
    }
    out
}

/// `text` cut to `width` characters, its last kept character replaced by an
/// ellipsis when anything was cut.
pub open spec fn clipped_text(text: Seq<char>, width: nat) -> Seq<char> {
    if text.len() <= width {
        text
    } else {
        text.subrange(0, if width > 0 {
            width - 1
        } else {
            0
        }) + seq!['…']
    }
}

pub fn clipped(text: &str, width: usize) -> (r: String)
    ensures
        r@ == clipped_text(text@, width as nat),
{
    let count = text.unicode_len();
    let mut out = String::new();
    if count <= width {
        append_str(&mut out, text);
    } else {
        let keep = if width > 0 {
            width - 1
        } else {
            0
        };
        append_str(&mut out, text.substring_char(0, keep));
        append_str(&mut out, "…");
    }
    proof {
        reveal_strlit("…");
        assert(out@ =~= clipped_text(text@, width as nat));
    }
    out
}

/// The visible form of one character: layout characters become symbols.
pub open spec fn visible_char(c: char) -> Seq<char> {
    if c == ' ' {
        seq!['␠']
    } else if c == '\t' {
        seq!['⇥']
    } else if c == '\n' {
        seq!['↵']
    } else if c == '\r' {
        seq!['␍']
    } else {
        seq![c]
    }
}

/// The visible form of a text.
pub open spec fn visible(text: Seq<char>) -> Seq<char>
    decreases text.len(),
{
    if text.len() == 0 {
        seq![]
    } else {
        visible(text.drop_last()) + visible_char(text.last())
    }
}

pub fn visible_text(text: &str) -> (r: String)
    ensures
        r@ == visible(text@),
{
    let count = text.unicode_len();
    let mut out = String::new();
    let mut i: usize = 0;
    proof {
        reveal_strlit("␠");
        reveal_strlit("⇥");
        reveal_strlit("↵");
        reveal_strlit("␍");
    }
    while i < count
        invariant
            count == text@.len(),
            i <= count,
            out@ == visible(text@.subrange(0, i as int)),
        decreases count - i,
    {
        let c = text.get_char(i);
        if c == ' ' {
            append_str(&mut out, "␠");
        } else if c == '\t' {
            append_str(&mut out, "⇥");
        } else if c == '\n' {
            append_str(&mut out, "↵");
        } else if c == '\r' {
            append_str(&mut out, "␍");
        } else {
            append_str(&mut out, text.substring_char(i, i + 1));
        }
        proof {
            reveal_strlit("␠");
            reveal_strlit("⇥");
            reveal_strlit("↵");
            reveal_strlit("␍");
            let prefix = text@.subrange(0, i + 1);
            assert(prefix.drop_last() =~= text@.subrange(0, i as int));
            assert(prefix.last() == c);
            assert(text@.subrange(i as int, i + 1) =~= seq![c]);
            assert(visible(prefix) == visible(prefix.drop_last()) + visible_char(c));
            assert(out@ =~= visible(prefix));
        }
        i = i + 1;
    }
    proof {
        assert(text@.subrange(0, count as int) =~= text@);
    }
    out
}

/// One-based `line:column` of a point.
pub open spec fn point_text(point: TextPoint) -> Seq<char> {
    decimal((point.line + 1) as nat) + seq![':'] + decimal((point.column + 1) as nat)
}

pub fn push_point(out: &mut String, point: TextPoint)
    ensures
        final(out)@ == old(out)@ + point_text(point),
{
    push_decimal(out, point.line as u64 + 1);
    append_str(out, ":");
    push_decimal(out, point.column as u64 + 1);
    proof {
        reveal_strlit(":");
        assert(out@ =~= old(out)@ + point_text(point));
    }
}

/// The compact rendering of a span: `@detached`, `@empty`, a point, a range on
/// one line, or a range across lines, prefixed by its source number.
pub open spec fn span_text(span: Span) -> Seq<char> {
    match span {
        Span::Detached => "@detached"@,
        Span::FileLocated { range: TextRange::Empty, .. } => "@empty"@,
        Span::LocalRefFrame { range: TextRange::Empty } => "@empty"@,
        Span::FileLocated { source, range: TextRange::Range { start, end } } => located_text(
            seq!['s'] + decimal(source.0 as nat) + seq!['·'],
            start,
            end,
        ),
        Span::LocalRefFrame { range: TextRange::Range { start, end } } => located_text(
            seq![],
            start,
            end,
        ),
    }
}

pub open spec fn located_text(source: Seq<char>, start: TextPoint, end: TextPoint) -> Seq<char> {
    if start == end {
        seq!['@'] + source + point_text(start)
    } else if start.line == end.line {
        seq!['@'] + source + decimal((start.line + 1) as nat) + seq![':'] + decimal((start.column + 1) as nat) + seq![
            '–',
        ] + decimal((end.column + 1) as nat)
    } else {
        seq!['@'] + source + point_text(start) + seq!['–'] + point_text(end)
    }
}

pub fn format_span(span: Span) -> (r: String)
    ensures
        r@ == span_text(span),
{
    let mut out = String::new();
    proof {
        reveal_strlit("@detached");
        reveal_strlit("@empty");
        reveal_strlit("@");
        reveal_strlit("s");
        reveal_strlit("·");
        reveal_strlit(":");
        reveal_strlit("–");
    }
    let (source, range) = match span {
        Span::Detached => {
            append_str(&mut out, "@detached");
            return out;
        },
        Span::FileLocated { source, range } => (Some(source), range),
        Span::LocalRefFrame { range } => (None, range),
    };
    let (start, end) = match range {
        TextRange::Empty => {
            append_str(&mut out, "@empty");
            return out;
        },
        TextRange::Range { start, end } => (start, end),
    };
    append_str(&mut out, "@");
    match source {
        Some(source) => {
            append_str(&mut out, "s");
            push_decimal(&mut out, source.0);
            append_str(&mut out, "·");
        },
        None => {},
    }
    if start == end {
        push_point(&mut out, start);
    } else if start.line == end.line {
        push_decimal(&mut out, start.line as u64 + 1);
        append_str(&mut out, ":");
        push_decimal(&mut out, start.column as u64 + 1);
        append_str(&mut out, "–");
        push_decimal(&mut out, end.column as u64 + 1);
    } else {
        push_point(&mut out, start);
        append_str(&mut out, "–");
        push_point(&mut out, end);
    }
    proof {
        assert(out@ =~= span_text(span));
    }
    out
}

// ---------------------------------------------------------------------------
// The flat token view
// ---------------------------------------------------------------------------
/// The class of one entry of the flat token view.
#[derive(Debug, Clone, Copy, PartialEq, Eq, Structural)]
pub enum FlatKind {
    Open(DelimiterKind),
    Close(DelimiterKind),
    Ident,
    Literal,
    Punct,
    Trivia,
    Eoc,
    Eof,
}

/// One entry of the flat token view.
pub struct FlatToken {
    pub depth: usize,
    pub kind: FlatKind,
    pub text: String,
    pub span: Span,
}

/// The model of a flat entry.
pub struct FlatModel {
    pub depth: nat,
    pub kind: FlatKind,
    pub text: Seq<char>,
    pub span: Span,
}

pub open spec fn flat_model(t: FlatToken) -> FlatModel {
    FlatModel { depth: t.depth as nat, kind: t.kind, text: t.text@, span: t.span }
}

pub open spec fn flat_models(s: Seq<FlatToken>) -> Seq<FlatModel> {
    s.map_values(|t: FlatToken| flat_model(t))
}

/// Appends one entry, merging it into the previous entry when both are trivia
/// at the same depth.
pub open spec fn push_flat_spec(acc: Seq<FlatModel>, t: FlatModel) -> Seq<FlatModel> {
    if t.kind == FlatKind::Trivia && acc.len() > 0 && acc.last().kind == FlatKind::Trivia
        && acc.last().depth == t.depth {
        acc.drop_last().push(
            FlatModel {
                depth: t.depth,
                kind: FlatKind::Trivia,
                text: acc.last().text + t.text,
                span: span_join(acc.last().span, t.span),
            },
        )
    } else {
        acc.push(t)
    }
}

pub fn push_flat(output: &mut Vec<FlatToken>, token: FlatToken)
    ensures
        flat_models(final(output)@) == push_flat_spec(flat_models(old(output)@), flat_model(token)),
{
    let n = output.len();
    let merge = token.kind == FlatKind::Trivia && n > 0 && output[n - 1].kind == FlatKind::Trivia
        && output[n - 1].depth == token.depth;
    if merge {
        let mut previous = output.pop().unwrap();
        append_str(&mut previous.text, token.text.as_str());
        previous.span = previous.span.join(token.span);
        output.push(previous);
    } else {
        output.push(token);
    }
    proof {
        assert(flat_models(output@) =~= push_flat_spec(flat_models(old(output)@), flat_model(token)));
    }
}

/// The entries of a token sequence at `depth`, groups opened and closed
/// around their contents, appended to `acc` one by one.
pub open spec fn flatten_spec(acc: Seq<FlatModel>, s: Seq<TokenModel>, depth: usize) -> Seq<FlatModel>
    decreases s, 0int,
{
    if s.len() == 0 {
        acc
    } else {
        proof {
            assert(decreases_to!(s => s[0]));
            assert(decreases_to!(s => s.subrange(1, s.len() as int)));
        }
        flatten_spec(flatten_one(acc, s[0], depth), s.subrange(1, s.len() as int), depth)
    }
}

/// The depth of the contents of a group at `depth`.
pub open spec fn deeper(depth: usize) -> usize {
    if depth < usize::MAX {
        (depth + 1) as usize
    } else {
        depth
    }
}

pub open spec fn flatten_one(acc: Seq<FlatModel>, m: TokenModel, depth: usize) -> Seq<FlatModel>
    decreases m, 1int,
{
    match m {
        TokenModel::Group { delimiter, stream } => push_flat_spec(
            flatten_spec(
                push_flat_spec(
                    acc,
                    FlatModel {
                        depth: depth as nat,
                        kind: FlatKind::Open(delimiter.kind),
                        text: opening_text(delimiter.kind),
                        span: crate::delim::boundary_span(
                            delimiter.span,
                            true,
                            opening_text(delimiter.kind).len() as usize,
                        ),
                    },
                ),
                stream,
                deeper(depth),
            ),
            FlatModel {
                depth: depth as nat,
                kind: FlatKind::Close(delimiter.kind),
                text: closing_text(delimiter.kind),
                span: crate::delim::boundary_span(
                    delimiter.span,
                    false,
                    closing_text(delimiter.kind).len() as usize,
                ),
            },
        ),
        TokenModel::Ident { text, span } => push_flat_spec(
            acc,
            FlatModel { depth: depth as nat, kind: FlatKind::Ident, text, span },
        ),
        TokenModel::Literal { text, span, .. } => push_flat_spec(
            acc,
            FlatModel { depth: depth as nat, kind: FlatKind::Literal, text, span },
        ),
        TokenModel::Punct { text, span } => push_flat_spec(
            acc,
            FlatModel { depth: depth as nat, kind: FlatKind::Punct, text, span },
        ),
        TokenModel::Trivia { text, span, .. } => push_flat_spec(
            acc,
            FlatModel { depth: depth as nat, kind: FlatKind::Trivia, text, span },
        ),
        TokenModel::Eof { span } => push_flat_spec(
            acc,
            FlatModel { depth: depth as nat, kind: FlatKind::Eof, text: seq![], span },
        ),
    }
}

/// Appends the flat entries of `tokens` at `depth`.
pub fn flatten(tokens: &TokenStream, depth: usize, output: &mut Vec<FlatToken>)
    ensures
        flat_models(final(output)@) == flatten_spec(flat_models(old(output)@), tokens@, depth),
    decreases tokens, 0int,
{
    let n = tokens.0.len();
    let mut i: usize = 0;
    proof {
        crate::token_stream::lemma_seq_model_len(tokens.0@);
        assert(tokens@.subrange(0, tokens@.len() as int) =~= tokens@);
    }
    while i < n
        invariant
            n == tokens.0@.len(),
            n == tokens@.len(),
            i <= n,
            flatten_spec(flat_models(old(output)@), tokens@, depth) == flatten_spec(
                flat_models(output@),
                tokens@.subrange(i as int, n as int),
                depth,
            ),
        decreases n - i,
    {
        proof {
            crate::token_stream::lemma_seq_model_index(tokens.0@, i as int);
            assert(decreases_to!(tokens => tokens.0@[i as int]));
            let rest = tokens@.subrange(i as int, n as int);
            assert(rest[0] == tokens@[i as int]);
            assert(rest.subrange(1, rest.len() as int) =~= tokens@.subrange(i + 1, n as int));
        }
        flatten_tree(&tokens.0[i], depth, output);
        i = i + 1;
    }
    proof {
        assert(tokens@.subrange(n as int, n as int) =~= Seq::<TokenModel>::empty());
    }
}

fn flatten_tree(token: &TokenTree, depth: usize, output: &mut Vec<FlatToken>)
    ensures
        flat_models(final(output)@) == flatten_one(flat_models(old(output)@), token@, depth),
    decreases token, 1int,
{
    match token {
        TokenTree::Group(group) => {
            let kind = group.delimiter.kind;
            push_flat(
                output,
                FlatToken {
                    depth,
                    kind: FlatKind::Open(kind),
                    text: owned(kind.opening()),
                    span: group.delimiter.opening_span(),
                },
            );
            let inner = if depth < usize::MAX {
                depth + 1
            } else {
                depth
            };
            flatten(&group.stream, inner, output);
            push_flat(
                output,
                FlatToken {
                    depth,
                    kind: FlatKind::Close(kind),
                    text: owned(kind.closing()),
                    span: group.delimiter.closing_span(),
                },
            );
        },
        TokenTree::Ident(t) => push_flat(
            output,
            FlatToken { depth, kind: FlatKind::Ident, text: owned(t.text.as_str()), span: t.span },
        ),
        TokenTree::Literal(t) => push_flat(
            output,
            FlatToken { depth, kind: FlatKind::Literal, text: owned(t.text.as_str()), span: t.span },
        ),
        TokenTree::Punct(t) => push_flat(
            output,
            FlatToken { depth, kind: FlatKind::Punct, text: owned(t.text.as_str()), span: t.span },
        ),
        TokenTree::Trivia(t) => push_flat(
            output,
            FlatToken { depth, kind: FlatKind::Trivia, text: owned(t.text.as_str()), span: t.span },
        ),
        TokenTree::Eof(span) => push_flat(
            output,
            FlatToken { depth, kind: FlatKind::Eof, text: String::new(), span: *span },
        ),
    }
}

/// The name of a delimiter family in the flat view.
pub open spec fn kind_name(kind: DelimiterKind) -> Seq<char> {
    match kind {
        DelimiterKind::Empty => "Empty"@,
        DelimiterKind::Semicolon => "Semicolon"@,
        DelimiterKind::Parenthesis => "Parenthesis"@,
        DelimiterKind::Bracket => "Bracket"@,
        DelimiterKind::Brace => "Brace"@,
        DelimiterKind::AngleBar => "AngleBar"@,
    }
}

fn kind_name_text(kind: DelimiterKind) -> (text: &'static str)
    ensures
        text@ == kind_name(kind),
{
    match kind {
        DelimiterKind::Empty => "Empty",
        DelimiterKind::Semicolon => "Semicolon",
        DelimiterKind::Parenthesis => "Parenthesis",
        DelimiterKind::Bracket => "Bracket",
        DelimiterKind::Brace => "Brace",
        DelimiterKind::AngleBar => "AngleBar",
    }
}

/// The class label of a flat entry.
pub open spec fn flat_kind_name(kind: FlatKind) -> Seq<char> {
    match kind {
        FlatKind::Open(k) => "OPEN·"@ + kind_name(k),
        FlatKind::Close(k) => "CLOSE·"@ + kind_name(k),
        FlatKind::Ident => "IDENT"@,
        FlatKind::Literal => "LITERAL"@,
        FlatKind::Punct => "PUNCT"@,
        FlatKind::Trivia => "TRIVIA"@,
        FlatKind::Eoc => "EOC"@,
        FlatKind::Eof => "EOF"@,
    }
}

pub fn flat_kind(kind: FlatKind) -> (text: String)
    ensures
        text@ == flat_kind_name(kind),
{
    let mut text = String::new();
    match kind {
        FlatKind::Open(k) => {
            append_str(&mut text, "OPEN·");
            append_str(&mut text, kind_name_text(k));
        },
        FlatKind::Close(k) => {
            append_str(&mut text, "CLOSE·");
            append_str(&mut text, kind_name_text(k));
        },
        FlatKind::Ident => append_str(&mut text, "IDENT"),
        FlatKind::Literal => append_str(&mut text, "LITERAL"),
        FlatKind::Punct => append_str(&mut text, "PUNCT"),
        FlatKind::Trivia => append_str(&mut text, "TRIVIA"),
        FlatKind::Eoc => append_str(&mut text, "EOC"),
        FlatKind::Eof => append_str(&mut text, "EOF"),
    }
    proof {
        assert(text@ =~= flat_kind_name(kind));
    }
    text
}

/// The color of a flat entry's class label.
pub fn token_color(kind: FlatKind) -> (style: &'static str)
    ensures
        style@ == match kind {
            FlatKind::Open(_) => OPEN_COLOR@,
            FlatKind::Close(_) => CLOSE_COLOR@,
            FlatKind::Ident => IDENT_COLOR@,
            FlatKind::Literal => LITERAL_COLOR@,
            FlatKind::Punct => PUNCT_COLOR@,
            FlatKind::Trivia => TRIVIA_COLOR@,
            FlatKind::Eoc => EOC_COLOR@,
            FlatKind::Eof => DIM@,
        },
{
    match kind {
        FlatKind::Open(_) => OPEN_COLOR,
        FlatKind::Close(_) => CLOSE_COLOR,
        FlatKind::Ident => IDENT_COLOR,
        FlatKind::Literal => LITERAL_COLOR,
        FlatKind::Punct => PUNCT_COLOR,
        FlatKind::Trivia => TRIVIA_COLOR,
        FlatKind::Eoc => EOC_COLOR,
        FlatKind::Eof => DIM,
    }
}

/// The width of a flat entry's column: its visible text or class label,
/// whichever is longer, clamped to 3..=24, plus one space on each side.
pub open spec fn column_width(text: Seq<char>, kind: FlatKind) -> nat {
    let widest = if visible(text).len() > flat_kind_name(kind).len() {
        visible(text).len()
    } else {
        flat_kind_name(kind).len()
    };
    (if widest < 3 {
        3
    } else if widest > 24 {
        24
    } else {
        widest
    }) + 2
}

pub fn token_column_width(token: &FlatToken) -> (width: usize)
    ensures
        width == column_width(token.text@, token.kind),
        5 <= width <= 26,
{
    let visible = visible_text(token.text.as_str()).as_str().unicode_len();
    let label = flat_kind(token.kind).as_str().unicode_len();
    let widest = if visible > label {
        visible
    } else {
        label
    };
    let clamped = if widest < 3 {
        3
    } else if widest > 24 {
        24
    } else {
        widest
    };
    clamped + 2
}

/// The width of a band of entries: their columns and the separators between them.
fn token_band_width(tokens: &[FlatToken]) -> (width: usize) {
    let mut total: usize = 0;
    let mut i: usize = 0;
    while i < tokens.len()
        invariant
            i <= tokens@.len(),
        decreases tokens@.len() - i,
    {
        total = total.saturating_add(token_column_width(&tokens[i]));
        if i > 0 {
            total = total.saturating_add(1);
        }
        i = i + 1;
    }
    total
}

/// The head of every band's first row: the row label and its rule.
pub open spec fn band_head(options: PrettyOptions) -> Seq<char> {
    painted(BRIGHT_YELLOW@, "token"@, options) + " "@ + painted(DIM@, "│"@, options) + " "@
}

proof fn lemma_prefix_append(a: Seq<char>, b: Seq<char>, c: Seq<char>)
    requires
        a.is_prefix_of(b),
    ensures
        a.is_prefix_of(b + c),
{
    assert((b + c).subrange(0, a.len() as int) =~= b.subrange(0, a.len() as int));
}

proof fn lemma_prefix_extends(a: Seq<char>, b: Seq<char>)
    ensures
        a.is_prefix_of(a + b),
{
    assert((a + b).subrange(0, a.len() as int) =~= a);
}

proof fn lemma_prefix_trans(a: Seq<char>, b: Seq<char>, c: Seq<char>)
    requires
        a.is_prefix_of(b),
        b.is_prefix_of(c),
    ensures
        a.is_prefix_of(c),
{
    assert(c.subrange(0, a.len() as int) =~= b.subrange(0, a.len() as int));
}

/// Appends the two rows of one band: the visible token texts and their class
/// labels, each centered in its column.
fn write_token_band(output: &mut String, tokens: &[FlatToken], options: PrettyOptions)
    ensures
        (old(output)@ + band_head(options)).is_prefix_of(final(output)@),
{
    append_str(output, paint(BRIGHT_YELLOW, "token", options).as_str());
    append_str(output, " ");
    append_str(output, paint(DIM, "│", options).as_str());
    append_str(output, " ");
    let ghost head = old(output)@ + band_head(options);
    proof {
        assert(output@ =~= head);
    }
    let mut rest = String::new();
    let mut i: usize = 0;
    while i < tokens.len()
        decreases tokens@.len() - i,
    {
        if i != 0 {
            append_str(&mut rest, paint(DIM, "│", options).as_str());
        }
        let width = token_column_width(&tokens[i]) - 2;
        let text = clipped(visible_text(tokens[i].text.as_str()).as_str(), width);
        let cell = centered_cell(text.as_str(), width);
        append_str(&mut rest, paint(BRIGHT_YELLOW, cell.as_str(), options).as_str());
        i = i + 1;
    }
    append_str(&mut rest, "\n");
    append_str(&mut rest, paint(BRIGHT_YELLOW, " type", options).as_str());
    append_str(&mut rest, " ");
    append_str(&mut rest, paint(DIM, "│", options).as_str());
    append_str(&mut rest, " ");
    let mut i: usize = 0;
    while i < tokens.len()
        decreases tokens@.len() - i,
    {
        if i != 0 {
            append_str(&mut rest, paint(DIM, "│", options).as_str());
        }
        let width = token_column_width(&tokens[i]) - 2;
        let kind = clipped(flat_kind(tokens[i].kind).as_str(), width);
        let cell = centered_cell(kind.as_str(), width);
        append_str(&mut rest, paint(token_color(tokens[i].kind), cell.as_str(), options).as_str());
        i = i + 1;
    }
    append_str(&mut rest, "\n");
    append_str(output, rest.as_str());
    proof {
        assert((head + rest@).subrange(0, head.len() as int) =~= head);
    }
}

fn is_structural(kind: FlatKind) -> (r: bool)
    ensures
        r == (kind is Open || kind is Close || kind is Eoc),
{
    match kind {
        FlatKind::Open(_) | FlatKind::Close(_) | FlatKind::Eoc => true,
        _ => false,
    }
}

proof fn lemma_band_written(
    head: Seq<char>,
    start: Seq<char>,
    before: Seq<char>,
    mid: Seq<char>,
    after: Seq<char>,
    wrote: bool,
    options: PrettyOptions,
)
    requires
        head == start + band_head(options),
        !wrote ==> before == start && mid == before,
        wrote ==> head.is_prefix_of(before) && mid == before + "\n"@,
        (mid + band_head(options)).is_prefix_of(after),
    ensures
        head.is_prefix_of(after),
{
    if wrote {
        lemma_prefix_append(head, before, "\n"@);
        lemma_prefix_append(head, mid, band_head(options));
        lemma_prefix_trans(head, mid + band_head(options), after);
    }
}

/// Appends the flat entries as bands that wrap at the report width and end at
/// every end of cell; an empty view is the symbol `∅`.
fn write_flat(output: &mut String, flat: Vec<FlatToken>, options: PrettyOptions)
    ensures
        flat@.len() == 0 ==> final(output)@ == old(output)@ + painted(DIM@, "∅"@, options) + "\n"@,
        flat@.len() > 0 && (options.trivia || flat@.last().kind != FlatKind::Trivia) ==> (old(
            output,
        )@ + band_head(options)).is_prefix_of(final(output)@),
        old(output)@.is_prefix_of(final(output)@),
{
    let mut kept: Vec<FlatToken> = Vec::new();
    let ghost orig = flat@;
    let mut flat = flat;
    let mut reversed: Vec<FlatToken> = Vec::new();
    let ghost n = flat@.len();
    while flat.len() > 0
        invariant
            flat@.len() + reversed@.len() == n,
            n == orig.len(),
            flat@ == orig.subrange(0, flat@.len() as int),
            reversed@.len() > 0 ==> reversed@[0] == orig.last(),
        decreases flat@.len(),
    {
        let ghost before = flat@;
        let token = flat.pop().unwrap();
        proof {
            assert(flat@ =~= orig.subrange(0, flat@.len() as int));
            if reversed@.len() == 0 {
                assert(before.len() == n);
                assert(token == orig.last());
            }
        }
        reversed.push(token);
    }
    while reversed.len() > 0
        invariant
            n == 0 ==> reversed@.len() == 0 && kept@.len() == 0,
            n == orig.len(),
            reversed@.len() > 0 ==> reversed@[0] == orig.last(),
            reversed@.len() == 0 && n > 0 && (options.trivia || orig.last().kind
                != FlatKind::Trivia) ==> kept@.len() > 0,
        decreases reversed@.len(),
    {
        let ghost before = reversed@;
        let token = reversed.pop().unwrap();
        proof {
            if reversed@.len() == 0 {
                assert(token == before[0]);
            } else {
                assert(reversed@[0] == before[0]);
            }
        }
        if options.trivia || token.kind != FlatKind::Trivia {
            kept.push(token);
        }
    }
    let ghost head = old(output)@ + band_head(options);
    proof {
        lemma_prefix_extends(old(output)@, band_head(options));
    }
    if kept.len() == 0 {
        let ghost before = output@;
        append_str(output, paint(DIM, "∅", options).as_str());
        append_str(output, "\n");
        proof {
            assert(output@ =~= before + painted(DIM@, "∅"@, options) + "\n"@);
            lemma_prefix_extends(before, painted(DIM@, "∅"@, options) + "\n"@);
        }
        return;
    }
    let reduced = options.width.saturating_sub(8);
    let available = if reduced > 24 {
        reduced
    } else {
        24
    };
    let n = kept.len();
    let mut band_start: usize = 0;
    let mut band_end: usize = 0;
    let mut used: usize = 0;
    let mut wrote_band = false;
    let mut start: usize = 0;
    while start < n
        invariant
            n == kept@.len(),
            band_start <= band_end <= start <= n,
            !wrote_band ==> output@ == old(output)@,
            wrote_band ==> head.is_prefix_of(output@),
            head == old(output)@ + band_head(options),
            start > 0 ==> wrote_band || band_end > band_start,
        decreases n - start,
    {
        let mut end = start;
        while end < n && !is_structural(kept[end].kind)
            invariant
                start <= end <= n,
                n == kept@.len(),
            decreases n - end,
        {
            end = end + 1;
        }
        let end = if end < n {
            end + 1
        } else {
            end
        };
        let chunk_width = token_band_width(&kept.as_slice()[start..end]);
        if band_end > band_start && used.saturating_add(1).saturating_add(chunk_width) > available {
            let ghost before = output@;
            if wrote_band {
                append_str(output, "\n");
            }
            let ghost mid = output@;
            write_token_band(output, &kept.as_slice()[band_start..band_end], options);
            proof {
                lemma_band_written(head, old(output)@, before, mid, output@, wrote_band, options);
            }
            wrote_band = true;
            band_start = start;
            band_end = start;
            used = 0;
        }
        if band_end > band_start {
            used = used.saturating_add(1);
        }
        used = used.saturating_add(chunk_width);
        band_end = end;
        if kept[end - 1].kind == FlatKind::Eoc {
            let ghost before = output@;
            if wrote_band {
                append_str(output, "\n");
            }
            let ghost mid = output@;
            write_token_band(output, &kept.as_slice()[band_start..band_end], options);
            proof {
                lemma_band_written(head, old(output)@, before, mid, output@, wrote_band, options);
            }
            wrote_band = true;
            band_start = end;
            band_end = end;
            used = 0;
        }
        start = end;
    }
    if band_end > band_start {
        let ghost before = output@;
        if wrote_band {
            append_str(output, "\n");
        }
        let ghost mid = output@;
        write_token_band(output, &kept.as_slice()[band_start..band_end], options);
        proof {
            lemma_band_written(head, old(output)@, before, mid, output@, wrote_band, options);
        }
    }
    proof {
        if wrote_band || band_end > band_start {
            lemma_prefix_trans(old(output)@, head, output@);
        }
    }
}
/// Appends the flat entries of every cell, closing a muted cell with its
/// semicolon and every cell with an end-of-cell entry.
fn flatten_cells(cells: &CellStream, output: &mut Vec<FlatToken>)
    ensures
        cells.cells@.len() == 0 ==> final(output)@ == old(output)@,
        cells.cells@.len() > 0 ==> final(output)@.len() > 0 && final(output)@.last().kind
            == FlatKind::Eoc,
{
    let mut i: usize = 0;
    while i < cells.cells.len()
        invariant
            cells.cells@.len() == 0 ==> output@ == old(output)@,
            i > 0 ==> output@.len() > 0 && output@.last().kind == FlatKind::Eoc,
        decreases cells.cells@.len() - i,
    {
        let cell = &cells.cells[i];
        flatten(&cell.stream, 0, output);
        if cell.delimiter.kind == DelimiterKind::Semicolon {
            push_flat(
                output,
                FlatToken {
                    depth: 0,
                    kind: FlatKind::Close(DelimiterKind::Semicolon),
                    text: owned(";"),
                    span: cell.delimiter.closing_span(),
                },
            );
        }
        let ghost before = output@;
        push_flat(
            output,
            FlatToken { depth: 0, kind: FlatKind::Eoc, text: owned("EOC"), span: cell.span() },
        );
        proof {
            let m = flat_models(output@);
            assert(m.len() == output@.len());
            assert(m.last() == flat_model(output@.last()));
        }
        i = i + 1;
    }
}

/// The flat token view of a cell stream: bands of token texts over their
/// classes, each band ending at an end of cell; no cells render as `∅`.
pub fn format_cells(cells: &CellStream, options: PrettyOptions) -> (text: String)
    ensures
        cells.cells@.len() == 0 ==> text@ == painted(DIM@, "∅"@, options) + "\n"@,
        cells.cells@.len() > 0 ==> band_head(options).is_prefix_of(text@),
{
    let mut flat: Vec<FlatToken> = Vec::new();
    flatten_cells(cells, &mut flat);
    let mut output = String::new();
    write_flat(&mut output, flat, options);
    proof {
        assert(Seq::<char>::empty() + band_head(options) =~= band_head(options));
        if cells.cells@.len() == 0 {
            assert(output@ =~= painted(DIM@, "∅"@, options) + "\n"@);
        }
    }
    output
}

// ---------------------------------------------------------------------------
// The typed tree view
// ---------------------------------------------------------------------------
/// The style of a node's name by its role.
pub open spec fn node_style(role: NodeRole) -> Seq<char> {
    match role {
        NodeRole::Syntax => NON_TERMINAL_BLUE@,
        NodeRole::Token => BOLD_CYAN@,
        NodeRole::Collection => BRIGHT_YELLOW@,
        NodeRole::Absent => DIM@,
    }
}

pub fn node_color(role: NodeRole) -> (style: &'static str)
    ensures
        style@ == node_style(role),
{
    match role {
        NodeRole::Syntax => NON_TERMINAL_BLUE,
        NodeRole::Token => BOLD_CYAN,
        NodeRole::Collection => BRIGHT_YELLOW,
        NodeRole::Absent => DIM,
    }
}

/// The branch drawn before a node: none for the root, a corner for the last
/// child and a tee for the others.
pub open spec fn connector_text(labelled: bool, last: bool) -> Seq<char> {
    if !labelled {
        seq![]
    } else if last {
        "└─ "@
    } else {
        "├─ "@
    }
}

/// The label of an edge followed by an arrow; nothing for the root or an empty label.
pub open spec fn label_text(label: Option<Seq<char>>, options: PrettyOptions) -> Seq<char> {
    match label {
        Some(l) => if l.len() > 0 {
            painted(BRIGHT_YELLOW@, l, options) + " "@ + painted(DIM@, "→"@, options) + " "@
        } else {
            seq![]
        },
        None => seq![],
    }
}

/// The visible detail text of a leaf, followed by two spaces.
pub open spec fn detail_text(detail: Option<String>, options: PrettyOptions) -> Seq<char> {
    match detail {
        Some(d) => painted(BRIGHT_YELLOW@, visible(d@), options) + "  "@,
        None => seq![],
    }
}

/// The rendered span after a node's name, when spans are shown.
pub open spec fn span_suffix(span: Span, options: PrettyOptions) -> Seq<char> {
    if options.spans {
        "  "@ + painted(DIM@, span_text(span), options)
    } else {
        seq![]
    }
}

/// The one line that presents a node.
pub open spec fn node_line(
    node: PrettyNode,
    prefix: Seq<char>,
    label: Option<Seq<char>>,
    last: bool,
    options: PrettyOptions,
) -> Seq<char> {
    painted(DIM@, prefix, options) + painted(DIM@, connector_text(label is Some, last), options)
        + label_text(label, options) + detail_text(node.detail, options) + painted(
        node_style(node.role),
        node.name@,
        options,
    ) + span_suffix(node.span, options) + "\n"@
}

/// The prefix under which the children of a node are drawn.
pub open spec fn child_prefix(prefix: Seq<char>, labelled: bool, last: bool) -> Seq<char> {
    if !labelled {
        seq![]
    } else if last {
        prefix + "   "@
    } else {
        prefix + "│  "@
    }
}

/// A node's line followed by the lines of its children.
pub open spec fn node_text(
    node: PrettyNode,
    prefix: Seq<char>,
    label: Option<Seq<char>>,
    last: bool,
    options: PrettyOptions,
) -> Seq<char>
    decreases node, 1int, 0int,
{
    node_line(node, prefix, label, last, options) + children_text(
        node,
        child_prefix(prefix, label is Some, last),
        0,
        options,
    )
}

/// The lines of the children of `node` from the `i`-th on.
pub open spec fn children_text(node: PrettyNode, prefix: Seq<char>, i: nat, options: PrettyOptions) -> Seq<
    char,
>
    decreases node, 0int, node.children@.len() - i,
{
    if i >= node.children@.len() {
        seq![]
    } else {
        let edge = node.children@[i as int];
        proof {
            assert(decreases_to!(node => node.children));
            assert(decreases_to!(node.children => node.children@));
            assert(decreases_to!(node.children@ => node.children@[i as int]));
            assert(decreases_to!(node.children@[i as int] => node.children@[i as int].node));
        }
        node_text(edge.node, prefix, Some(edge.label@), i + 1 == node.children@.len(), options)
            + children_text(node, prefix, i + 1, options)
    }
}

fn push_label(output: &mut String, label: Option<&str>, options: PrettyOptions)
    ensures
        final(output)@ == old(output)@ + label_text(
            match label {
                Some(l) => Some(l@),
                None => None,
            },
            options,
        ),
{
    proof {
        reveal_strlit(" ");
    }
    match label {
        Some(l) => {
            if l.unicode_len() != 0 {
                append_str(output, paint(BRIGHT_YELLOW, l, options).as_str());
                append_str(output, " ");
                append_str(output, paint(DIM, "→", options).as_str());
                append_str(output, " ");
                proof {
                    assert(output@ =~= old(output)@ + label_text(Some(l@), options));
                }
            }
        },
        None => {},
    }
}

fn push_detail(output: &mut String, detail: &Option<String>, options: PrettyOptions)
    ensures
        final(output)@ == old(output)@ + detail_text(*detail, options),
{
    proof {
        reveal_strlit("  ");
    }
    match detail {
        Some(detail) => {
            append_str(output, paint(BRIGHT_YELLOW, visible_text(detail.as_str()).as_str(), options).as_str());
            append_str(output, "  ");
            proof {
                assert(output@ =~= old(output)@ + detail_text(Some(*detail), options));
            }
        },
        None => {},
    }
}

fn push_span_suffix(output: &mut String, span: Span, options: PrettyOptions)
    ensures
        final(output)@ == old(output)@ + span_suffix(span, options),
{
    proof {
        reveal_strlit("  ");
    }
    if options.spans {
        append_str(output, "  ");
        append_str(output, paint(DIM, format_span(span).as_str(), options).as_str());
        proof {
            assert(output@ =~= old(output)@ + span_suffix(span, options));
        }
    }
}

#[verifier::rlimit(50)]
fn write_node_line(
    output: &mut String,
    node: &PrettyNode,
    prefix: &str,
    label: Option<&str>,
    last: bool,
    options: PrettyOptions,
)
    ensures
        final(output)@ == old(output)@ + node_line(
            *node,
            prefix@,
            match label {
                Some(l) => Some(l@),
                None => None,
            },
            last,
            options,
        ),
{
    let connector = match label {
        None => "",
        Some(_) => if last {
            "└─ "
        } else {
            "├─ "
        },
    };
    proof {
        reveal_strlit("");
        reveal_strlit("└─ ");
        reveal_strlit("├─ ");
        reveal_strlit("\n");
        assert(connector@ == connector_text(label is Some, last));
    }
    let ghost o0 = output@;
    let ghost spec_label: Option<Seq<char>> = match label {
        Some(l) => Some(l@),
        None => None,
    };
    let ghost a = painted(DIM@, prefix@, options);
    let ghost b = painted(DIM@, connector_text(label is Some, last), options);
    let ghost l = label_text(spec_label, options);
    let ghost d = detail_text(node.detail, options);
    let ghost n = painted(node_style(node.role), node.name@, options);
    let ghost t = span_suffix(node.span, options);
    append_str(output, paint(DIM, prefix, options).as_str());
    append_str(output, paint(DIM, connector, options).as_str());
    proof {
        assert(output@ =~= o0 + a + b);
    }
    push_label(output, label, options);
    push_detail(output, &node.detail, options);
    proof {
        assert(output@ =~= o0 + a + b + l + d);
    }
    append_str(output, paint(node_color(node.role), node.name.as_str(), options).as_str());
    push_span_suffix(output, node.span, options);
    append_str(output, "\n");
    proof {
        assert(output@ =~= o0 + a + b + l + d + n + t + "\n"@);
        assert(node_line(*node, prefix@, spec_label, last, options) == a + b + l + d + n + t + "\n"@);
    }
}

fn write_node(
    output: &mut String,
    node: &PrettyNode,
    prefix: &str,
    label: Option<&str>,
    last: bool,
    options: PrettyOptions,
)
    ensures
        final(output)@ == old(output)@ + node_text(
            *node,
            prefix@,
            match label {
                Some(l) => Some(l@),
                None => None,
            },
            last,
            options,
        ),
    decreases node, 1int, 0int,
{
    write_node_line(output, node, prefix, label, last, options);
    let mut inner = String::new();
    proof {
        reveal_strlit("   ");
        reveal_strlit("│  ");
    }
    match label {
        None => {},
        Some(_) => {
            append_str(&mut inner, prefix);
            if last {
                append_str(&mut inner, "   ");
            } else {
                append_str(&mut inner, "│  ");
            }
        },
    }
    proof {
        assert(inner@ =~= child_prefix(prefix@, label is Some, last));
    }
    let ghost mid = output@;
    write_children(output, node, inner.as_str(), 0, options);
    proof {
        assert(output@ =~= old(output)@ + node_text(
            *node,
            prefix@,
            match label {
                Some(l) => Some(l@),
                None => None,
            },
            last,
            options,
        ));
    }
}

fn write_children(output: &mut String, node: &PrettyNode, prefix: &str, i: usize, options: PrettyOptions)
    requires
        i <= node.children@.len(),
    ensures
        final(output)@ == old(output)@ + children_text(*node, prefix@, i as nat, options),
    decreases node, 0int, node.children@.len() - i,
{
    if i >= node.children.len() {
        return;
    }
    proof {
        assert(decreases_to!(node => node.children));
        assert(decreases_to!(node.children => node.children@));
        assert(decreases_to!(node.children@ => node.children@[i as int]));
        assert(decreases_to!(node.children@[i as int] => node.children@[i as int].node));
    }
    let edge = &node.children[i];
    write_node(output, &edge.node, prefix, Some(edge.label.as_str()), i + 1 == node.children.len(), options);
    write_children(output, node, prefix, i + 1, options);
}

/// The tree view of a presentation node.
pub fn format_tree(node: &PrettyNode, options: PrettyOptions) -> (text: String)
    ensures
        text@ == node_text(*node, seq![], None, true, options),
{
    let mut output = String::new();
    proof {
        reveal_strlit("");
    }
    write_node(&mut output, node, "", None, true, options);
    output
}

// ---------------------------------------------------------------------------
// The combined report
// ---------------------------------------------------------------------------
/// A section heading: the title in a rule that fills the report width.
pub open spec fn section_text(title: Seq<char>, options: PrettyOptions) -> Seq<char> {
    let fill: nat = if options.width > title.len() + 5 {
        (options.width - (title.len() + 5)) as nat
    } else {
        0
    };
    painted(DIM@, seq![], options) + "╭─ "@ + painted(BOLD_CYAN@, title, options) + " "@ + painted(
        DIM@,
        repeated("─"@, fill),
        options,
    ) + "\n"@
}

fn section_title(output: &mut String, title: &str, options: PrettyOptions)
    ensures
        final(output)@ == old(output)@ + section_text(title@, options),
{
    proof {
        reveal_strlit("");
        reveal_strlit("╭─ ");
        reveal_strlit(" ");
        reveal_strlit("\n");
    }
    let title_len = title.unicode_len();
    let fill = options.width.saturating_sub(title_len.saturating_add(5));
    let mut rule = String::new();
    push_repeated(&mut rule, "─", fill);
    append_str(output, paint(DIM, "", options).as_str());
    append_str(output, "╭─ ");
    append_str(output, paint(BOLD_CYAN, title, options).as_str());
    append_str(output, " ");
    append_str(output, paint(DIM, rule.as_str(), options).as_str());
    append_str(output, "\n");
    proof {
        assert(rule@ == repeated("─"@, if options.width > title@.len() + 5 {
            (options.width - (title@.len() + 5)) as nat
        } else {
            0
        }));
        assert(output@ =~= old(output)@ + section_text(title@, options));
    }
}

/// The lines of a text as the standard line iterator yields them: split at
/// each line feed, a carriage return before it dropped, and no empty line
/// after a final line feed.
pub open spec fn text_lines(text: Seq<char>) -> Seq<Seq<char>> {
    text_lines_after(text, 0)
}

/// The lines of `text` starting at index `from`.
pub open spec fn text_lines_after(text: Seq<char>, from: nat) -> Seq<Seq<char>>
    decreases text.len() - from,
{
    if from >= text.len() {
        seq![]
    } else {
        let end = line_end(text, from);
        let raw = text.subrange(from as int, end as int);
        let line = if end < text.len() && raw.len() > 0 && raw.last() == '\r' {
            raw.drop_last()
        } else {
            raw
        };
        proof {
            lemma_line_end_bounds(text, from);
        }
        if end < text.len() {
            seq![line] + text_lines_after(text, end + 1)
        } else {
            seq![line]
        }
    }
}

/// The index of the first line feed at or after `from`, or the length.
pub open spec fn line_end(text: Seq<char>, from: nat) -> nat
    decreases text.len() - from,
{
    if from >= text.len() {
        text.len()
    } else if text[from as int] == '\n' {
        from
    } else {
        line_end(text, from + 1)
    }
}

pub proof fn lemma_line_end_bounds(text: Seq<char>, from: nat)
    ensures
        from <= text.len() ==> from <= line_end(text, from) <= text.len(),
        from <= text.len() ==> forall|k: int| from <= k < line_end(text, from) ==> text[k] != '\n',
        line_end(text, from) < text.len() ==> text[line_end(text, from) as int] == '\n',
    decreases text.len() - from,
{
    if from < text.len() && text[from as int] != '\n' {
        lemma_line_end_bounds(text, from + 1);
    }
}

/// Splits a text into its lines.
pub fn split_lines(text: &str) -> (lines: Vec<String>)
    ensures
        lines@.len() == text_lines(text@).len(),
        forall|i: int| 0 <= i < lines@.len() ==> #[trigger] lines@[i]@ == text_lines(text@)[i],
{
    let count = text.unicode_len();
    let mut lines: Vec<String> = Vec::new();
    let mut from: usize = 0;
    while from < count
        invariant
            count == text@.len(),
            from <= count,
            text_lines(text@) == lines@.map_values(|l: String| l@) + text_lines_after(text@, from as nat),
        decreases count - from,
    {
        let mut end = from;
        while end < count && text.get_char(end) != '\n'
            invariant
                from <= end <= count,
                count == text@.len(),
                line_end(text@, from as nat) == line_end(text@, end as nat),
            decreases count - end,
        {
            end = end + 1;
        }
        proof {
            assert(line_end(text@, from as nat) == end);
        }
        let keep = if end < count && end > from && text.get_char(end - 1) == '\r' {
            end - 1
        } else {
            end
        };
        let mut line = String::new();
        append_str(&mut line, text.substring_char(from, keep));
        let ghost before = lines@.map_values(|l: String| l@);
        lines.push(line);
        proof {
            let raw = text@.subrange(from as int, end as int);
            if end < count && end > from && text@[end - 1] == '\r' {
                assert(raw.drop_last() =~= text@.subrange(from as int, keep as int));
            } else {
                assert(raw =~= text@.subrange(from as int, keep as int));
            }
            assert(lines@.map_values(|l: String| l@) =~= before.push(line@));
            lemma_line_end_bounds(text@, from as nat);
        }
        from = if end < count {
            end + 1
        } else {
            end
        };
        proof {
            assert(text_lines(text@) =~= lines@.map_values(|l: String| l@) + text_lines_after(text@, from as nat));
        }
    }
    proof {
        assert(text_lines_after(text@, from as nat) =~= seq![]);
        assert(text_lines(text@) =~= lines@.map_values(|l: String| l@));
        assert forall|i: int| 0 <= i < lines@.len() implies #[trigger] lines@[i]@ == text_lines(text@)[i] by {
            assert(lines@.map_values(|l: String| l@)[i] == lines@[i]@);
        }
    }
    lines
}

/// Appends `text` right-aligned in `width` columns.
fn push_right_aligned(output: &mut String, text: &str, width: usize)
    ensures
        final(output)@ == old(output)@ + repeated(seq![' '], if width > text@.len() {
            (width - text@.len()) as nat
        } else {
            0
        }) + text@,
{
    let len = text.unicode_len();
    let pad = if width > len {
        width - len
    } else {
        0
    };
    proof {
        reveal_strlit(" ");
        assert(" "@ =~= seq![' ']);
    }
    push_repeated(output, " ", pad);
    append_str(output, text);
}

/// `text` right-aligned in a column of `width` characters.
pub open spec fn right_aligned(text: Seq<char>, width: nat) -> Seq<char> {
    repeated(seq![' '], if width > text.len() {
        (width - text.len()) as nat
    } else {
        0
    }) + text
}

/// The row that shows line `number` of a source, its number right-aligned in
/// a column of `width`.
pub open spec fn source_row(line: Seq<char>, number: nat, width: nat, options: PrettyOptions) -> Seq<char> {
    painted(DIM@, "│"@, options) + " "@ + right_aligned(decimal(number), width) + " "@ + painted(
        DIM@,
        "│"@,
        options,
    ) + " "@ + line + "\n"@
}

/// The rows of the first `k` lines, each numbered by its position from 1.
pub open spec fn source_rows(lines: Seq<Seq<char>>, k: nat, width: nat, options: PrettyOptions) -> Seq<
    char,
>
    decreases k,
{
    if k == 0 {
        seq![]
    } else {
        source_rows(lines, (k - 1) as nat, width, options) + source_row(
            lines[k - 1],
            k,
            width,
            options,
        )
    }
}

/// The width of the line-number column of a source: the digits of its last
/// line number.
pub open spec fn line_number_width(source: Seq<char>) -> nat {
    decimal(if text_lines(source).len() > 1 {
        text_lines(source).len()
    } else {
        1
    }).len()
}

/// The body of the SOURCE section: every line of the source, numbered by its
/// position, or the empty-set symbol for an empty source; then the closing rule.
pub open spec fn source_section(source: Seq<char>, options: PrettyOptions) -> Seq<char> {
    (if source.len() == 0 {
        painted(DIM@, "│  ∅"@, options) + "\n"@
    } else {
        source_rows(
            text_lines(source),
            text_lines(source).len(),
            line_number_width(source),
            options,
        )
    }) + painted(DIM@, "╰─"@, options) + "\n"@
}

/// Appends the numbered source lines, or the empty-set symbol for an empty
/// source, and closes the section.
fn write_source(output: &mut String, source: &str, options: PrettyOptions)
    ensures
        final(output)@ == old(output)@ + source_section(source@, options),
{
    let lines = split_lines(source);
    let count = if lines.len() > 1 {
        lines.len()
    } else {
        1
    };
    let width = decimal_string(count as u64).unicode_len();
    let ghost start = output@;
    let ghost w = line_number_width(source@);
    if source.unicode_len() == 0 {
        append_str(output, paint(DIM, "│  ∅", options).as_str());
        append_str(output, "\n");
    } else {
        let mut index: usize = 0;
        while index < lines.len()
            invariant
                index <= lines@.len(),
                lines@.len() == text_lines(source@).len(),
                forall|i: int| 0 <= i < lines@.len() ==> #[trigger] lines@[i]@ == text_lines(source@)[i],
                width == w,
                output@ == start + source_rows(text_lines(source@), index as nat, w, options),
            decreases lines@.len() - index,
        {
            append_str(output, paint(DIM, "│", options).as_str());
            append_str(output, " ");
            let number = decimal_string(index as u64 + 1);
            push_right_aligned(output, number.as_str(), width);
            append_str(output, " ");
            append_str(output, paint(DIM, "│", options).as_str());
            append_str(output, " ");
            append_str(output, lines[index].as_str());
            append_str(output, "\n");
            proof {
                assert(output@ =~= start + source_rows(text_lines(source@), (index + 1) as nat, w, options));
            }
            index = index + 1;
        }
    }
    append_str(output, paint(DIM, "╰─", options).as_str());
    append_str(output, "\n");
    proof {
        assert(output@ =~= start + source_section(source@, options));
    }
}

/// A three-part inspection report for one parsed source file: the retained
/// input, the flat token view of its cells, and its complete typed tree.
pub struct PrettyReport<'source> {
    source: &'source str,
    cells: CellStream,
    cst: PrettyNode,
    options: PrettyOptions,
}

impl<'source> PrettyReport<'source> {
    pub closed spec fn spec_options(&self) -> PrettyOptions {
        self.options
    }

    pub closed spec fn spec_source(&self) -> Seq<char> {
        self.source@
    }

    /// Creates a plain report from its three projections.
    pub fn new(source: &'source str, cells: CellStream, cst: PrettyNode) -> (report: Self)
        ensures
            report.spec_options() == PrettyOptions::plain_spec(),
            report.spec_source() == source@,
    {
        PrettyReport { source, cells, cst, options: PrettyOptions::plain() }
    }

    /// Enables or disables ANSI terminal styling.
    pub fn ansi(self, enabled: bool) -> (report: Self)
        ensures
            report.spec_options() == (PrettyOptions { color: enabled, ..self.spec_options() }),
            report.spec_source() == self.spec_source(),
    {
        let mut report = self;
        report.options.color = enabled;
        report
    }

    /// Enables or disables source ranges.
    pub fn spans(self, enabled: bool) -> (report: Self)
        ensures
            report.spec_options() == (PrettyOptions { spans: enabled, ..self.spec_options() }),
            report.spec_source() == self.spec_source(),
    {
        let mut report = self;
        report.options.spans = enabled;
        report
    }

    /// Includes or hides coalesced trivia in the flat token view.
    pub fn trivia(self, enabled: bool) -> (report: Self)
        ensures
            report.spec_options() == (PrettyOptions { trivia: enabled, ..self.spec_options() }),
            report.spec_source() == self.spec_source(),
    {
        let mut report = self;
        report.options.trivia = enabled;
        report
    }

    /// Sets the preferred report width used to wrap horizontal token bands;
    /// widths under 40 become 40.
    pub fn width(self, width: usize) -> (report: Self)
        ensures
            report.spec_options() == (PrettyOptions {
                width: if width > 40 {
                    width
                } else {
                    40
                },
                ..self.spec_options()
            }),
            report.spec_source() == self.spec_source(),
    {
        let mut report = self;
        report.options.width = if width > 40 {
            width
        } else {
            40
        };
        report
    }

    /// Renders the three sections of the report; it opens with the SOURCE
    /// section, which shows every line of the source numbered by its position.
    pub fn to_string(&self) -> (text: String)
        ensures
            (section_text("SOURCE"@, self.spec_options()) + source_section(
                self.spec_source(),
                self.spec_options(),
            )).is_prefix_of(text@),
    {
        let mut output = String::new();
        section_title(&mut output, "SOURCE", self.options);
        write_source(&mut output, self.source, self.options);
        let ghost head = output@;
        proof {
            reveal_strlit("");
            assert(head =~= section_text("SOURCE"@, self.options) + source_section(
                self.source@,
                self.options,
            ));
        }
        section_title(&mut output, "TOKEN STREAM", self.options);
        let ghost after_title = output@;
        let mut flat: Vec<FlatToken> = Vec::new();
        flatten_cells(&self.cells, &mut flat);
        write_flat(&mut output, flat, self.options);
        let ghost after_flat = output@;
        section_title(&mut output, "TYPED CST", self.options);
        let ghost after_cst_title = output@;
        write_node(&mut output, &self.cst, "", None, true, self.options);
        proof {
            lemma_prefix_extends(head, section_text("TOKEN STREAM"@, self.options));
            lemma_prefix_trans(head, after_title, after_flat);
            lemma_prefix_extends(after_flat, section_text("TYPED CST"@, self.options));
            lemma_prefix_trans(head, after_flat, after_cst_title);
            lemma_prefix_extends(after_cst_title, output@.subrange(
                after_cst_title.len() as int,
                output@.len() as int,
            ));
            assert(after_cst_title + output@.subrange(
                after_cst_title.len() as int,
                output@.len() as int,
            ) =~= output@);
            lemma_prefix_trans(head, after_cst_title, output@);
        }
        output
    }
}

} // verus!
