//! Raw atoms, recursive groups, and the non-recursive cell layer.
//!
//! Every raw value has a mathematical model ([`TokenModel`]) that contracts
//! speak of: the rendered text, the spans, and the structure of nested groups.
use vstd::prelude::*;

use crate::delim::{closing_text, opening_text, Delimiter, DelimiterKind};
use crate::lexemes::{
    cell_lexemes, cells_lexemes, lemma_lexemes_append, lemma_lexemes_push, lemma_lexemes_single,
    lemma_segment_empty, lemma_segment_split, lemma_segment_whole, model_lexemes, models_lexemes,
    segment,
};
use crate::span::{span_join, span_join_all, Span, Spanned};

verus! {

#[derive(Debug, Clone, Copy, PartialEq, Eq, Hash, Structural)]
pub enum LiteralKind {
    String,
    RawString,
    Integer,
    Float,
}

#[derive(Debug, Clone, Copy, PartialEq, Eq, Hash, Structural)]
pub enum TriviaKind {
    Whitespace,
    CarriageReturn,
    LineBreak,
    LineComment,
    BlockComment,
}

/// The mathematical model of one raw token tree.
#[allow(inconsistent_fields)]
pub enum TokenModel {
    Group { delimiter: Delimiter, stream: Seq<TokenModel> },
    Literal { kind: LiteralKind, text: Seq<char>, span: Span },
    Punct { text: Seq<char>, span: Span },
    Ident { text: Seq<char>, span: Span },
    Trivia { kind: TriviaKind, text: Seq<char>, span: Span },
    Eof { span: Span },
}

/// A number, string, or raw-string literal.
#[derive(Debug, Clone, PartialEq, Eq)]
pub struct Literal {
    pub kind: LiteralKind,
    pub text: String,
    pub span: Span,
}

/// An identifier or keyword spelling.
#[derive(Debug, Clone, PartialEq, Eq)]
pub struct IdentToken {
    pub text: String,
    pub span: Span,
}

/// One maximal-munch punctuation token.
#[derive(Debug, Clone, PartialEq, Eq)]
pub struct Punct {
    pub text: String,
    pub span: Span,
}

/// Whitespace or a comment.
#[derive(Debug, Clone, PartialEq, Eq)]
pub struct Trivia {
    pub kind: TriviaKind,
    pub text: String,
    pub span: Span,
}

/// A delimited token-tree group.
#[derive(Debug, PartialEq, Eq)]
pub struct Group {
    pub delimiter: Delimiter,
    pub stream: TokenStream,
}

/// One raw token tree. `Eof` is an internal end marker that is never rendered.
#[derive(Debug, PartialEq, Eq)]
pub enum TokenTree {
    Group(Group),
    Literal(Literal),
    Punct(Punct),
    Ident(IdentToken),
    Trivia(Trivia),
    Eof(Span),
}

/// A linear sequence of token trees.
#[derive(Debug, PartialEq, Eq)]
pub struct TokenStream(pub Vec<TokenTree>);

/// One top-level token sequence together with its terminating delimiter.
///
/// An ordinary cell has [`DelimiterKind::Empty`]. A muted cell has
/// [`DelimiterKind::Semicolon`], and its semicolon is held by the delimiter
/// rather than repeated in `stream`.
#[derive(Debug, PartialEq, Eq)]
pub struct CellBlock {
    pub delimiter: Delimiter,
    pub stream: TokenStream,
}

/// The linear outer layer of a source file: its cells in order.
#[derive(Debug, PartialEq, Eq)]
pub struct CellStream {
    pub cells: Vec<CellBlock>,
    pub source_id: crate::span::SourceId,
}

// ---------------------------------------------------------------------------
// Models
// ---------------------------------------------------------------------------
pub open spec fn tree_model(t: TokenTree) -> TokenModel
    decreases t, 0int,
{
    match t {
        TokenTree::Group(g) => TokenModel::Group {
            delimiter: g.delimiter,
            stream: seq_model(g.stream.0@),
        },
        TokenTree::Literal(l) => TokenModel::Literal { kind: l.kind, text: l.text@, span: l.span },
        TokenTree::Punct(p) => TokenModel::Punct { text: p.text@, span: p.span },
        TokenTree::Ident(i) => TokenModel::Ident { text: i.text@, span: i.span },
        TokenTree::Trivia(t) => TokenModel::Trivia { kind: t.kind, text: t.text@, span: t.span },
        TokenTree::Eof(span) => TokenModel::Eof { span },
    }
}

pub open spec fn seq_model(s: Seq<TokenTree>) -> Seq<TokenModel>
    decreases s, 1int,
{
    if s.len() == 0 {
        seq![]
    } else {
        seq_model(s.subrange(0, s.len() - 1)).push(tree_model(s[s.len() - 1]))
    }
}

impl View for TokenTree {
    type V = TokenModel;

    open spec fn view(&self) -> TokenModel {
        tree_model(*self)
    }
}

impl View for TokenStream {
    type V = Seq<TokenModel>;

    open spec fn view(&self) -> Seq<TokenModel> {
        seq_model(self.0@)
    }
}

/// The model of one cell: its delimiter and the models of its interior tokens.
pub struct CellModel {
    pub delimiter: Delimiter,
    pub stream: Seq<TokenModel>,
}

pub open spec fn cell_model(c: CellBlock) -> CellModel {
    CellModel { delimiter: c.delimiter, stream: c.stream@ }
}

pub open spec fn cells_model(s: Seq<CellBlock>) -> Seq<CellModel> {
    s.map_values(|c: CellBlock| cell_model(c))
}

impl View for CellBlock {
    type V = CellModel;

    open spec fn view(&self) -> CellModel {
        cell_model(*self)
    }
}

impl View for CellStream {
    type V = Seq<CellModel>;

    open spec fn view(&self) -> Seq<CellModel> {
        cells_model(self.cells@)
    }
}

/// The source text a token tree renders to.
pub open spec fn model_text(m: TokenModel) -> Seq<char>
    decreases m, 0int,
{
    match m {
        TokenModel::Group { delimiter, stream } => opening_text(delimiter.kind) + models_text(stream)
            + closing_text(delimiter.kind),
        TokenModel::Literal { text, .. } => text,
        TokenModel::Punct { text, .. } => text,
        TokenModel::Ident { text, .. } => text,
        TokenModel::Trivia { text, .. } => text,
        TokenModel::Eof { .. } => seq![],
    }
}

/// The concatenated source text of a token sequence.
pub open spec fn models_text(s: Seq<TokenModel>) -> Seq<char>
    decreases s, 1int,
{
    if s.len() == 0 {
        seq![]
    } else {
        models_text(s.subrange(0, s.len() - 1)) + model_text(s[s.len() - 1])
    }
}

/// The source text of one cell: its interior followed by its closing delimiter.
pub open spec fn cell_text(c: CellModel) -> Seq<char> {
    opening_text(c.delimiter.kind) + models_text(c.stream) + closing_text(c.delimiter.kind)
}

pub open spec fn cells_text(s: Seq<CellModel>) -> Seq<char>
    decreases s.len(),
{
    if s.len() == 0 {
        seq![]
    } else {
        cells_text(s.drop_last()) + cell_text(s.last())
    }
}

/// The provenance span of a token tree: a group joins its delimiter and contents.
pub open spec fn model_span(m: TokenModel) -> Span
    decreases m, 0int,
{
    match m {
        TokenModel::Group { delimiter, stream } => span_join(delimiter.span, models_span(stream)),
        TokenModel::Literal { span, .. } => span,
        TokenModel::Punct { span, .. } => span,
        TokenModel::Ident { span, .. } => span,
        TokenModel::Trivia { span, .. } => span,
        TokenModel::Eof { span } => span,
    }
}

/// The spans of a token sequence, in order.
pub open spec fn models_spans(s: Seq<TokenModel>) -> Seq<Span>
    decreases s, 1int,
{
    if s.len() == 0 {
        seq![]
    } else {
        models_spans(s.subrange(0, s.len() - 1)).push(model_span(s[s.len() - 1]))
    }
}

/// The span of a token sequence: all its spans joined from left to right.
pub open spec fn models_span(s: Seq<TokenModel>) -> Span
    decreases s, 2int,
{
    span_join_all(models_spans(s))
}

pub open spec fn is_trivia(m: TokenModel) -> bool {
    m is Trivia
}

pub open spec fn is_line_break_trivia(m: TokenModel) -> bool {
    match m {
        TokenModel::Trivia { text, .. } => text.contains('\n'),
        _ => false,
    }
}

/// The spelling of a literal, punctuation, or identifier atom.
pub open spec fn model_spelling(m: TokenModel) -> Option<Seq<char>> {
    match m {
        TokenModel::Literal { text, .. } => Some(text),
        TokenModel::Punct { text, .. } => Some(text),
        TokenModel::Ident { text, .. } => Some(text),
        _ => None,
    }
}

/// Emission of syntax as raw token trees.
pub trait ToTokens {
    /// The token trees this value emits; a type that does not say emits none.
    open spec fn spec_tokens(&self) -> Seq<TokenModel> {
        Seq::empty()
    }

    /// Appends the token trees of this value to `output`.
    fn to_tokens(&self, output: &mut TokenStream)
        ensures
            final(output)@ == old(output)@ + self.spec_tokens(),
    ;

    /// The token trees of this value as a fresh stream.
    fn to_token_stream(&self) -> (stream: TokenStream)
        ensures
            stream@ == self.spec_tokens(),
    {
        let mut stream = TokenStream::new();
        self.to_tokens(&mut stream);
        proof {
            assert(Seq::<TokenModel>::empty() + self.spec_tokens() =~= self.spec_tokens());
        }
        stream
    }

    /// The Macaulay2 source text this value emits.
    fn to_code(&self) -> (text: String)
        ensures
            text@ == models_text(self.spec_tokens()),
    {
        self.to_token_stream().to_string()
    }
}

// ---------------------------------------------------------------------------
// Emission of raw values
// ---------------------------------------------------------------------------
/// The trees of a sequence other than end markers.
pub open spec fn without_eof(s: Seq<TokenModel>) -> Seq<TokenModel> {
    s.filter(|m: TokenModel| !(m is Eof))
}

impl ToTokens for Literal {
    open spec fn spec_tokens(&self) -> Seq<TokenModel> {
        seq![TokenTree::Literal(*self)@]
    }

    fn to_tokens(&self, output: &mut TokenStream) {
        let ghost before = output@;
        output.push_literal(self.duplicate());
        proof {
            assert(output@ =~= before + self.spec_tokens());
        }
    }
}

impl ToTokens for IdentToken {
    open spec fn spec_tokens(&self) -> Seq<TokenModel> {
        seq![TokenTree::Ident(*self)@]
    }

    fn to_tokens(&self, output: &mut TokenStream) {
        let ghost before = output@;
        output.push_ident(self.duplicate());
        proof {
            assert(output@ =~= before + self.spec_tokens());
        }
    }
}

impl ToTokens for Punct {
    open spec fn spec_tokens(&self) -> Seq<TokenModel> {
        seq![TokenTree::Punct(*self)@]
    }

    fn to_tokens(&self, output: &mut TokenStream) {
        let ghost before = output@;
        output.push_punct(self.duplicate());
        proof {
            assert(output@ =~= before + self.spec_tokens());
        }
    }
}

impl ToTokens for Trivia {
    open spec fn spec_tokens(&self) -> Seq<TokenModel> {
        seq![TokenTree::Trivia(*self)@]
    }

    fn to_tokens(&self, output: &mut TokenStream) {
        let ghost before = output@;
        output.push_trivia(self.duplicate());
        proof {
            assert(output@ =~= before + self.spec_tokens());
        }
    }
}

impl ToTokens for Group {
    open spec fn spec_tokens(&self) -> Seq<TokenModel> {
        seq![TokenTree::Group(*self)@]
    }

    fn to_tokens(&self, output: &mut TokenStream) {
        let ghost before = output@;
        let copy = Group { delimiter: self.delimiter, stream: self.stream.duplicate() };
        output.push_group(copy);
        proof {
            assert(output@ =~= before + self.spec_tokens());
        }
    }
}

impl ToTokens for TokenTree {
    /// End markers emit nothing.
    open spec fn spec_tokens(&self) -> Seq<TokenModel> {
        if *self is Eof {
            seq![]
        } else {
            seq![self@]
        }
    }

    fn to_tokens(&self, output: &mut TokenStream) {
        let ghost before = output@;
        match self {
            TokenTree::Eof(_) => {},
            _ => output.push(self.duplicate()),
        }
        proof {
            assert(output@ =~= before + self.spec_tokens());
        }
    }
}

impl ToTokens for TokenStream {
    open spec fn spec_tokens(&self) -> Seq<TokenModel> {
        self@
    }

    fn to_tokens(&self, output: &mut TokenStream) {
        output.extend(self.duplicate());
    }
}

impl ToTokens for CellBlock {
    open spec fn spec_tokens(&self) -> Seq<TokenModel> {
        crate::delim::surround_tokens(self.delimiter, self.stream@)
    }

    fn to_tokens(&self, output: &mut TokenStream) {
        self.delimiter.surround(output, self.stream.duplicate());
    }
}

/// The interior tokens a cell contributes when cells are lowered into one
/// stream: a leading line break after a muted cell is dropped, because the
/// muted cell's semicolon already separates the two.
pub open spec fn lowered_interior(cells: Seq<CellBlock>, i: int) -> Seq<TokenModel> {
    let stream = cells[i].stream@;
    if i > 0 && cells[i - 1].delimiter.kind == DelimiterKind::Semicolon && stream.len() > 0
        && is_line_break_trivia(stream[0]) {
        stream.subrange(1, stream.len() as int)
    } else {
        stream
    }
}

/// The tokens of the first `n` cells lowered into one stream.
pub open spec fn lowered_cells(cells: Seq<CellBlock>, n: int) -> Seq<TokenModel>
    decreases n,
{
    if n <= 0 {
        seq![]
    } else {
        lowered_cells(cells, n - 1) + crate::delim::surround_tokens(
            cells[n - 1].delimiter,
            lowered_interior(cells, n - 1),
        )
    }
}

impl ToTokens for CellStream {
    open spec fn spec_tokens(&self) -> Seq<TokenModel> {
        lowered_cells(self.cells@, self.cells@.len() as int)
    }

    fn to_tokens(&self, output: &mut TokenStream) {
        let mut i: usize = 0;
        while i < self.cells.len()
            invariant
                i <= self.cells@.len(),
                output@ == old(output)@ + lowered_cells(self.cells@, i as int),
            decreases self.cells@.len() - i,
        {
            let mut stream = self.cells[i].stream.duplicate();
            let ghost copy = stream.0@;
            proof {
                lemma_seq_model_len(copy);
                if copy.len() > 0 {
                    lemma_seq_model_index(copy, 0);
                }
            }
            if i != 0 && self.cells[i - 1].delimiter.kind == DelimiterKind::Semicolon {
                stream.remove_leading_line_break();
                proof {
                    if copy.len() > 0 && is_line_break_trivia(tree_model(copy[0])) {
                        lemma_seq_model_prefix_free(copy, stream.0@);
                    }
                }
            }
            proof {
                assert(stream@ =~= lowered_interior(self.cells@, i as int));
            }
            let ghost before = output@;
            self.cells[i].delimiter.surround(output, stream);
            proof {
                assert(output@ =~= old(output)@ + lowered_cells(self.cells@, i + 1));
            }
            i = i + 1;
        }
    }
}

/// Emission of syntax as the linear sequence of cells evaluated at global scope.
pub trait ToCells {
    /// Appends this value's global cells to `output`.
    fn to_cells(&self, output: &mut CellStream)
        ensures
            final(output).source_id == old(output).source_id,
    ;

    /// Emits this value into a fresh cell stream with the requested identity.
    fn to_cell_stream(&self, source_id: crate::span::SourceId) -> (cells: CellStream)
        ensures
            cells.source_id == source_id,
    {
        let mut output = CellStream::new(Vec::new(), source_id);
        self.to_cells(&mut output);
        output
    }
}

impl ToCells for CellBlock {
    fn to_cells(&self, output: &mut CellStream) {
        output.push(self.duplicate());
    }
}

impl ToCells for CellStream {
    /// Appends a copy of every cell, unseparated.
    fn to_cells(&self, output: &mut CellStream)
        ensures
            final(output)@ == old(output)@ + self@,
    {
        let mut i: usize = 0;
        while i < self.cells.len()
            invariant
                i <= self.cells@.len(),
                output.source_id == old(output).source_id,
                output@ == old(output)@ + cells_model(self.cells@.subrange(0, i as int)),
            decreases self.cells@.len() - i,
        {
            let ghost before = output.cells@;
            output.push_unseparated(self.cells[i].duplicate());
            proof {
                assert(cells_model(output.cells@) =~= cells_model(before).push(cell_model(self.cells@[i as int])));
                assert(cells_model(self.cells@.subrange(0, i + 1)) =~= cells_model(self.cells@.subrange(0, i as int)).push(cell_model(self.cells@[i as int])));
                assert(output@ =~= old(output)@ + cells_model(self.cells@.subrange(0, i + 1)));
            }
            i = i + 1;
        }
        proof {
            assert(self.cells@.subrange(0, self.cells@.len() as int) =~= self.cells@);
        }
    }
}

impl ToCells for TokenStream {
    /// Promotes the tokens to cells, keeping their lexemes.
    fn to_cells(&self, output: &mut CellStream)
        ensures
            cells_lexemes(final(output)@) == cells_lexemes(old(output)@) + models_lexemes(self@),
    {
        append_promoted_cells(self, output);
    }
}

impl ToCells for Group {
    /// Drops the outer delimiter and promotes the group's contents to cells,
    /// keeping their lexemes.
    fn to_cells(&self, output: &mut CellStream)
        ensures
            cells_lexemes(final(output)@) == cells_lexemes(old(output)@) + models_lexemes(self.stream@),
    {
        append_promoted_cells(&self.stream, output);
    }
}

fn push_promoted_cell(output: &mut CellStream, first: &mut bool, cell: CellBlock)
    ensures
        final(output).source_id == old(output).source_id,
        !*final(first),
        cells_lexemes(final(output)@) == cells_lexemes(old(output)@) + cell_lexemes(cell@),
{
    let ghost before = output.cells@;
    if *first {
        *first = false;
        output.push(cell);
        proof {
            let pushed = output.cells@.last();
            let newline = TokenModel::Trivia { kind: TriviaKind::LineBreak, text: seq!['\n'], span: Span::Detached };
            if pushed.stream@ != cell.stream@ {
                lemma_lexemes_append(seq![newline], cell.stream@);
                lemma_lexemes_single(newline);
            }
            assert(output.cells@ =~= before.push(pushed));
            assert(cell_lexemes(pushed@) == cell_lexemes(cell@));
        }
    } else {
        output.push_unseparated(cell);
    }
    proof {
        let m = cells_model(output.cells@);
        assert(m.drop_last() =~= cells_model(before));
    }
}

/// Promotes local tokens to global cells: a top-level semicolon ends a muted
/// cell, and a line break that may end a cell ends an ordinary one. The
/// appended cells carry exactly the lexemes of the tokens, each promoted
/// semicolon becoming the closing delimiter of its cell.
pub fn append_promoted_cells(tokens: &TokenStream, output: &mut CellStream)
    ensures
        final(output).source_id == old(output).source_id,
        cells_lexemes(final(output)@) == cells_lexemes(old(output)@) + models_lexemes(tokens@),
{
    let mut current = TokenStream::new();
    let mut first = true;
    let mut i: usize = 0;
    proof {
        lemma_seq_model_len(tokens.0@);
        lemma_segment_empty(tokens@, 0);
    }
    while i < tokens.0.len()
        invariant
            i <= tokens.0@.len(),
            tokens.0@.len() == tokens@.len(),
            output.source_id == old(output).source_id,
            cells_lexemes(output@) + models_lexemes(current@) == cells_lexemes(old(output)@) + segment(
                tokens@,
                0,
                i as int,
            ),
        decreases tokens.0@.len() - i,
    {
        let token = &tokens.0[i];
        proof {
            lemma_seq_model_index(tokens.0@, i as int);
            lemma_segment_split(tokens@, 0, i as int, i + 1);
            assert(tokens@.subrange(i as int, i + 1) =~= seq![token@]);
            lemma_lexemes_single(token@);
        }
        let is_eof = match token {
            TokenTree::Eof(_) => true,
            _ => false,
        };
        let is_semicolon = match token {
            TokenTree::Punct(punct) => str_eq(punct.text.as_str(), ";"),
            _ => false,
        };
        let ghost previous = current@;
        let ghost out_before = output@;
        let ghost goal = cells_lexemes(old(output)@) + segment(tokens@, 0, i + 1);
        proof {
            assert(goal =~= cells_lexemes(out_before) + models_lexemes(previous) + model_lexemes(token@));
        }
        if is_eof {
            proof {
                assert(model_lexemes(token@) =~= Seq::<Seq<char>>::empty());
                assert(cells_lexemes(output@) + models_lexemes(current@) =~= goal);
            }
        } else if is_semicolon {
            let span = current.span().join(token.span());
            let cell = CellBlock::new(Delimiter::new(DelimiterKind::Semicolon, span), current);
            proof {
                reveal_strlit(";");
                match token {
                    TokenTree::Punct(punct) => {
                        assert(punct.text@ =~= seq![';']);
                        assert(model_lexemes(token@) =~= seq![seq![';']]);
                    },
                    _ => {},
                }
                assert(cell@.stream == previous);
                assert(cell_lexemes(cell@) =~= models_lexemes(previous) + model_lexemes(token@));
            }
            push_promoted_cell(output, &mut first, cell);
            current = TokenStream::new();
            proof {
                assert(models_lexemes(current@) =~= Seq::<Seq<char>>::empty());
                assert(cells_lexemes(output@) + models_lexemes(current@) =~= goal);
            }
        } else {
            current.push(token.duplicate());
            proof {
                lemma_lexemes_push(previous, token@);
            }
            let line_break = match token {
                TokenTree::Trivia(trivia) => trivia.kind == TriviaKind::LineBreak,
                _ => false,
            };
            if line_break && crate::lexer::newline_ends_cell(&current) {
                let span = current.span();
                let ghost ended = current@;
                let cell = CellBlock::new(Delimiter::new(DelimiterKind::Empty, span), current);
                proof {
                    assert(cell_lexemes(cell@) =~= models_lexemes(ended));
                }
                push_promoted_cell(output, &mut first, cell);
                current = TokenStream::new();
                proof {
                    assert(models_lexemes(current@) =~= Seq::<Seq<char>>::empty());
                    assert(cells_lexemes(output@) + models_lexemes(current@) =~= goal);
                }
            } else {
                proof {
                    assert(cells_lexemes(output@) + models_lexemes(current@) =~= goal);
                }
            }
        }
        proof {
            assert(cells_lexemes(output@) + models_lexemes(current@) =~= goal);
        }
        i = i + 1;
    }
    if !current.is_empty() {
        let span = current.span();
        let ghost ended = current@;
        let cell = CellBlock::new(Delimiter::new(DelimiterKind::Empty, span), current);
        proof {
            assert(cell_lexemes(cell@) =~= models_lexemes(ended));
        }
        push_promoted_cell(
            output,
            &mut first,
            cell,
        );
    } else {
        proof {
            lemma_seq_model_len(current.0@);
            assert(models_lexemes(current@) =~= Seq::<Seq<char>>::empty());
        }
    }
    proof {
        lemma_segment_whole(tokens@);
    }
}

// ---------------------------------------------------------------------------
// Lemmas about models
// ---------------------------------------------------------------------------
proof fn lemma_seq_model_prefix_free(full: Seq<TokenTree>, rest: Seq<TokenTree>)
    requires
        full.len() > 0,
        rest == full.subrange(1, full.len() as int),
    ensures
        seq_model(rest) == seq_model(full).subrange(1, full.len() as int),
{
    lemma_seq_model_len(full);
    lemma_seq_model_len(rest);
    assert forall|j: int| 0 <= j < rest.len() implies seq_model(rest)[j] == seq_model(full).subrange(
        1,
        full.len() as int,
    )[j] by {
        lemma_seq_model_index(rest, j);
        lemma_seq_model_index(full, j + 1);
    }
    assert(seq_model(rest) =~= seq_model(full).subrange(1, full.len() as int));
}

pub proof fn lemma_seq_model_len(s: Seq<TokenTree>)
    ensures
        seq_model(s).len() == s.len(),
    decreases s.len(),
{
    if s.len() > 0 {
        lemma_seq_model_len(s.subrange(0, s.len() - 1));
    }
}

pub proof fn lemma_seq_model_index(s: Seq<TokenTree>, i: int)
    requires
        0 <= i < s.len(),
    ensures
        seq_model(s).len() == s.len(),
        seq_model(s)[i] == tree_model(s[i]),
    decreases s.len(),
{
    lemma_seq_model_len(s);
    if i < s.len() - 1 {
        lemma_seq_model_index(s.subrange(0, s.len() - 1), i);
    }
}

pub proof fn lemma_seq_model_push(s: Seq<TokenTree>, t: TokenTree)
    ensures
        seq_model(s.push(t)) == seq_model(s).push(tree_model(t)),
{
    assert(s.push(t).subrange(0, s.len() as int) =~= s);
}

pub proof fn lemma_seq_model_append(a: Seq<TokenTree>, b: Seq<TokenTree>)
    ensures
        seq_model(a + b) == seq_model(a) + seq_model(b),
    decreases b.len(),
{
    if b.len() == 0 {
        assert(a + b =~= a);
        assert(seq_model(b) =~= seq![]);
        assert(seq_model(a) + seq_model(b) =~= seq_model(a));
    } else {
        let b0 = b.subrange(0, b.len() - 1);
        lemma_seq_model_append(a, b0);
        assert((a + b).subrange(0, (a + b).len() - 1) =~= a + b0);
        assert((a + b)[(a + b).len() - 1] == b[b.len() - 1]);
        assert(seq_model(a) + seq_model(b) =~= (seq_model(a) + seq_model(b0)).push(
            tree_model(b[b.len() - 1]),
        ));
    }
}

pub proof fn lemma_seq_model_prefix(s: Seq<TokenTree>, n: int)
    requires
        0 <= n <= s.len(),
    ensures
        seq_model(s.subrange(0, n)) == seq_model(s).subrange(0, n),
    decreases s.len(),
{
    lemma_seq_model_len(s);
    lemma_seq_model_len(s.subrange(0, n));
    if n < s.len() {
        let s0 = s.subrange(0, s.len() - 1);
        lemma_seq_model_prefix(s0, n);
        assert(s0.subrange(0, n) =~= s.subrange(0, n));
        assert(seq_model(s).subrange(0, n) =~= seq_model(s0).subrange(0, n));
    } else {
        assert(s.subrange(0, n) =~= s);
    }
}

pub proof fn lemma_models_text_push(s: Seq<TokenModel>, m: TokenModel)
    ensures
        models_text(s.push(m)) == models_text(s) + model_text(m),
{
    assert(s.push(m).subrange(0, s.len() as int) =~= s);
}

pub proof fn lemma_models_text_append(a: Seq<TokenModel>, b: Seq<TokenModel>)
    ensures
        models_text(a + b) == models_text(a) + models_text(b),
    decreases b.len(),
{
    if b.len() == 0 {
        assert(a + b =~= a);
        assert(models_text(a) + models_text(b) =~= models_text(a));
    } else {
        let b0 = b.subrange(0, b.len() - 1);
        lemma_models_text_append(a, b0);
        assert((a + b).subrange(0, (a + b).len() - 1) =~= a + b0);
        assert((a + b)[(a + b).len() - 1] == b[b.len() - 1]);
        assert(models_text(a) + models_text(b) =~= (models_text(a) + models_text(b0)) + model_text(
            b[b.len() - 1],
        ));
    }
}

pub proof fn lemma_models_text_single(m: TokenModel)
    ensures
        models_text(seq![m]) == model_text(m),
{
    assert(seq![m].subrange(0, 0) =~= Seq::<TokenModel>::empty());
    assert(models_text(Seq::<TokenModel>::empty()) + model_text(m) =~= model_text(m));
}

pub proof fn lemma_models_spans_len(s: Seq<TokenModel>)
    ensures
        models_spans(s).len() == s.len(),
    decreases s.len(),
{
    if s.len() > 0 {
        lemma_models_spans_len(s.subrange(0, s.len() - 1));
    }
}

pub proof fn lemma_cells_text_push(s: Seq<CellModel>, c: CellModel)
    ensures
        cells_text(s.push(c)) == cells_text(s) + cell_text(c),
{
    assert(s.push(c).drop_last() =~= s);
}

// ---------------------------------------------------------------------------
// Text helpers
// ---------------------------------------------------------------------------
/// Appends `text` to `out`.
pub fn append_str(out: &mut String, text: &str)
    ensures
        final(out)@ == old(out)@ + text@,
{
    out.append(text);
}

/// Whether `text` contains a newline character.
pub fn str_contains_newline(text: &str) -> (r: bool)
    ensures
        r == text@.contains('\n'),
{
    let len = text.unicode_len();
    let mut i: usize = 0;
    while i < len
        invariant
            len == text@.len(),
            i <= len,
            forall|j: int| 0 <= j < i ==> text@[j] != '\n',
        decreases len - i,
    {
        if text.get_char(i) == '\n' {
            return true;
        }
        i = i + 1;
    }
    false
}

/// Whether two strings have the same characters.
pub fn str_eq(a: &str, b: &str) -> (r: bool)
    ensures
        r == (a@ == b@),
{
    let len = a.unicode_len();
    if len != b.unicode_len() {
        return false;
    }
    let mut i: usize = 0;
    while i < len
        invariant
            len == a@.len(),
            len == b@.len(),
            i <= len,
            forall|j: int| 0 <= j < i ==> a@[j] == b@[j],
        decreases len - i,
    {
        if a.get_char(i) != b.get_char(i) {
            return false;
        }
        i = i + 1;
    }
    proof {
        assert(a@ =~= b@);
    }
    true
}

// ---------------------------------------------------------------------------
// Leaf atoms
// ---------------------------------------------------------------------------
impl Literal {
    pub fn new(kind: LiteralKind, text: String, span: Span) -> (literal: Self)
        ensures
            literal.kind == kind,
            literal.text@ == text@,
            literal.span == span,
    {
        Literal { kind, text, span }
    }

    pub fn text(&self) -> (text: &str)
        ensures
            text@ == self.text@,
    {
        self.text.as_str()
    }

    /// The source text of the literal.
    pub fn to_string(&self) -> (text: String)
        ensures
            text@ == self.text@,
    {
        self.text.clone()
    }

    pub fn duplicate(&self) -> (copy: Self)
        ensures
            copy == *self,
    {
        Literal { kind: self.kind, text: self.text.clone(), span: self.span }
    }
}

impl Spanned for Literal {
    open spec fn spec_span(&self) -> Span {
        self.span
    }

    fn span(&self) -> (span: Span) {
        self.span
    }
}

impl IdentToken {
    pub fn new(text: &str, span: Span) -> (ident: Self)
        ensures
            ident.text@ == text@,
            ident.span == span,
    {
        IdentToken { text: text.to_owned(), span }
    }

    pub fn text(&self) -> (text: &str)
        ensures
            text@ == self.text@,
    {
        self.text.as_str()
    }

    pub fn to_string(&self) -> (text: String)
        ensures
            text@ == self.text@,
    {
        self.text.clone()
    }

    pub fn duplicate(&self) -> (copy: Self)
        ensures
            copy == *self,
    {
        IdentToken { text: self.text.clone(), span: self.span }
    }
}

impl Spanned for IdentToken {
    open spec fn spec_span(&self) -> Span {
        self.span
    }

    fn span(&self) -> (span: Span) {
        self.span
    }
}

impl Punct {
    pub fn new(text: &str, span: Span) -> (punct: Self)
        ensures
            punct.text@ == text@,
            punct.span == span,
    {
        Punct { text: text.to_owned(), span }
    }

    pub fn text(&self) -> (text: &str)
        ensures
            text@ == self.text@,
    {
        self.text.as_str()
    }

    pub fn to_string(&self) -> (text: String)
        ensures
            text@ == self.text@,
    {
        self.text.clone()
    }

    pub fn duplicate(&self) -> (copy: Self)
        ensures
            copy == *self,
    {
        Punct { text: self.text.clone(), span: self.span }
    }
}

impl Spanned for Punct {
    open spec fn spec_span(&self) -> Span {
        self.span
    }

    fn span(&self) -> (span: Span) {
        self.span
    }
}

impl Trivia {
    pub fn new(kind: TriviaKind, text: &str, span: Span) -> (trivia: Self)
        ensures
            trivia.kind == kind,
            trivia.text@ == text@,
            trivia.span == span,
    {
        Trivia { kind, text: text.to_owned(), span }
    }

    pub fn kind(&self) -> (kind: TriviaKind)
        ensures
            kind == self.kind,
    {
        self.kind
    }

    pub fn text(&self) -> (text: &str)
        ensures
            text@ == self.text@,
    {
        self.text.as_str()
    }

    /// Whether the trivia spans a physical line break.
    pub fn contains_line_break(&self) -> (r: bool)
        ensures
            r == self.text@.contains('\n'),
    {
        str_contains_newline(self.text.as_str())
    }

    pub fn to_string(&self) -> (text: String)
        ensures
            text@ == self.text@,
    {
        self.text.clone()
    }

    pub fn duplicate(&self) -> (copy: Self)
        ensures
            copy == *self,
    {
        Trivia { kind: self.kind, text: self.text.clone(), span: self.span }
    }
}

impl Spanned for Trivia {
    open spec fn spec_span(&self) -> Span {
        self.span
    }

    fn span(&self) -> (span: Span) {
        self.span
    }
}

// ---------------------------------------------------------------------------
// Groups and trees
// ---------------------------------------------------------------------------
impl Group {
    pub fn new(delimiter: Delimiter, stream: TokenStream) -> (group: Self)
        ensures
            group.delimiter == delimiter,
            group.stream == stream,
    {
        Group { delimiter, stream }
    }

    pub fn delimiter(&self) -> (delimiter: &Delimiter)
        ensures
            *delimiter == self.delimiter,
    {
        &self.delimiter
    }

    pub fn delim_kind(&self) -> (kind: DelimiterKind)
        ensures
            kind == self.delimiter.kind,
    {
        self.delimiter.kind
    }

    pub fn stream(&self) -> (stream: &TokenStream)
        ensures
            *stream == self.stream,
    {
        &self.stream
    }

    pub fn into_stream(self) -> (stream: TokenStream)
        ensures
            stream == self.stream,
    {
        self.stream
    }

    /// The source text of the group: its delimiters around its contents.
    pub fn to_string(&self) -> (text: String)
        ensures
            text@ == opening_text(self.delimiter.kind) + models_text(self.stream@) + closing_text(
                self.delimiter.kind,
            ),
    {
        let mut out = String::new();
        append_str(&mut out, self.delimiter.kind.opening());
        self.stream.write_text(&mut out);
        append_str(&mut out, self.delimiter.kind.closing());
        out
    }

    /// The span of the delimiter joined with the span of the contents.
    pub fn span(&self) -> (span: Span)
        ensures
            span == span_join(self.delimiter.span, models_span(self.stream@)),
    {
        self.delimiter.span.join(self.stream.span())
    }
}

impl TokenTree {
    /// The spelling of a literal, punctuation, or identifier atom.
    pub fn spelling(&self) -> (spelling: Option<&str>)
        ensures
            match spelling {
                Some(s) => model_spelling(self@) == Some(s@),
                None => model_spelling(self@) is None,
            },
    {
        match self {
            TokenTree::Literal(token) => Some(token.text()),
            TokenTree::Punct(token) => Some(token.text()),
            TokenTree::Ident(token) => Some(token.text()),
            _ => None,
        }
    }

    /// A structurally equal copy of this tree.
    pub fn duplicate(&self) -> (copy: Self)
        ensures
            copy@ == self@,
        decreases self,
    {
        match self {
            TokenTree::Group(g) => {
                let stream = g.stream.duplicate();
                TokenTree::Group(Group { delimiter: g.delimiter, stream })
            },
            TokenTree::Literal(t) => TokenTree::Literal(t.duplicate()),
            TokenTree::Punct(t) => TokenTree::Punct(t.duplicate()),
            TokenTree::Ident(t) => TokenTree::Ident(t.duplicate()),
            TokenTree::Trivia(t) => TokenTree::Trivia(t.duplicate()),
            TokenTree::Eof(span) => TokenTree::Eof(*span),
        }
    }

    /// Appends the source text of this tree to `out`.
    pub fn write_text(&self, out: &mut String)
        ensures
            final(out)@ == old(out)@ + model_text(self@),
        decreases self,
    {
        match self {
            TokenTree::Group(g) => {
                append_str(out, g.delimiter.kind.opening());
                g.stream.write_text(out);
                append_str(out, g.delimiter.kind.closing());
            },
            TokenTree::Literal(t) => append_str(out, t.text.as_str()),
            TokenTree::Punct(t) => append_str(out, t.text.as_str()),
            TokenTree::Ident(t) => append_str(out, t.text.as_str()),
            TokenTree::Trivia(t) => append_str(out, t.text.as_str()),
            TokenTree::Eof(_) => {},
        }
    }

    /// The source text of this tree.
    pub fn to_string(&self) -> (text: String)
        ensures
            text@ == model_text(self@),
    {
        let mut out = String::new();
        self.write_text(&mut out);
        out
    }

    /// The provenance span of this tree.
    pub fn span(&self) -> (span: Span)
        ensures
            span == model_span(self@),
        decreases self,
    {
        match self {
            TokenTree::Group(g) => g.delimiter.span.join(g.stream.span()),
            TokenTree::Literal(t) => t.span,
            TokenTree::Punct(t) => t.span,
            TokenTree::Ident(t) => t.span,
            TokenTree::Trivia(t) => t.span,
            TokenTree::Eof(span) => *span,
        }
    }

    pub fn is_trivia(&self) -> (r: bool)
        ensures
            r == is_trivia(self@),
    {
        match self {
            TokenTree::Trivia(_) => true,
            _ => false,
        }
    }

    /// Whether this tree is trivia spanning a physical line break.
    pub fn is_line_break(&self) -> (r: bool)
        ensures
            r == is_line_break_trivia(self@),
    {
        match self {
            TokenTree::Trivia(t) => t.contains_line_break(),
            _ => false,
        }
    }
}

impl Spanned for TokenTree {
    open spec fn spec_span(&self) -> Span {
        model_span(self@)
    }

    fn span(&self) -> (span: Span) {
        TokenTree::span(self)
    }
}

// ---------------------------------------------------------------------------
// Token streams
// ---------------------------------------------------------------------------
impl TokenStream {
    pub fn new() -> (stream: Self)
        ensures
            stream@ == Seq::<TokenModel>::empty(),
            stream.0@.len() == 0,
    {
        TokenStream(Vec::new())
    }

    /// Borrows the token trees in order.
    pub fn iter(&self) -> (iter: std::slice::Iter<'_, TokenTree>) {
        self.0.iter()
    }

    /// Borrows the token trees as a slice.
    pub fn trees(&self) -> (trees: &[TokenTree])
        ensures
            trees@ == self.0@,
    {
        self.0.as_slice()
    }

    /// Consumes the stream and returns its token trees.
    pub fn into_trees(self) -> (trees: Vec<TokenTree>)
        ensures
            trees@ == self.0@,
    {
        self.0
    }

    pub fn is_empty(&self) -> (r: bool)
        ensures
            r == (self@.len() == 0),
            r == (self.0@.len() == 0),
    {
        proof {
            lemma_seq_model_len(self.0@);
        }
        self.0.len() == 0
    }

    pub fn len(&self) -> (len: usize)
        ensures
            len == self@.len(),
            len == self.0@.len(),
    {
        proof {
            lemma_seq_model_len(self.0@);
        }
        self.0.len()
    }

    pub fn get(&self, position: usize) -> (tree: Option<&TokenTree>)
        ensures
            match tree {
                Some(t) => position < self.0@.len() && *t == self.0@[position as int],
                None => position >= self.0@.len(),
            },
    {
        if position < self.0.len() {
            Some(&self.0[position])
        } else {
            None
        }
    }

    pub fn last(&self) -> (tree: Option<&TokenTree>)
        ensures
            match tree {
                Some(t) => self.0@.len() > 0 && *t == self.0@.last(),
                None => self.0@.len() == 0,
            },
    {
        if self.0.len() == 0 {
            None
        } else {
            Some(&self.0[self.0.len() - 1])
        }
    }

    pub fn first(&self) -> (tree: Option<&TokenTree>)
        ensures
            match tree {
                Some(t) => self.0@.len() > 0 && *t == self.0@[0],
                None => self.0@.len() == 0,
            },
    {
        if self.0.len() == 0 {
            None
        } else {
            Some(&self.0[0])
        }
    }

    pub fn push_eof(&mut self, span: Span)
        ensures
            final(self).0@ == old(self).0@.push(TokenTree::Eof(span)),
            final(self)@ == old(self)@.push(TokenModel::Eof { span }),
    {
        proof {
            lemma_seq_model_push(self.0@, TokenTree::Eof(span));
        }
        self.0.push(TokenTree::Eof(span));
    }

    /// Whether the first tree is trivia.
    pub fn starts_with_whitespace(&self) -> (r: bool)
        ensures
            r == (self.0@.len() > 0 && self.0@[0] is Trivia),
    {
        match self.first() {
            Some(TokenTree::Trivia(_)) => true,
            _ => false,
        }
    }

    /// Whether the last tree is trivia.
    pub fn ends_with_whitespace(&self) -> (r: bool)
        ensures
            r == (self.0@.len() > 0 && self.0@.last() is Trivia),
    {
        match self.last() {
            Some(TokenTree::Trivia(_)) => true,
            _ => false,
        }
    }

    /// Whether the last tree is trivia containing a line break.
    pub fn ends_with_line_break(&self) -> (r: bool)
        ensures
            r == (self.0@.len() > 0 && is_line_break_trivia(tree_model(self.0@.last()))),
    {
        match self.last() {
            Some(tree) => tree.is_line_break(),
            None => false,
        }
    }

    /// Whether the first tree is trivia containing a line break.
    pub fn starts_with_line_break(&self) -> (r: bool)
        ensures
            r == (self.0@.len() > 0 && is_line_break_trivia(tree_model(self.0@[0]))),
    {
        match self.first() {
            Some(tree) => tree.is_line_break(),
            None => false,
        }
    }

    /// Removes a leading line-break trivia tree, if there is one.
    pub fn remove_leading_line_break(&mut self)
        ensures
            if old(self).0@.len() > 0 && is_line_break_trivia(tree_model(old(self).0@[0])) {
                final(self).0@ == old(self).0@.subrange(1, old(self).0@.len() as int)
            } else {
                final(self).0@ == old(self).0@
            },
    {
        if self.starts_with_line_break() {
            self.0.remove(0);
        }
    }

    pub fn push(&mut self, tree: TokenTree)
        ensures
            final(self).0@ == old(self).0@.push(tree),
            final(self)@ == old(self)@.push(tree@),
    {
        proof {
            lemma_seq_model_push(self.0@, tree);
        }
        self.0.push(tree);
    }

    pub fn push_ident(&mut self, ident: IdentToken)
        ensures
            final(self).0@ == old(self).0@.push(TokenTree::Ident(ident)),
            final(self)@ == old(self)@.push(TokenTree::Ident(ident)@),
    {
        self.push(TokenTree::Ident(ident));
    }

    pub fn push_literal(&mut self, literal: Literal)
        ensures
            final(self).0@ == old(self).0@.push(TokenTree::Literal(literal)),
            final(self)@ == old(self)@.push(TokenTree::Literal(literal)@),
    {
        self.push(TokenTree::Literal(literal));
    }

    pub fn push_punct(&mut self, punct: Punct)
        ensures
            final(self).0@ == old(self).0@.push(TokenTree::Punct(punct)),
            final(self)@ == old(self)@.push(TokenTree::Punct(punct)@),
    {
        self.push(TokenTree::Punct(punct));
    }

    pub fn push_trivia(&mut self, trivia: Trivia)
        ensures
            final(self).0@ == old(self).0@.push(TokenTree::Trivia(trivia)),
            final(self)@ == old(self)@.push(TokenTree::Trivia(trivia)@),
    {
        self.push(TokenTree::Trivia(trivia));
    }

    pub fn push_group(&mut self, group: Group)
        ensures
            final(self).0@ == old(self).0@.push(TokenTree::Group(group)),
            final(self)@ == old(self)@.push(TokenTree::Group(group)@),
    {
        self.push(TokenTree::Group(group));
    }

    /// Removes and returns the final token tree, if any.
    pub fn pop(&mut self) -> (tree: Option<TokenTree>)
        ensures
            old(self).0@.len() > 0 ==> tree == Some(old(self).0@.last()) && final(self).0@
                == old(self).0@.drop_last(),
            old(self).0@.len() == 0 ==> tree is None && final(self).0@ == old(self).0@,
    {
        self.0.pop()
    }

    /// Appends every tree of `other` after the trees of this stream.
    pub fn extend(&mut self, other: TokenStream)
        ensures
            final(self).0@ == old(self).0@ + other.0@,
            final(self)@ == old(self)@ + other@,
    {
        proof {
            lemma_seq_model_append(self.0@, other.0@);
        }
        let mut other = other;
        self.0.append(&mut other.0);
    }

    /// Appends an emitted fragment, separating adjacent word-like atoms by one detached space.
    pub fn append_fragment(&mut self, fragment: TokenStream)
        ensures
            if (old(self).0@.len() > 0 && is_wordlike(old(self).0@.last())) && (fragment.0@.len()
                > 0 && is_wordlike(fragment.0@[0])) {
                final(self)@ == old(self)@.push(
                    TokenModel::Trivia {
                        kind: TriviaKind::Whitespace,
                        text: seq![' '],
                        span: Span::Detached,
                    },
                ) + fragment@
            } else {
                final(self)@ == old(self)@ + fragment@
            },
    {
        let separate = match (self.last(), fragment.first()) {
            (Some(last), Some(first)) => wordlike(last) && wordlike(first),
            _ => false,
        };
        if separate {
            let space = Trivia::new(TriviaKind::Whitespace, " ", Span::detached());
            proof {
                reveal_strlit(" ");
                assert(space.text@ =~= seq![' ']);
            }
            self.push_trivia(space);
        }
        self.extend(fragment);
    }

    /// A structurally equal copy of this stream.
    pub fn duplicate(&self) -> (copy: Self)
        ensures
            copy@ == self@,
            copy.0@.len() == self.0@.len(),
        decreases self,
    {
        let mut trees: Vec<TokenTree> = Vec::new();
        let mut i: usize = 0;
        while i < self.0.len()
            invariant
                i <= self.0@.len(),
                trees@.len() == i,
                seq_model(trees@) == seq_model(self.0@.subrange(0, i as int)),
            decreases self.0@.len() - i,
        {
            proof {
                assert(decreases_to!(self => self.0@[i as int]));
            }
            let copy = self.0[i].duplicate();
            let ghost before = trees@;
            trees.push(copy);
            proof {
                assert(trees@.subrange(0, trees@.len() - 1) =~= before);
                assert(self.0@.subrange(0, i + 1).subrange(0, i as int) =~= self.0@.subrange(
                    0,
                    i as int,
                ));
            }
            i = i + 1;
        }
        proof {
            assert(self.0@.subrange(0, self.0@.len() as int) =~= self.0@);
        }
        TokenStream(trees)
    }

    /// Appends the source text of every tree to `out`.
    pub fn write_text(&self, out: &mut String)
        ensures
            final(out)@ == old(out)@ + models_text(self@),
        decreases self,
    {
        let mut i: usize = 0;
        proof {
            lemma_seq_model_len(self.0@);
            assert(seq_model(self.0@).subrange(0, 0) =~= Seq::<TokenModel>::empty());
            assert(old(out)@ + models_text(Seq::<TokenModel>::empty()) =~= old(out)@);
        }
        while i < self.0.len()
            invariant
                i <= self.0@.len(),
                seq_model(self.0@).len() == self.0@.len(),
                out@ == old(out)@ + models_text(self@.subrange(0, i as int)),
            decreases self.0@.len() - i,
        {
            proof {
                assert(decreases_to!(self => self.0@[i as int]));
            }
            let ghost before = out@;
            self.0[i].write_text(out);
            proof {
                lemma_seq_model_index(self.0@, i as int);
                let prefix = self@.subrange(0, i + 1);
                assert(prefix.subrange(0, prefix.len() - 1) =~= self@.subrange(0, i as int));
                assert(out@ =~= old(out)@ + models_text(prefix));
            }
            i = i + 1;
        }
        proof {
            assert(self@.subrange(0, self.0@.len() as int) =~= self@);
        }
    }

    /// The source text of the stream.
    pub fn to_string(&self) -> (text: String)
        ensures
            text@ == models_text(self@),
    {
        let mut out = String::new();
        self.write_text(&mut out);
        proof {
            assert(out@ =~= models_text(self@));
        }
        out
    }

    /// The span of the stream: the spans of its trees joined from left to right.
    pub fn span(&self) -> (span: Span)
        ensures
            span == models_span(self@),
        decreases self,
    {
        let mut spans: Vec<Span> = Vec::new();
        let mut i: usize = 0;
        proof {
            lemma_seq_model_len(self.0@);
        }
        while i < self.0.len()
            invariant
                i <= self.0@.len(),
                seq_model(self.0@).len() == self.0@.len(),
                spans@ == models_spans(self@.subrange(0, i as int)),
            decreases self.0@.len() - i,
        {
            proof {
                assert(decreases_to!(self => self.0@[i as int]));
            }
            let span = self.0[i].span();
            spans.push(span);
            proof {
                lemma_seq_model_index(self.0@, i as int);
                let prefix = self@.subrange(0, i + 1);
                assert(prefix.subrange(0, prefix.len() - 1) =~= self@.subrange(0, i as int));
            }
            i = i + 1;
        }
        proof {
            assert(self@.subrange(0, self.0@.len() as int) =~= self@);
        }
        Span::join_all(spans.as_slice())
    }
}

impl Default for TokenStream {
    fn default() -> (stream: Self)
        ensures
            stream.0@.len() == 0,
    {
        TokenStream::new()
    }
}

impl Spanned for TokenStream {
    open spec fn spec_span(&self) -> Span {
        models_span(self@)
    }

    fn span(&self) -> (span: Span) {
        TokenStream::span(self)
    }
}

/// Identifiers, literals, and groups render as words that must not touch.
pub open spec fn is_wordlike(t: TokenTree) -> bool {
    t is Ident || t is Literal || t is Group
}

fn wordlike(tree: &TokenTree) -> (r: bool)
    ensures
        r == is_wordlike(*tree),
{
    match tree {
        TokenTree::Ident(_) | TokenTree::Literal(_) | TokenTree::Group(_) => true,
        _ => false,
    }
}

// ---------------------------------------------------------------------------
// Cells
// ---------------------------------------------------------------------------
impl CellBlock {
    /// Creates a cell from its delimiter and interior token stream.
    pub fn new(delimiter: Delimiter, stream: TokenStream) -> (cell: Self)
        ensures
            cell.delimiter == delimiter,
            cell.stream == stream,
    {
        CellBlock { delimiter, stream }
    }

    /// Returns the type-erased cell delimiter and its boundary spans.
    pub fn delimiter(&self) -> (delimiter: &Delimiter)
        ensures
            *delimiter == self.delimiter,
    {
        &self.delimiter
    }

    /// Returns whether this is an ordinary or semicolon-terminated cell.
    pub fn delim_kind(&self) -> (kind: DelimiterKind)
        ensures
            kind == self.delimiter.kind,
    {
        self.delimiter.kind
    }

    /// Borrows the tokens inside the cell delimiter.
    pub fn stream(&self) -> (stream: &TokenStream)
        ensures
            *stream == self.stream,
    {
        &self.stream
    }

    /// Consumes the cell and returns the tokens inside its delimiter.
    pub fn into_stream(self) -> (stream: TokenStream)
        ensures
            stream == self.stream,
    {
        self.stream
    }

    /// The source text of the cell.
    pub fn to_string(&self) -> (text: String)
        ensures
            text@ == cell_text(self@),
    {
        let mut out = String::new();
        self.write_text(&mut out);
        out
    }

    pub fn write_text(&self, out: &mut String)
        ensures
            final(out)@ == old(out)@ + cell_text(self@),
    {
        append_str(out, self.delimiter.kind.opening());
        self.stream.write_text(out);
        append_str(out, self.delimiter.kind.closing());
        proof {
            assert(final(out)@ =~= old(out)@ + cell_text(self@));
        }
    }

    /// The span of the delimiter joined with the span of the contents.
    pub fn span(&self) -> (span: Span)
        ensures
            span == span_join(self.delimiter.span, models_span(self.stream@)),
    {
        self.delimiter.span.join(self.stream.span())
    }

    pub fn duplicate(&self) -> (copy: Self)
        ensures
            copy@ == self@,
    {
        CellBlock { delimiter: self.delimiter, stream: self.stream.duplicate() }
    }
}

impl CellStream {
    pub fn new(cells: Vec<CellBlock>, source_id: crate::span::SourceId) -> (stream: Self)
        ensures
            stream.cells == cells,
            stream.source_id == source_id,
    {
        CellStream { cells, source_id }
    }

    /// Borrows the cells in order.
    pub fn iter(&self) -> (iter: std::slice::Iter<'_, CellBlock>) {
        self.cells.iter()
    }

    pub fn cells(&self) -> (cells: &[CellBlock])
        ensures
            cells@ == self.cells@,
    {
        self.cells.as_slice()
    }

    pub fn into_cells(self) -> (cells: Vec<CellBlock>)
        ensures
            cells == self.cells,
    {
        self.cells
    }

    pub fn is_empty(&self) -> (r: bool)
        ensures
            r == (self.cells@.len() == 0),
    {
        self.cells.len() == 0
    }

    pub fn len(&self) -> (len: usize)
        ensures
            len == self.cells@.len(),
    {
        self.cells.len()
    }

    pub fn source_id(&self) -> (id: crate::span::SourceId)
        ensures
            id == self.source_id,
    {
        self.source_id
    }

    /// Appends one global cell, separating it from the previous cell by a
    /// detached line break unless a line break already separates them.
    pub fn push(&mut self, cell: CellBlock)
        ensures
            final(self).source_id == old(self).source_id,
            final(self).cells@.len() == old(self).cells@.len() + 1,
            final(self).cells@.subrange(0, old(self).cells@.len() as int) == old(self).cells@,
            ({
                let pushed = final(self).cells@.last();
                let separate = old(self).cells@.len() > 0 && !(old(
                    self,
                ).cells@.last().stream.0@.len() > 0 && is_line_break_trivia(
                    tree_model(old(self).cells@.last().stream.0@.last()),
                )) && !(cell.stream.0@.len() > 0 && is_line_break_trivia(
                    tree_model(cell.stream.0@[0]),
                ));
                &&& pushed.delimiter == cell.delimiter
                &&& separate ==> pushed.stream@ == seq![
                    TokenModel::Trivia {
                        kind: TriviaKind::LineBreak,
                        text: seq!['\n'],
                        span: Span::Detached,
                    },
                ] + cell.stream@
                &&& !separate ==> pushed == cell
            }),
    {
        let n = self.cells.len();
        let separate = if n > 0 {
            !self.cells[n - 1].stream.ends_with_line_break() && !cell.stream.starts_with_line_break()
        } else {
            false
        };
        if separate {
            let mut separated = TokenStream::new();
            proof {
                reveal_strlit("\n");
            }
            let line_break = Trivia::new(TriviaKind::LineBreak, "\n", Span::detached());
            proof {
                assert(line_break.text@ =~= seq!['\n']);
            }
            separated.push_trivia(line_break);
            proof {
                assert(separated@ =~= seq![
                    TokenModel::Trivia {
                        kind: TriviaKind::LineBreak,
                        text: seq!['\n'],
                        span: Span::Detached,
                    },
                ]);
            }
            let CellBlock { delimiter, stream } = cell;
            separated.extend(stream);
            self.cells.push(CellBlock { delimiter, stream: separated });
        } else {
            self.cells.push(cell);
        }
        proof {
            assert(self.cells@.subrange(0, n as int) =~= old(self).cells@);
        }
    }

    /// Appends one global cell without inserting a separator.
    pub fn push_unseparated(&mut self, cell: CellBlock)
        ensures
            final(self).source_id == old(self).source_id,
            final(self).cells@ == old(self).cells@.push(cell),
    {
        self.cells.push(cell);
    }

    /// The source text of every cell in order.
    pub fn to_string(&self) -> (text: String)
        ensures
            text@ == cells_text(self@),
    {
        let mut out = String::new();
        let mut i: usize = 0;
        while i < self.cells.len()
            invariant
                i <= self.cells@.len(),
                out@ == cells_text(self@.subrange(0, i as int)),
            decreases self.cells@.len() - i,
        {
            self.cells[i].write_text(&mut out);
            proof {
                let prefix = self@.subrange(0, i + 1);
                assert(prefix.drop_last() =~= self@.subrange(0, i as int));
            }
            i = i + 1;
        }
        proof {
            assert(self@.subrange(0, self.cells@.len() as int) =~= self@);
        }
        out
    }
}

} // verus!
