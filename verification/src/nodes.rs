//! The typed syntax graph of Macaulay2.
//!
//! Products hold their children in declaration order; categories are enums
//! whose variants each wrap one syntax type. Every node emits raw tokens:
//! the fields of a product are separated by one detached space unless either
//! side is already trivia, or the field is an attached `;` or `,`; a delimited
//! product surrounds its contents with its delimiter, and a string literal
//! emits one literal token. A node's span covers the located spans of its
//! fields in order; an absent field or an empty list contributes nothing.
use vstd::prelude::*;

use crate::delim::{
    closing_text, opening_text, surround_tokens, Delimiter, DelimiterKind, DelimiterToken, _AngleBarDelimiter,
    _BraceDelimiter, _BracketDelimiter, _ParenthesisDelimiter,
};
use crate::pretty::{item_count, item_count_text, punctuated_node, NodeRole, PrettyNode, PrettyTree};
use crate::lexemes::{
    cell_lexemes, cells_lexemes, lemma_lexemes_append, lemma_lexemes_single,
    lemma_lx_list_any_cell_push, lemma_lx_muted_cell, lemma_lx_source_file,
    lemma_tk_list_any_cell_prefix, model_lexemes, models_lexemes, word,
};
use crate::punct::{lemma_punctuated_decreases, Pair, Punctuated};
use crate::text::push_decimal;
use crate::span::{
    encloses, lemma_cover_encloses, lemma_encloses_refl, lemma_encloses_trans, span_cover,
    span_cover_all, span_join, span_join_all, spans_agree, Span, Spanned,
};
use crate::token_stream::{
    append_promoted_cells, append_str, cell_model, cells_model, lemma_seq_model_len,
    lemma_seq_model_prefix, model_span, models_text, CellBlock, CellStream, IdentToken,
    Literal, LiteralKind, ToCells, ToTokens, TokenModel, TokenStream, Trivia, TriviaKind,
};
use crate::tokens::{
    BinaryOperator, PrefixOperator, PostfixOperator, _BreakKeyword, _BreakpointKeyword, _CatchKeyword, _Cma, _ColEql, _ContinueKeyword, _DoKeyword, _ElapsedTimeKeyword, _ElapsedTimingKeyword, _ElseKeyword, _Eql, _EqlGst, _ExceptKeyword, _FinishKeyword, _ForKeyword, _FromKeyword, _GlobalKeyword, _IfKeyword, _InKeyword, _ListKeyword, _LocalKeyword, _LstSub, _NewKeyword, _OfKeyword, _ProfileKeyword, _ReturnKeyword, _Scl, _ShieldKeyword, _StepKeyword, _SubGst, _SymbolKeyword, _TestKeyword, _ThenKeyword, _ThreadLocalKeyword, _ThreadVariableKeyword, _ThrowKeyword, _TimeKeyword, _TimingKeyword, _ToKeyword, _TrapKeyword, _TryKeyword, _WhenKeyword, _WhileKeyword,
};

verus! {

/// The detached single space that separates emitted fields.
pub open spec fn detached_space() -> TokenModel {
    TokenModel::Trivia { kind: TriviaKind::Whitespace, text: seq![' '], span: Span::Detached }
}

/// The detached line break that separates emitted cells.
pub open spec fn detached_newline() -> TokenModel {
    TokenModel::Trivia { kind: TriviaKind::Whitespace, text: seq!['\n'], span: Span::Detached }
}

/// Appends one field's tokens to the emitted contents, separated by one
/// detached space unless either side is empty or already trivia.
pub open spec fn join_field(contents: Seq<TokenModel>, field: Seq<TokenModel>) -> Seq<TokenModel> {
    if field.len() == 0 {
        contents
    } else if contents.len() > 0 && !(contents.last() is Trivia) && !(field[0] is Trivia) {
        contents.push(detached_space()) + field
    } else {
        contents + field
    }
}

/// A name, or any token quoted as a symbol.
#[derive(Debug, Clone, PartialEq, Eq)]
pub struct Symbol {
    pub text: String,
    pub span: Span,
}

/// A block comment kept as syntax.
#[derive(Debug, Clone, PartialEq, Eq)]
pub struct BlockComment {
    pub text: String,
    pub span: Span,
}

/// A line comment kept as syntax.
#[derive(Debug, Clone, PartialEq, Eq)]
pub struct LineComment {
    pub text: String,
    pub span: Span,
}

/// An omitted component beside a comma.
#[derive(Debug, Clone, PartialEq, Eq)]
pub struct EmptyComponent {
    pub text: String,
    pub span: Span,
}

/// An escape sequence inside a string literal.
#[derive(Debug, Clone, PartialEq, Eq)]
pub struct EscapeSequence {
    pub text: String,
    pub span: Span,
}

/// A floating-point number literal.
#[derive(Debug, Clone, PartialEq, Eq)]
pub struct FloatLiteral {
    pub text: String,
    pub span: Span,
}

/// An integer literal.
#[derive(Debug, Clone, PartialEq, Eq)]
pub struct IntegerLiteral {
    pub text: String,
    pub span: Span,
}

/// The text of a raw string literal.
#[derive(Debug, Clone, PartialEq, Eq)]
pub struct RawStringContent {
    pub text: String,
    pub span: Span,
}

/// The text of a string literal.
#[derive(Debug, Clone, PartialEq, Eq)]
pub struct StringContent {
    pub text: String,
    pub span: Span,
}

/// The keyword of a debugging clause.
#[derive(Debug, PartialEq, Eq)]
pub enum DebugKeyword {
    Step(_StepKeyword),
    Finish(_FinishKeyword),
    Shield(_ShieldKeyword),
    Test(_TestKeyword),
    Time(_TimeKeyword),
    Timing(_TimingKeyword),
    Breakpoint(_BreakpointKeyword),
    ElapsedTime(_ElapsedTimeKeyword),
    ElapsedTiming(_ElapsedTimingKeyword),
    Profile(_ProfileKeyword),
}

/// The specifier of a quoted symbol.
#[derive(Debug, PartialEq, Eq)]
pub enum QuoteSpecifier {
    Symbol(_SymbolKeyword),
    Local(_LocalKeyword),
    Global(_GlobalKeyword),
    ThreadVariable(_ThreadVariableKeyword),
    ThreadLocal(_ThreadLocalKeyword),
}

/// A parsed source file: its cells in order, one per line when emitted.
#[derive(Debug, PartialEq, Eq)]
pub struct SourceFile {
    pub elements: Vec<AnyCell>,
}

/// A cell holding one expression.
#[derive(Debug, PartialEq, Eq)]
pub struct ExpressionCell {
    pub value: Box<Expr>,
}

/// A cell holding a comma sequence without delimiters.
#[derive(Debug, PartialEq, Eq)]
pub struct SequenceCell {
    pub value: NakedSequence,
}

/// A comma sequence without delimiters.
#[derive(Debug, PartialEq, Eq)]
pub struct NakedSequence {
    pub elements: Punctuated<Component>,
}

/// A cell whose value a trailing semicolon discards.
#[derive(Debug, PartialEq, Eq)]
pub struct MutedCell {
    pub elements: Punctuated<Component>,
    pub semicolon: _Scl,
}

/// Components discarded by a semicolon inside a delimited group.
#[derive(Debug, PartialEq, Eq)]
pub struct MutedGroup {
    pub elements: Punctuated<Component>,
    pub semicolon: _Scl,
}

/// A bracketed array.
#[derive(Debug, PartialEq, Eq)]
pub struct Array {
    pub muted: Vec<MutedGroup>,
    pub elements: Punctuated<Component>,
    pub delimiter: _BracketDelimiter,
}

/// A braced list.
#[derive(Debug, PartialEq, Eq)]
pub struct List {
    pub muted: Vec<MutedGroup>,
    pub elements: Punctuated<Component>,
    pub delimiter: _BraceDelimiter,
}

/// An angle-bar list.
#[derive(Debug, PartialEq, Eq)]
pub struct AngleBarList {
    pub muted: Vec<MutedGroup>,
    pub elements: Punctuated<Component>,
    pub delimiter: _AngleBarDelimiter,
}

/// A parenthesized sequence.
#[derive(Debug, PartialEq, Eq)]
pub struct Sequence {
    pub muted: Vec<MutedGroup>,
    pub elements: Punctuated<Component>,
    pub delimiter: _ParenthesisDelimiter,
}

/// A parenthesized expression, possibly empty.
#[derive(Debug, PartialEq, Eq)]
pub struct ParenthesizedExpression {
    pub muted: Vec<MutedGroup>,
    pub value: Option<Box<Expr>>,
    pub delimiter: _ParenthesisDelimiter,
}

/// A string literal.
#[derive(Debug, PartialEq, Eq)]
pub struct StringLiteral {
    pub elements: Vec<StringElement>,
}

/// A raw string literal.
#[derive(Debug, PartialEq, Eq)]
pub struct RawStringLiteral {
    pub elements: Vec<RawStringElement>,
}

/// An infix operator application.
#[derive(Debug, PartialEq, Eq)]
pub struct BinaryExpression {
    pub left: Box<Expr>,
    pub operator: BinaryOperator,
    pub right: Box<Expr>,
}

/// Two juxtaposed expressions.
#[derive(Debug, PartialEq, Eq)]
pub struct AdjacentExpression {
    pub left: Box<Expr>,
    pub right: Box<Expr>,
}

/// A prefix operator application.
#[derive(Debug, PartialEq, Eq)]
pub struct PrefixExpression {
    pub operator: PrefixOperator,
    pub operand: Box<Expr>,
}

/// A postfix operator application.
#[derive(Debug, PartialEq, Eq)]
pub struct PostfixExpression {
    pub operand: Box<Expr>,
    pub operator: PostfixOperator,
}

/// A function literal `parameters -> body`.
#[derive(Debug, PartialEq, Eq)]
pub struct LambdaExpression {
    pub parameters: LambdaParameters,
    pub operator: _SubGst,
    pub body: Box<Expr>,
}

/// A global assignment to a symbol.
#[derive(Debug, PartialEq, Eq)]
pub struct Assignment {
    pub left: Symbol,
    pub operator: _Eql,
    pub right: Box<Expr>,
}

/// A local assignment to a symbol.
#[derive(Debug, PartialEq, Eq)]
pub struct LocalAssignment {
    pub left: Symbol,
    pub operator: _ColEql,
    pub right: Box<Expr>,
}

/// An assignment to an infix operator application.
#[derive(Debug, PartialEq, Eq)]
pub struct BinaryAssignment {
    pub left: BinaryExpression,
    pub operator: _Eql,
    pub right: Box<Expr>,
}

/// An installation of an infix operator method.
#[derive(Debug, PartialEq, Eq)]
pub struct BinaryInstallation {
    pub left: BinaryExpression,
    pub operator: _ColEql,
    pub right: Box<Expr>,
}

/// An assignment to a prefix operator application.
#[derive(Debug, PartialEq, Eq)]
pub struct PrefixAssignment {
    pub left: PrefixExpression,
    pub operator: _Eql,
    pub right: Box<Expr>,
}

/// An installation of a prefix operator method.
#[derive(Debug, PartialEq, Eq)]
pub struct PrefixInstallation {
    pub left: PrefixExpression,
    pub operator: _ColEql,
    pub right: Box<Expr>,
}

/// An assignment to a postfix operator application.
#[derive(Debug, PartialEq, Eq)]
pub struct PostfixAssignment {
    pub left: PostfixExpression,
    pub operator: _Eql,
    pub right: Box<Expr>,
}

/// An installation of a postfix operator method.
#[derive(Debug, PartialEq, Eq)]
pub struct PostfixInstallation {
    pub left: PostfixExpression,
    pub operator: _ColEql,
    pub right: Box<Expr>,
}

/// A global assignment to a pack of names.
#[derive(Debug, PartialEq, Eq)]
pub struct StructuredBinding {
    pub binding_pack: BindingPack,
    pub operator: _Eql,
    pub right: Box<Expr>,
}

/// A local assignment to a pack of names.
#[derive(Debug, PartialEq, Eq)]
pub struct LocalStructuredBinding {
    pub binding_pack: BindingPack,
    pub operator: _ColEql,
    pub right: Box<Expr>,
}

/// An assignment to the value of an expression.
#[derive(Debug, PartialEq, Eq)]
pub struct EvaluatedAssignment {
    pub left: Box<Expr>,
    pub operator: _LstSub,
    pub right: Box<Expr>,
}

/// An option `left => right`.
#[derive(Debug, PartialEq, Eq)]
pub struct OptionExpression {
    pub left: Box<Expr>,
    pub operator: _EqlGst,
    pub right: Box<Expr>,
}

/// A `then` clause.
#[derive(Debug, PartialEq, Eq)]
pub struct ThenClause {
    pub keyword: _ThenKeyword,
    pub value: Box<Expr>,
}

/// An `else` clause.
#[derive(Debug, PartialEq, Eq)]
pub struct ElseClause {
    pub keyword: _ElseKeyword,
    pub value: Box<Expr>,
}

/// A conditional.
#[derive(Debug, PartialEq, Eq)]
pub struct IfStatement {
    pub keyword: _IfKeyword,
    pub condition: Box<Expr>,
    pub then_clause: ThenClause,
    pub else_clause: Option<ElseClause>,
}

/// The `list` and `do` clauses of a loop.
#[derive(Debug, PartialEq, Eq)]
pub struct LoopBody {
    pub list_keyword: Option<_ListKeyword>,
    pub listed_value: Option<Box<Expr>>,
    pub do_keyword: Option<_DoKeyword>,
    pub ignored_value: Option<Box<Expr>>,
}

/// The `in`, `from`, and `to` clauses of a `for` loop.
#[derive(Debug, PartialEq, Eq)]
pub struct IterationRange {
    pub in_keyword: Option<_InKeyword>,
    pub iterated_collection: Option<Box<Expr>>,
    pub from_keyword: Option<_FromKeyword>,
    pub range_start: Option<Box<Expr>>,
    pub to_keyword: Option<_ToKeyword>,
    pub range_end: Option<Box<Expr>>,
}

/// A `for` loop.
#[derive(Debug, PartialEq, Eq)]
pub struct ForLoop {
    pub keyword: _ForKeyword,
    pub variable: Symbol,
    pub range: Option<Box<IterationRange>>,
    pub when_keyword: Option<_WhenKeyword>,
    pub filter: Option<Box<Expr>>,
    pub body: LoopBody,
}

/// A `while` loop.
#[derive(Debug, PartialEq, Eq)]
pub struct WhileLoop {
    pub keyword: _WhileKeyword,
    pub condition: Box<Expr>,
    pub body: LoopBody,
}

/// A `new` expression.
#[derive(Debug, PartialEq, Eq)]
pub struct NewStatement {
    pub keyword: _NewKeyword,
    pub class: Box<Expr>,
    pub of_keyword: Option<_OfKeyword>,
    pub parent: Option<Box<Expr>>,
    pub from_keyword: Option<_FromKeyword>,
    pub instance: Option<Box<Expr>>,
}

/// A debugging or timing clause.
#[derive(Debug, PartialEq, Eq)]
pub struct DebugClause {
    pub keyword: DebugKeyword,
    pub value: Option<Box<Expr>>,
}

/// A `break`.
#[derive(Debug, PartialEq, Eq)]
pub struct BreakStatement {
    pub keyword: _BreakKeyword,
    pub value: Option<Box<Expr>>,
}

/// A `continue`.
#[derive(Debug, PartialEq, Eq)]
pub struct ContinueStatement {
    pub keyword: _ContinueKeyword,
    pub value: Option<Box<Expr>>,
}

/// A `return`.
#[derive(Debug, PartialEq, Eq)]
pub struct ReturnStatement {
    pub keyword: _ReturnKeyword,
    pub value: Option<Box<Expr>>,
}

/// A `catch`.
#[derive(Debug, PartialEq, Eq)]
pub struct CatchStatement {
    pub keyword: _CatchKeyword,
    pub value: Box<Expr>,
}

/// A `throw`.
#[derive(Debug, PartialEq, Eq)]
pub struct ThrowStatement {
    pub keyword: _ThrowKeyword,
    pub value: Box<Expr>,
}

/// A `trap`.
#[derive(Debug, PartialEq, Eq)]
pub struct TrapStatement {
    pub keyword: _TrapKeyword,
    pub value: Box<Expr>,
}

/// An `except` clause of a `try`.
#[derive(Debug, PartialEq, Eq)]
pub struct ExceptClause {
    pub keyword: _ExceptKeyword,
    pub exception: Symbol,
    pub do_keyword: _DoKeyword,
    pub value: Box<Expr>,
}

/// A `try` expression.
#[derive(Debug, PartialEq, Eq)]
pub struct TryStatement {
    pub keyword: _TryKeyword,
    pub value: Box<Expr>,
    pub then_clause: Option<ThenClause>,
    pub fallback: Option<Box<TryFallback>>,
}

/// A quoted symbol such as `symbol x`.
#[derive(Debug, PartialEq, Eq)]
pub struct QuoteExpression {
    pub specifier: QuoteSpecifier,
    pub token: Symbol,
}

/// Any top-level cell.
#[derive(Debug, PartialEq, Eq)]
pub enum AnyCell {
    ExpressionCell(ExpressionCell),
    SequenceCell(SequenceCell),
    MutedCell(MutedCell),
}

/// A component of a comma sequence.
#[derive(Debug, PartialEq, Eq)]
pub enum Component {
    EmptyComponent(EmptyComponent),
    Expr(Expr),
}

/// An element of a delimited sequence.
#[derive(Debug, PartialEq, Eq)]
pub enum SequenceElement {
    Component(Component),
    MutedGroup(MutedGroup),
}

/// A piece of a string literal.
#[derive(Debug, PartialEq, Eq)]
pub enum StringElement {
    EscapeSequence(EscapeSequence),
    StringContent(StringContent),
}

/// A piece of a raw string literal.
#[derive(Debug, PartialEq, Eq)]
pub enum RawStringElement {
    EscapeSequence(EscapeSequence),
    RawStringContent(RawStringContent),
}

/// A delimited collection.
#[derive(Debug, PartialEq, Eq)]
pub enum Collection {
    ParenthesizedExpression(ParenthesizedExpression),
    Sequence(Sequence),
    List(List),
    Array(Array),
    AngleBarList(AngleBarList),
}

/// The pack of names a structured binding assigns.
#[derive(Debug, PartialEq, Eq)]
pub enum BindingPack {
    ParenthesizedExpression(ParenthesizedExpression),
    Sequence(Sequence),
    List(List),
    Array(Array),
    AngleBarList(AngleBarList),
}

/// The parameters of a function literal.
#[derive(Debug, PartialEq, Eq)]
pub enum LambdaParameters {
    Symbol(Symbol),
    ParenthesizedExpression(ParenthesizedExpression),
    Sequence(Sequence),
    List(List),
    Array(Array),
    AngleBarList(AngleBarList),
}

/// The fallback clause of a `try`.
#[derive(Debug, PartialEq, Eq)]
pub enum TryFallback {
    ExceptClause(ExceptClause),
    ElseClause(ElseClause),
}

/// An operator application.
#[derive(Debug, PartialEq, Eq)]
pub enum OperatorExpr {
    AdjacentExpression(AdjacentExpression),
    BinaryExpression(BinaryExpression),
    PrefixExpression(PrefixExpression),
    PostfixExpression(PostfixExpression),
}

/// Any assignment form.
#[derive(Debug, PartialEq, Eq)]
pub enum AssignmentExpr {
    Assignment(Assignment),
    LocalAssignment(LocalAssignment),
    BinaryAssignment(BinaryAssignment),
    BinaryInstallation(BinaryInstallation),
    PrefixAssignment(PrefixAssignment),
    PrefixInstallation(PrefixInstallation),
    PostfixAssignment(PostfixAssignment),
    PostfixInstallation(PostfixInstallation),
    StructuredBinding(StructuredBinding),
    LocalStructuredBinding(LocalStructuredBinding),
    EvaluatedAssignment(EvaluatedAssignment),
}

/// An expression.
#[derive(Debug, PartialEq, Eq)]
pub enum Expr {
    Collection(Collection),
    OperatorExpr(OperatorExpr),
    AssignmentExpr(AssignmentExpr),
    OptionExpression(OptionExpression),
    LambdaExpression(LambdaExpression),
    IfStatement(IfStatement),
    ForLoop(ForLoop),
    WhileLoop(WhileLoop),
    TryStatement(TryStatement),
    QuoteExpression(QuoteExpression),
    NewStatement(NewStatement),
    BreakStatement(BreakStatement),
    ContinueStatement(ContinueStatement),
    ReturnStatement(ReturnStatement),
    CatchStatement(CatchStatement),
    ThrowStatement(ThrowStatement),
    TrapStatement(TrapStatement),
    DebugClause(DebugClause),
    FloatLiteral(FloatLiteral),
    IntegerLiteral(IntegerLiteral),
    RawStringLiteral(RawStringLiteral),
    StringLiteral(StringLiteral),
    Symbol(Symbol),
}

/// Any root of typed syntax.
#[derive(Debug, PartialEq, Eq)]
pub enum SyntaxNode {
    SourceFile(SourceFile),
    AnyCell(AnyCell),
    Expr(Expr),
}

pub open spec fn tk_symbol(x: Symbol) -> Seq<TokenModel> {
    seq![TokenModel::Ident { text: x.text@, span: x.span }]
}

pub open spec fn sp_symbol(x: Symbol) -> Span {
    x.span
}

pub open spec fn tk_block_comment(x: BlockComment) -> Seq<TokenModel> {
    seq![TokenModel::Trivia { kind: TriviaKind::BlockComment, text: x.text@, span: x.span }]
}

pub open spec fn sp_block_comment(x: BlockComment) -> Span {
    x.span
}

pub open spec fn tk_line_comment(x: LineComment) -> Seq<TokenModel> {
    seq![TokenModel::Trivia { kind: TriviaKind::LineComment, text: x.text@, span: x.span }]
}

pub open spec fn sp_line_comment(x: LineComment) -> Span {
    x.span
}

pub open spec fn tk_empty_component(x: EmptyComponent) -> Seq<TokenModel> {
    seq![TokenModel::Ident { text: x.text@, span: x.span }]
}

pub open spec fn sp_empty_component(x: EmptyComponent) -> Span {
    x.span
}

pub open spec fn tk_escape_sequence(x: EscapeSequence) -> Seq<TokenModel> {
    seq![TokenModel::Ident { text: x.text@, span: x.span }]
}

pub open spec fn sp_escape_sequence(x: EscapeSequence) -> Span {
    x.span
}

pub open spec fn tk_float_literal(x: FloatLiteral) -> Seq<TokenModel> {
    seq![TokenModel::Literal { kind: LiteralKind::Float, text: x.text@, span: x.span }]
}

pub open spec fn sp_float_literal(x: FloatLiteral) -> Span {
    x.span
}

pub open spec fn tk_integer_literal(x: IntegerLiteral) -> Seq<TokenModel> {
    seq![TokenModel::Literal { kind: LiteralKind::Integer, text: x.text@, span: x.span }]
}

pub open spec fn sp_integer_literal(x: IntegerLiteral) -> Span {
    x.span
}

pub open spec fn tk_raw_string_content(x: RawStringContent) -> Seq<TokenModel> {
    seq![TokenModel::Ident { text: x.text@, span: x.span }]
}

pub open spec fn sp_raw_string_content(x: RawStringContent) -> Span {
    x.span
}

pub open spec fn tk_string_content(x: StringContent) -> Seq<TokenModel> {
    seq![TokenModel::Ident { text: x.text@, span: x.span }]
}

pub open spec fn sp_string_content(x: StringContent) -> Span {
    x.span
}

pub open spec fn tk_debug_keyword(x: DebugKeyword) -> Seq<TokenModel> {
    match x {
        DebugKeyword::Step(t) => seq![t.raw_model()],
        DebugKeyword::Finish(t) => seq![t.raw_model()],
        DebugKeyword::Shield(t) => seq![t.raw_model()],
        DebugKeyword::Test(t) => seq![t.raw_model()],
        DebugKeyword::Time(t) => seq![t.raw_model()],
        DebugKeyword::Timing(t) => seq![t.raw_model()],
        DebugKeyword::Breakpoint(t) => seq![t.raw_model()],
        DebugKeyword::ElapsedTime(t) => seq![t.raw_model()],
        DebugKeyword::ElapsedTiming(t) => seq![t.raw_model()],
        DebugKeyword::Profile(t) => seq![t.raw_model()],
    }
}

pub open spec fn sp_debug_keyword(x: DebugKeyword) -> Span {
    match x {
        DebugKeyword::Step(t) => model_span(t.raw_model()),
        DebugKeyword::Finish(t) => model_span(t.raw_model()),
        DebugKeyword::Shield(t) => model_span(t.raw_model()),
        DebugKeyword::Test(t) => model_span(t.raw_model()),
        DebugKeyword::Time(t) => model_span(t.raw_model()),
        DebugKeyword::Timing(t) => model_span(t.raw_model()),
        DebugKeyword::Breakpoint(t) => model_span(t.raw_model()),
        DebugKeyword::ElapsedTime(t) => model_span(t.raw_model()),
        DebugKeyword::ElapsedTiming(t) => model_span(t.raw_model()),
        DebugKeyword::Profile(t) => model_span(t.raw_model()),
    }
}

pub open spec fn tk_quote_specifier(x: QuoteSpecifier) -> Seq<TokenModel> {
    match x {
        QuoteSpecifier::Symbol(t) => seq![t.raw_model()],
        QuoteSpecifier::Local(t) => seq![t.raw_model()],
        QuoteSpecifier::Global(t) => seq![t.raw_model()],
        QuoteSpecifier::ThreadVariable(t) => seq![t.raw_model()],
        QuoteSpecifier::ThreadLocal(t) => seq![t.raw_model()],
    }
}

pub open spec fn sp_quote_specifier(x: QuoteSpecifier) -> Span {
    match x {
        QuoteSpecifier::Symbol(t) => model_span(t.raw_model()),
        QuoteSpecifier::Local(t) => model_span(t.raw_model()),
        QuoteSpecifier::Global(t) => model_span(t.raw_model()),
        QuoteSpecifier::ThreadVariable(t) => model_span(t.raw_model()),
        QuoteSpecifier::ThreadLocal(t) => model_span(t.raw_model()),
    }
}

pub open spec fn tk_source_file(x: SourceFile) -> Seq<TokenModel>
{
    let c0 = Seq::<TokenModel>::empty();
    let c1 = join_field(c0, tk_list_any_cell(x.elements@, x.elements@.len() as int));
    c1
}

pub open spec fn sp_source_file(x: SourceFile) -> Span
{
    span_cover_all(sp_list_any_cell(x.elements@, x.elements@.len() as int))
}

pub open spec fn tk_expression_cell(x: ExpressionCell) -> Seq<TokenModel>
{
    let c0 = Seq::<TokenModel>::empty();
    let c1 = join_field(c0, tk_expr(*x.value));
    c1
}

pub open spec fn sp_expression_cell(x: ExpressionCell) -> Span
{
    sp_expr(*x.value)
}

pub open spec fn tk_sequence_cell(x: SequenceCell) -> Seq<TokenModel>
{
    let c0 = Seq::<TokenModel>::empty();
    let c1 = join_field(c0, tk_naked_sequence(x.value));
    c1
}

pub open spec fn sp_sequence_cell(x: SequenceCell) -> Span
{
    sp_naked_sequence(x.value)
}

pub open spec fn tk_naked_sequence(x: NakedSequence) -> Seq<TokenModel>
{
    let c0 = Seq::<TokenModel>::empty();
    let c1 = join_field(c0, (tk_pairs(x.elements, x.elements.spec_pairs().len() as int) + match x.elements.spec_last() { Some(v) => tk_component(v), None => seq![] }));
    c1
}

pub open spec fn sp_naked_sequence(x: NakedSequence) -> Span
{
    span_cover_all(sp_pairs(x.elements, x.elements.spec_pairs().len() as int) + match x.elements.spec_last() { Some(v) => seq![sp_component(v)], None => seq![] } + comma_spans(x.elements))
}

pub open spec fn tk_muted_cell(x: MutedCell) -> Seq<TokenModel>
{
    let c0 = Seq::<TokenModel>::empty();
    let c1 = join_field(c0, (tk_pairs(x.elements, x.elements.spec_pairs().len() as int) + match x.elements.spec_last() { Some(v) => tk_component(v), None => seq![] }));
    let c2 = c1 + seq![x.semicolon.raw_model()];
    c2
}

pub open spec fn sp_muted_cell(x: MutedCell) -> Span
{
    span_cover(
        span_cover_all(sp_pairs(x.elements, x.elements.spec_pairs().len() as int) + match x.elements.spec_last() { Some(v) => seq![sp_component(v)], None => seq![] } + comma_spans(x.elements)),
        model_span(x.semicolon.raw_model()),
    )
}

pub open spec fn tk_muted_group(x: MutedGroup) -> Seq<TokenModel>
    decreases x, 0int,
{
    proof {
        assert(decreases_to!(x => x.elements));
        lemma_punctuated_decreases(x.elements);
    }
    let c0 = Seq::<TokenModel>::empty();
    let c1 = join_field(c0, (tk_pairs(x.elements, x.elements.spec_pairs().len() as int) + match x.elements.spec_last() { Some(v) => tk_component(v), None => seq![] }));
    let c2 = c1 + seq![x.semicolon.raw_model()];
    c2
}

pub open spec fn sp_muted_group(x: MutedGroup) -> Span
    decreases x, 0int,
{
    proof {
        assert(decreases_to!(x => x.elements));
        lemma_punctuated_decreases(x.elements);
    }
    span_cover(
        span_cover_all(sp_pairs(x.elements, x.elements.spec_pairs().len() as int) + match x.elements.spec_last() { Some(v) => seq![sp_component(v)], None => seq![] } + comma_spans(x.elements)),
        model_span(x.semicolon.raw_model()),
    )
}

pub open spec fn tk_array(x: Array) -> Seq<TokenModel>
    decreases x, 0int,
{
    proof {
        assert(decreases_to!(x => x.muted));
        assert(decreases_to!(x.muted => x.muted@));
        assert(decreases_to!(x => x.elements));
        lemma_punctuated_decreases(x.elements);
    }
    let c0 = Seq::<TokenModel>::empty();
    let c1 = join_field(c0, tk_list_muted_group(x.muted@, x.muted@.len() as int));
    let c2 = join_field(c1, (tk_pairs(x.elements, x.elements.spec_pairs().len() as int) + match x.elements.spec_last() { Some(v) => tk_component(v), None => seq![] }));
    surround_tokens(Delimiter { kind: DelimiterKind::Bracket, span: x.delimiter.spec_span() }, c2)
}

pub open spec fn sp_array(x: Array) -> Span
    decreases x, 0int,
{
    proof {
        assert(decreases_to!(x => x.muted));
        assert(decreases_to!(x.muted => x.muted@));
        assert(decreases_to!(x => x.elements));
        lemma_punctuated_decreases(x.elements);
    }
    span_cover(
        span_cover(
        span_cover_all(sp_list_muted_group(x.muted@, x.muted@.len() as int)),
        span_cover_all(sp_pairs(x.elements, x.elements.spec_pairs().len() as int) + match x.elements.spec_last() { Some(v) => seq![sp_component(v)], None => seq![] } + comma_spans(x.elements)),
    ),
        x.delimiter.spec_span(),
    )
}

pub open spec fn tk_list(x: List) -> Seq<TokenModel>
    decreases x, 0int,
{
    proof {
        assert(decreases_to!(x => x.muted));
        assert(decreases_to!(x.muted => x.muted@));
        assert(decreases_to!(x => x.elements));
        lemma_punctuated_decreases(x.elements);
    }
    let c0 = Seq::<TokenModel>::empty();
    let c1 = join_field(c0, tk_list_muted_group(x.muted@, x.muted@.len() as int));
    let c2 = join_field(c1, (tk_pairs(x.elements, x.elements.spec_pairs().len() as int) + match x.elements.spec_last() { Some(v) => tk_component(v), None => seq![] }));
    surround_tokens(Delimiter { kind: DelimiterKind::Brace, span: x.delimiter.spec_span() }, c2)
}

pub open spec fn sp_list(x: List) -> Span
    decreases x, 0int,
{
    proof {
        assert(decreases_to!(x => x.muted));
        assert(decreases_to!(x.muted => x.muted@));
        assert(decreases_to!(x => x.elements));
        lemma_punctuated_decreases(x.elements);
    }
    span_cover(
        span_cover(
        span_cover_all(sp_list_muted_group(x.muted@, x.muted@.len() as int)),
        span_cover_all(sp_pairs(x.elements, x.elements.spec_pairs().len() as int) + match x.elements.spec_last() { Some(v) => seq![sp_component(v)], None => seq![] } + comma_spans(x.elements)),
    ),
        x.delimiter.spec_span(),
    )
}

pub open spec fn tk_angle_bar_list(x: AngleBarList) -> Seq<TokenModel>
    decreases x, 0int,
{
    proof {
        assert(decreases_to!(x => x.muted));
        assert(decreases_to!(x.muted => x.muted@));
        assert(decreases_to!(x => x.elements));
        lemma_punctuated_decreases(x.elements);
    }
    let c0 = Seq::<TokenModel>::empty();
    let c1 = join_field(c0, tk_list_muted_group(x.muted@, x.muted@.len() as int));
    let c2 = join_field(c1, (tk_pairs(x.elements, x.elements.spec_pairs().len() as int) + match x.elements.spec_last() { Some(v) => tk_component(v), None => seq![] }));
    surround_tokens(Delimiter { kind: DelimiterKind::AngleBar, span: x.delimiter.spec_span() }, c2)
}

pub open spec fn sp_angle_bar_list(x: AngleBarList) -> Span
    decreases x, 0int,
{
    proof {
        assert(decreases_to!(x => x.muted));
        assert(decreases_to!(x.muted => x.muted@));
        assert(decreases_to!(x => x.elements));
        lemma_punctuated_decreases(x.elements);
    }
    span_cover(
        span_cover(
        span_cover_all(sp_list_muted_group(x.muted@, x.muted@.len() as int)),
        span_cover_all(sp_pairs(x.elements, x.elements.spec_pairs().len() as int) + match x.elements.spec_last() { Some(v) => seq![sp_component(v)], None => seq![] } + comma_spans(x.elements)),
    ),
        x.delimiter.spec_span(),
    )
}

pub open spec fn tk_sequence(x: Sequence) -> Seq<TokenModel>
    decreases x, 0int,
{
    proof {
        assert(decreases_to!(x => x.muted));
        assert(decreases_to!(x.muted => x.muted@));
        assert(decreases_to!(x => x.elements));
        lemma_punctuated_decreases(x.elements);
    }
    let c0 = Seq::<TokenModel>::empty();
    let c1 = join_field(c0, tk_list_muted_group(x.muted@, x.muted@.len() as int));
    let c2 = join_field(c1, (tk_pairs(x.elements, x.elements.spec_pairs().len() as int) + match x.elements.spec_last() { Some(v) => tk_component(v), None => seq![] }));
    surround_tokens(Delimiter { kind: DelimiterKind::Parenthesis, span: x.delimiter.spec_span() }, c2)
}

pub open spec fn sp_sequence(x: Sequence) -> Span
    decreases x, 0int,
{
    proof {
        assert(decreases_to!(x => x.muted));
        assert(decreases_to!(x.muted => x.muted@));
        assert(decreases_to!(x => x.elements));
        lemma_punctuated_decreases(x.elements);
    }
    span_cover(
        span_cover(
        span_cover_all(sp_list_muted_group(x.muted@, x.muted@.len() as int)),
        span_cover_all(sp_pairs(x.elements, x.elements.spec_pairs().len() as int) + match x.elements.spec_last() { Some(v) => seq![sp_component(v)], None => seq![] } + comma_spans(x.elements)),
    ),
        x.delimiter.spec_span(),
    )
}

pub open spec fn tk_parenthesized_expression(x: ParenthesizedExpression) -> Seq<TokenModel>
    decreases x, 0int,
{
    proof {
        assert(decreases_to!(x => x.muted));
        assert(decreases_to!(x.muted => x.muted@));
    }
    let c0 = Seq::<TokenModel>::empty();
    let c1 = join_field(c0, tk_list_muted_group(x.muted@, x.muted@.len() as int));
    let c2 = join_field(c1, match x.value { Some(e) => tk_expr(*e), None => seq![] });
    surround_tokens(Delimiter { kind: DelimiterKind::Parenthesis, span: x.delimiter.spec_span() }, c2)
}

pub open spec fn sp_parenthesized_expression(x: ParenthesizedExpression) -> Span
    decreases x, 0int,
{
    proof {
        assert(decreases_to!(x => x.muted));
        assert(decreases_to!(x.muted => x.muted@));
    }
    span_cover(
        span_cover(
        span_cover_all(sp_list_muted_group(x.muted@, x.muted@.len() as int)),
        match x.value { Some(e) => sp_expr(*e), None => Span::Detached },
    ),
        x.delimiter.spec_span(),
    )
}

pub open spec fn tk_string_literal(x: StringLiteral) -> Seq<TokenModel>
{
    let c0 = Seq::<TokenModel>::empty();
    let c1 = c0 + tk_list_string_element(x.elements@, x.elements@.len() as int);
    seq![TokenModel::Literal { kind: LiteralKind::String, text: seq!['"'] + models_text(c1) + seq!['"'], span: sp_string_literal(x) }]
}

pub open spec fn sp_string_literal(x: StringLiteral) -> Span
{
    span_cover_all(sp_list_string_element(x.elements@, x.elements@.len() as int))
}

pub open spec fn tk_raw_string_literal(x: RawStringLiteral) -> Seq<TokenModel>
{
    let c0 = Seq::<TokenModel>::empty();
    let c1 = c0 + tk_list_raw_string_element(x.elements@, x.elements@.len() as int);
    seq![TokenModel::Literal { kind: LiteralKind::RawString, text: seq!['/', '/', '/'] + models_text(c1) + seq!['/', '/', '/'], span: sp_raw_string_literal(x) }]
}

pub open spec fn sp_raw_string_literal(x: RawStringLiteral) -> Span
{
    span_cover_all(sp_list_raw_string_element(x.elements@, x.elements@.len() as int))
}

pub open spec fn tk_binary_expression(x: BinaryExpression) -> Seq<TokenModel>
    decreases x, 0int,
{
    let c0 = Seq::<TokenModel>::empty();
    let c1 = join_field(c0, tk_expr(*x.left));
    let c2 = join_field(c1, seq![x.operator.raw_model()]);
    let c3 = join_field(c2, tk_expr(*x.right));
    c3
}

pub open spec fn sp_binary_expression(x: BinaryExpression) -> Span
    decreases x, 0int,
{
    span_cover(
        span_cover(
        sp_expr(*x.left),
        model_span(x.operator.raw_model()),
    ),
        sp_expr(*x.right),
    )
}

pub open spec fn tk_adjacent_expression(x: AdjacentExpression) -> Seq<TokenModel>
    decreases x, 0int,
{
    let c0 = Seq::<TokenModel>::empty();
    let c1 = join_field(c0, tk_expr(*x.left));
    let c2 = join_field(c1, tk_expr(*x.right));
    c2
}

pub open spec fn sp_adjacent_expression(x: AdjacentExpression) -> Span
    decreases x, 0int,
{
    span_cover(
        sp_expr(*x.left),
        sp_expr(*x.right),
    )
}

pub open spec fn tk_prefix_expression(x: PrefixExpression) -> Seq<TokenModel>
    decreases x, 0int,
{
    let c0 = Seq::<TokenModel>::empty();
    let c1 = join_field(c0, seq![x.operator.raw_model()]);
    let c2 = join_field(c1, tk_expr(*x.operand));
    c2
}

pub open spec fn sp_prefix_expression(x: PrefixExpression) -> Span
    decreases x, 0int,
{
    span_cover(
        model_span(x.operator.raw_model()),
        sp_expr(*x.operand),
    )
}

pub open spec fn tk_postfix_expression(x: PostfixExpression) -> Seq<TokenModel>
    decreases x, 0int,
{
    let c0 = Seq::<TokenModel>::empty();
    let c1 = join_field(c0, tk_expr(*x.operand));
    let c2 = join_field(c1, seq![x.operator.raw_model()]);
    c2
}

pub open spec fn sp_postfix_expression(x: PostfixExpression) -> Span
    decreases x, 0int,
{
    span_cover(
        sp_expr(*x.operand),
        model_span(x.operator.raw_model()),
    )
}

pub open spec fn tk_lambda_expression(x: LambdaExpression) -> Seq<TokenModel>
    decreases x, 0int,
{
    let c0 = Seq::<TokenModel>::empty();
    let c1 = join_field(c0, tk_lambda_parameters(x.parameters));
    let c2 = join_field(c1, seq![x.operator.raw_model()]);
    let c3 = join_field(c2, tk_expr(*x.body));
    c3
}

pub open spec fn sp_lambda_expression(x: LambdaExpression) -> Span
    decreases x, 0int,
{
    span_cover(
        span_cover(
        sp_lambda_parameters(x.parameters),
        model_span(x.operator.raw_model()),
    ),
        sp_expr(*x.body),
    )
}

pub open spec fn tk_assignment(x: Assignment) -> Seq<TokenModel>
    decreases x, 0int,
{
    let c0 = Seq::<TokenModel>::empty();
    let c1 = join_field(c0, tk_symbol(x.left));
    let c2 = join_field(c1, seq![x.operator.raw_model()]);
    let c3 = join_field(c2, tk_expr(*x.right));
    c3
}

pub open spec fn sp_assignment(x: Assignment) -> Span
    decreases x, 0int,
{
    span_cover(
        span_cover(
        sp_symbol(x.left),
        model_span(x.operator.raw_model()),
    ),
        sp_expr(*x.right),
    )
}

pub open spec fn tk_local_assignment(x: LocalAssignment) -> Seq<TokenModel>
    decreases x, 0int,
{
    let c0 = Seq::<TokenModel>::empty();
    let c1 = join_field(c0, tk_symbol(x.left));
    let c2 = join_field(c1, seq![x.operator.raw_model()]);
    let c3 = join_field(c2, tk_expr(*x.right));
    c3
}

pub open spec fn sp_local_assignment(x: LocalAssignment) -> Span
    decreases x, 0int,
{
    span_cover(
        span_cover(
        sp_symbol(x.left),
        model_span(x.operator.raw_model()),
    ),
        sp_expr(*x.right),
    )
}

pub open spec fn tk_binary_assignment(x: BinaryAssignment) -> Seq<TokenModel>
    decreases x, 0int,
{
    let c0 = Seq::<TokenModel>::empty();
    let c1 = join_field(c0, tk_binary_expression(x.left));
    let c2 = join_field(c1, seq![x.operator.raw_model()]);
    let c3 = join_field(c2, tk_expr(*x.right));
    c3
}

pub open spec fn sp_binary_assignment(x: BinaryAssignment) -> Span
    decreases x, 0int,
{
    span_cover(
        span_cover(
        sp_binary_expression(x.left),
        model_span(x.operator.raw_model()),
    ),
        sp_expr(*x.right),
    )
}

pub open spec fn tk_binary_installation(x: BinaryInstallation) -> Seq<TokenModel>
    decreases x, 0int,
{
    let c0 = Seq::<TokenModel>::empty();
    let c1 = join_field(c0, tk_binary_expression(x.left));
    let c2 = join_field(c1, seq![x.operator.raw_model()]);
    let c3 = join_field(c2, tk_expr(*x.right));
    c3
}

pub open spec fn sp_binary_installation(x: BinaryInstallation) -> Span
    decreases x, 0int,
{
    span_cover(
        span_cover(
        sp_binary_expression(x.left),
        model_span(x.operator.raw_model()),
    ),
        sp_expr(*x.right),
    )
}

pub open spec fn tk_prefix_assignment(x: PrefixAssignment) -> Seq<TokenModel>
    decreases x, 0int,
{
    let c0 = Seq::<TokenModel>::empty();
    let c1 = join_field(c0, tk_prefix_expression(x.left));
    let c2 = join_field(c1, seq![x.operator.raw_model()]);
    let c3 = join_field(c2, tk_expr(*x.right));
    c3
}

pub open spec fn sp_prefix_assignment(x: PrefixAssignment) -> Span
    decreases x, 0int,
{
    span_cover(
        span_cover(
        sp_prefix_expression(x.left),
        model_span(x.operator.raw_model()),
    ),
        sp_expr(*x.right),
    )
}

pub open spec fn tk_prefix_installation(x: PrefixInstallation) -> Seq<TokenModel>
    decreases x, 0int,
{
    let c0 = Seq::<TokenModel>::empty();
    let c1 = join_field(c0, tk_prefix_expression(x.left));
    let c2 = join_field(c1, seq![x.operator.raw_model()]);
    let c3 = join_field(c2, tk_expr(*x.right));
    c3
}

pub open spec fn sp_prefix_installation(x: PrefixInstallation) -> Span
    decreases x, 0int,
{
    span_cover(
        span_cover(
        sp_prefix_expression(x.left),
        model_span(x.operator.raw_model()),
    ),
        sp_expr(*x.right),
    )
}

pub open spec fn tk_postfix_assignment(x: PostfixAssignment) -> Seq<TokenModel>
    decreases x, 0int,
{
    let c0 = Seq::<TokenModel>::empty();
    let c1 = join_field(c0, tk_postfix_expression(x.left));
    let c2 = join_field(c1, seq![x.operator.raw_model()]);
    let c3 = join_field(c2, tk_expr(*x.right));
    c3
}

pub open spec fn sp_postfix_assignment(x: PostfixAssignment) -> Span
    decreases x, 0int,
{
    span_cover(
        span_cover(
        sp_postfix_expression(x.left),
        model_span(x.operator.raw_model()),
    ),
        sp_expr(*x.right),
    )
}

pub open spec fn tk_postfix_installation(x: PostfixInstallation) -> Seq<TokenModel>
    decreases x, 0int,
{
    let c0 = Seq::<TokenModel>::empty();
    let c1 = join_field(c0, tk_postfix_expression(x.left));
    let c2 = join_field(c1, seq![x.operator.raw_model()]);
    let c3 = join_field(c2, tk_expr(*x.right));
    c3
}

pub open spec fn sp_postfix_installation(x: PostfixInstallation) -> Span
    decreases x, 0int,
{
    span_cover(
        span_cover(
        sp_postfix_expression(x.left),
        model_span(x.operator.raw_model()),
    ),
        sp_expr(*x.right),
    )
}

pub open spec fn tk_structured_binding(x: StructuredBinding) -> Seq<TokenModel>
    decreases x, 0int,
{
    let c0 = Seq::<TokenModel>::empty();
    let c1 = join_field(c0, tk_binding_pack(x.binding_pack));
    let c2 = join_field(c1, seq![x.operator.raw_model()]);
    let c3 = join_field(c2, tk_expr(*x.right));
    c3
}

pub open spec fn sp_structured_binding(x: StructuredBinding) -> Span
    decreases x, 0int,
{
    span_cover(
        span_cover(
        sp_binding_pack(x.binding_pack),
        model_span(x.operator.raw_model()),
    ),
        sp_expr(*x.right),
    )
}

pub open spec fn tk_local_structured_binding(x: LocalStructuredBinding) -> Seq<TokenModel>
    decreases x, 0int,
{
    let c0 = Seq::<TokenModel>::empty();
    let c1 = join_field(c0, tk_binding_pack(x.binding_pack));
    let c2 = join_field(c1, seq![x.operator.raw_model()]);
    let c3 = join_field(c2, tk_expr(*x.right));
    c3
}

pub open spec fn sp_local_structured_binding(x: LocalStructuredBinding) -> Span
    decreases x, 0int,
{
    span_cover(
        span_cover(
        sp_binding_pack(x.binding_pack),
        model_span(x.operator.raw_model()),
    ),
        sp_expr(*x.right),
    )
}

pub open spec fn tk_evaluated_assignment(x: EvaluatedAssignment) -> Seq<TokenModel>
    decreases x, 0int,
{
    let c0 = Seq::<TokenModel>::empty();
    let c1 = join_field(c0, tk_expr(*x.left));
    let c2 = join_field(c1, seq![x.operator.raw_model()]);
    let c3 = join_field(c2, tk_expr(*x.right));
    c3
}

pub open spec fn sp_evaluated_assignment(x: EvaluatedAssignment) -> Span
    decreases x, 0int,
{
    span_cover(
        span_cover(
        sp_expr(*x.left),
        model_span(x.operator.raw_model()),
    ),
        sp_expr(*x.right),
    )
}

pub open spec fn tk_option_expression(x: OptionExpression) -> Seq<TokenModel>
    decreases x, 0int,
{
    let c0 = Seq::<TokenModel>::empty();
    let c1 = join_field(c0, tk_expr(*x.left));
    let c2 = join_field(c1, seq![x.operator.raw_model()]);
    let c3 = join_field(c2, tk_expr(*x.right));
    c3
}

pub open spec fn sp_option_expression(x: OptionExpression) -> Span
    decreases x, 0int,
{
    span_cover(
        span_cover(
        sp_expr(*x.left),
        model_span(x.operator.raw_model()),
    ),
        sp_expr(*x.right),
    )
}

pub open spec fn tk_then_clause(x: ThenClause) -> Seq<TokenModel>
    decreases x, 0int,
{
    let c0 = Seq::<TokenModel>::empty();
    let c1 = join_field(c0, seq![x.keyword.raw_model()]);
    let c2 = join_field(c1, tk_expr(*x.value));
    c2
}

pub open spec fn sp_then_clause(x: ThenClause) -> Span
    decreases x, 0int,
{
    span_cover(
        model_span(x.keyword.raw_model()),
        sp_expr(*x.value),
    )
}

pub open spec fn tk_else_clause(x: ElseClause) -> Seq<TokenModel>
    decreases x, 0int,
{
    let c0 = Seq::<TokenModel>::empty();
    let c1 = join_field(c0, seq![x.keyword.raw_model()]);
    let c2 = join_field(c1, tk_expr(*x.value));
    c2
}

pub open spec fn sp_else_clause(x: ElseClause) -> Span
    decreases x, 0int,
{
    span_cover(
        model_span(x.keyword.raw_model()),
        sp_expr(*x.value),
    )
}

pub open spec fn tk_if_statement(x: IfStatement) -> Seq<TokenModel>
    decreases x, 0int,
{
    let c0 = Seq::<TokenModel>::empty();
    let c1 = join_field(c0, seq![x.keyword.raw_model()]);
    let c2 = join_field(c1, tk_expr(*x.condition));
    let c3 = join_field(c2, tk_then_clause(x.then_clause));
    let c4 = join_field(c3, match x.else_clause { Some(v) => tk_else_clause(v), None => seq![] });
    c4
}

pub open spec fn sp_if_statement(x: IfStatement) -> Span
    decreases x, 0int,
{
    span_cover(
        span_cover(
        span_cover(
        model_span(x.keyword.raw_model()),
        sp_expr(*x.condition),
    ),
        sp_then_clause(x.then_clause),
    ),
        match x.else_clause { Some(v) => sp_else_clause(v), None => Span::Detached },
    )
}

pub open spec fn tk_loop_body(x: LoopBody) -> Seq<TokenModel>
    decreases x, 0int,
{
    let c0 = Seq::<TokenModel>::empty();
    let c1 = join_field(c0, match x.list_keyword { Some(t) => seq![t.raw_model()], None => seq![] });
    let c2 = join_field(c1, match x.listed_value { Some(e) => tk_expr(*e), None => seq![] });
    let c3 = join_field(c2, match x.do_keyword { Some(t) => seq![t.raw_model()], None => seq![] });
    let c4 = join_field(c3, match x.ignored_value { Some(e) => tk_expr(*e), None => seq![] });
    c4
}

pub open spec fn sp_loop_body(x: LoopBody) -> Span
    decreases x, 0int,
{
    span_cover(
        span_cover(
        span_cover(
        match x.list_keyword { Some(t) => model_span(t.raw_model()), None => Span::Detached },
        match x.listed_value { Some(e) => sp_expr(*e), None => Span::Detached },
    ),
        match x.do_keyword { Some(t) => model_span(t.raw_model()), None => Span::Detached },
    ),
        match x.ignored_value { Some(e) => sp_expr(*e), None => Span::Detached },
    )
}

pub open spec fn tk_iteration_range(x: IterationRange) -> Seq<TokenModel>
    decreases x, 0int,
{
    let c0 = Seq::<TokenModel>::empty();
    let c1 = join_field(c0, match x.in_keyword { Some(t) => seq![t.raw_model()], None => seq![] });
    let c2 = join_field(c1, match x.iterated_collection { Some(e) => tk_expr(*e), None => seq![] });
    let c3 = join_field(c2, match x.from_keyword { Some(t) => seq![t.raw_model()], None => seq![] });
    let c4 = join_field(c3, match x.range_start { Some(e) => tk_expr(*e), None => seq![] });
    let c5 = join_field(c4, match x.to_keyword { Some(t) => seq![t.raw_model()], None => seq![] });
    let c6 = join_field(c5, match x.range_end { Some(e) => tk_expr(*e), None => seq![] });
    c6
}

pub open spec fn sp_iteration_range(x: IterationRange) -> Span
    decreases x, 0int,
{
    span_cover(
        span_cover(
        span_cover(
        span_cover(
        span_cover(
        match x.in_keyword { Some(t) => model_span(t.raw_model()), None => Span::Detached },
        match x.iterated_collection { Some(e) => sp_expr(*e), None => Span::Detached },
    ),
        match x.from_keyword { Some(t) => model_span(t.raw_model()), None => Span::Detached },
    ),
        match x.range_start { Some(e) => sp_expr(*e), None => Span::Detached },
    ),
        match x.to_keyword { Some(t) => model_span(t.raw_model()), None => Span::Detached },
    ),
        match x.range_end { Some(e) => sp_expr(*e), None => Span::Detached },
    )
}

pub open spec fn tk_for_loop(x: ForLoop) -> Seq<TokenModel>
    decreases x, 0int,
{
    let c0 = Seq::<TokenModel>::empty();
    let c1 = join_field(c0, seq![x.keyword.raw_model()]);
    let c2 = join_field(c1, tk_symbol(x.variable));
    let c3 = join_field(c2, match x.range { Some(v) => tk_iteration_range(*v), None => seq![] });
    let c4 = join_field(c3, match x.when_keyword { Some(t) => seq![t.raw_model()], None => seq![] });
    let c5 = join_field(c4, match x.filter { Some(e) => tk_expr(*e), None => seq![] });
    let c6 = join_field(c5, tk_loop_body(x.body));
    c6
}

pub open spec fn sp_for_loop(x: ForLoop) -> Span
    decreases x, 0int,
{
    span_cover(
        span_cover(
        span_cover(
        span_cover(
        span_cover(
        model_span(x.keyword.raw_model()),
        sp_symbol(x.variable),
    ),
        match x.range { Some(v) => sp_iteration_range(*v), None => Span::Detached },
    ),
        match x.when_keyword { Some(t) => model_span(t.raw_model()), None => Span::Detached },
    ),
        match x.filter { Some(e) => sp_expr(*e), None => Span::Detached },
    ),
        sp_loop_body(x.body),
    )
}

pub open spec fn tk_while_loop(x: WhileLoop) -> Seq<TokenModel>
    decreases x, 0int,
{
    let c0 = Seq::<TokenModel>::empty();
    let c1 = join_field(c0, seq![x.keyword.raw_model()]);
    let c2 = join_field(c1, tk_expr(*x.condition));
    let c3 = join_field(c2, tk_loop_body(x.body));
    c3
}

pub open spec fn sp_while_loop(x: WhileLoop) -> Span
    decreases x, 0int,
{
    span_cover(
        span_cover(
        model_span(x.keyword.raw_model()),
        sp_expr(*x.condition),
    ),
        sp_loop_body(x.body),
    )
}

pub open spec fn tk_new_statement(x: NewStatement) -> Seq<TokenModel>
    decreases x, 0int,
{
    let c0 = Seq::<TokenModel>::empty();
    let c1 = join_field(c0, seq![x.keyword.raw_model()]);
    let c2 = join_field(c1, tk_expr(*x.class));
    let c3 = join_field(c2, match x.of_keyword { Some(t) => seq![t.raw_model()], None => seq![] });
    let c4 = join_field(c3, match x.parent { Some(e) => tk_expr(*e), None => seq![] });
    let c5 = join_field(c4, match x.from_keyword { Some(t) => seq![t.raw_model()], None => seq![] });
    let c6 = join_field(c5, match x.instance { Some(e) => tk_expr(*e), None => seq![] });
    c6
}

pub open spec fn sp_new_statement(x: NewStatement) -> Span
    decreases x, 0int,
{
    span_cover(
        span_cover(
        span_cover(
        span_cover(
        span_cover(
        model_span(x.keyword.raw_model()),
        sp_expr(*x.class),
    ),
        match x.of_keyword { Some(t) => model_span(t.raw_model()), None => Span::Detached },
    ),
        match x.parent { Some(e) => sp_expr(*e), None => Span::Detached },
    ),
        match x.from_keyword { Some(t) => model_span(t.raw_model()), None => Span::Detached },
    ),
        match x.instance { Some(e) => sp_expr(*e), None => Span::Detached },
    )
}

pub open spec fn tk_debug_clause(x: DebugClause) -> Seq<TokenModel>
    decreases x, 0int,
{
    let c0 = Seq::<TokenModel>::empty();
    let c1 = join_field(c0, tk_debug_keyword(x.keyword));
    let c2 = join_field(c1, match x.value { Some(e) => tk_expr(*e), None => seq![] });
    c2
}

pub open spec fn sp_debug_clause(x: DebugClause) -> Span
    decreases x, 0int,
{
    span_cover(
        sp_debug_keyword(x.keyword),
        match x.value { Some(e) => sp_expr(*e), None => Span::Detached },
    )
}

pub open spec fn tk_break_statement(x: BreakStatement) -> Seq<TokenModel>
    decreases x, 0int,
{
    let c0 = Seq::<TokenModel>::empty();
    let c1 = join_field(c0, seq![x.keyword.raw_model()]);
    let c2 = join_field(c1, match x.value { Some(e) => tk_expr(*e), None => seq![] });
    c2
}

pub open spec fn sp_break_statement(x: BreakStatement) -> Span
    decreases x, 0int,
{
    span_cover(
        model_span(x.keyword.raw_model()),
        match x.value { Some(e) => sp_expr(*e), None => Span::Detached },
    )
}

pub open spec fn tk_continue_statement(x: ContinueStatement) -> Seq<TokenModel>
    decreases x, 0int,
{
    let c0 = Seq::<TokenModel>::empty();
    let c1 = join_field(c0, seq![x.keyword.raw_model()]);
    let c2 = join_field(c1, match x.value { Some(e) => tk_expr(*e), None => seq![] });
    c2
}

pub open spec fn sp_continue_statement(x: ContinueStatement) -> Span
    decreases x, 0int,
{
    span_cover(
        model_span(x.keyword.raw_model()),
        match x.value { Some(e) => sp_expr(*e), None => Span::Detached },
    )
}

pub open spec fn tk_return_statement(x: ReturnStatement) -> Seq<TokenModel>
    decreases x, 0int,
{
    let c0 = Seq::<TokenModel>::empty();
    let c1 = join_field(c0, seq![x.keyword.raw_model()]);
    let c2 = join_field(c1, match x.value { Some(e) => tk_expr(*e), None => seq![] });
    c2
}

pub open spec fn sp_return_statement(x: ReturnStatement) -> Span
    decreases x, 0int,
{
    span_cover(
        model_span(x.keyword.raw_model()),
        match x.value { Some(e) => sp_expr(*e), None => Span::Detached },
    )
}

pub open spec fn tk_catch_statement(x: CatchStatement) -> Seq<TokenModel>
    decreases x, 0int,
{
    let c0 = Seq::<TokenModel>::empty();
    let c1 = join_field(c0, seq![x.keyword.raw_model()]);
    let c2 = join_field(c1, tk_expr(*x.value));
    c2
}

pub open spec fn sp_catch_statement(x: CatchStatement) -> Span
    decreases x, 0int,
{
    span_cover(
        model_span(x.keyword.raw_model()),
        sp_expr(*x.value),
    )
}

pub open spec fn tk_throw_statement(x: ThrowStatement) -> Seq<TokenModel>
    decreases x, 0int,
{
    let c0 = Seq::<TokenModel>::empty();
    let c1 = join_field(c0, seq![x.keyword.raw_model()]);
    let c2 = join_field(c1, tk_expr(*x.value));
    c2
}

pub open spec fn sp_throw_statement(x: ThrowStatement) -> Span
    decreases x, 0int,
{
    span_cover(
        model_span(x.keyword.raw_model()),
        sp_expr(*x.value),
    )
}

pub open spec fn tk_trap_statement(x: TrapStatement) -> Seq<TokenModel>
    decreases x, 0int,
{
    let c0 = Seq::<TokenModel>::empty();
    let c1 = join_field(c0, seq![x.keyword.raw_model()]);
    let c2 = join_field(c1, tk_expr(*x.value));
    c2
}

pub open spec fn sp_trap_statement(x: TrapStatement) -> Span
    decreases x, 0int,
{
    span_cover(
        model_span(x.keyword.raw_model()),
        sp_expr(*x.value),
    )
}

pub open spec fn tk_except_clause(x: ExceptClause) -> Seq<TokenModel>
    decreases x, 0int,
{
    let c0 = Seq::<TokenModel>::empty();
    let c1 = join_field(c0, seq![x.keyword.raw_model()]);
    let c2 = join_field(c1, tk_symbol(x.exception));
    let c3 = join_field(c2, seq![x.do_keyword.raw_model()]);
    let c4 = join_field(c3, tk_expr(*x.value));
    c4
}

pub open spec fn sp_except_clause(x: ExceptClause) -> Span
    decreases x, 0int,
{
    span_cover(
        span_cover(
        span_cover(
        model_span(x.keyword.raw_model()),
        sp_symbol(x.exception),
    ),
        model_span(x.do_keyword.raw_model()),
    ),
        sp_expr(*x.value),
    )
}

pub open spec fn tk_try_statement(x: TryStatement) -> Seq<TokenModel>
    decreases x, 0int,
{
    let c0 = Seq::<TokenModel>::empty();
    let c1 = join_field(c0, seq![x.keyword.raw_model()]);
    let c2 = join_field(c1, tk_expr(*x.value));
    let c3 = join_field(c2, match x.then_clause { Some(v) => tk_then_clause(v), None => seq![] });
    let c4 = join_field(c3, match x.fallback { Some(v) => tk_try_fallback(*v), None => seq![] });
    c4
}

pub open spec fn sp_try_statement(x: TryStatement) -> Span
    decreases x, 0int,
{
    span_cover(
        span_cover(
        span_cover(
        model_span(x.keyword.raw_model()),
        sp_expr(*x.value),
    ),
        match x.then_clause { Some(v) => sp_then_clause(v), None => Span::Detached },
    ),
        match x.fallback { Some(v) => sp_try_fallback(*v), None => Span::Detached },
    )
}

pub open spec fn tk_quote_expression(x: QuoteExpression) -> Seq<TokenModel>
{
    let c0 = Seq::<TokenModel>::empty();
    let c1 = join_field(c0, tk_quote_specifier(x.specifier));
    let c2 = join_field(c1, tk_symbol(x.token));
    c2
}

pub open spec fn sp_quote_expression(x: QuoteExpression) -> Span
{
    span_cover(
        sp_quote_specifier(x.specifier),
        sp_symbol(x.token),
    )
}

pub open spec fn tk_any_cell(x: AnyCell) -> Seq<TokenModel>
{
    match x {
        AnyCell::ExpressionCell(v) => tk_expression_cell(v),
        AnyCell::SequenceCell(v) => tk_sequence_cell(v),
        AnyCell::MutedCell(v) => tk_muted_cell(v),
    }
}

pub open spec fn sp_any_cell(x: AnyCell) -> Span
{
    match x {
        AnyCell::ExpressionCell(v) => sp_expression_cell(v),
        AnyCell::SequenceCell(v) => sp_sequence_cell(v),
        AnyCell::MutedCell(v) => sp_muted_cell(v),
    }
}

pub open spec fn tk_component(x: Component) -> Seq<TokenModel>
    decreases x, 0int,
{
    match x {
        Component::EmptyComponent(v) => tk_empty_component(v),
        Component::Expr(v) => tk_expr(v),
    }
}

pub open spec fn sp_component(x: Component) -> Span
    decreases x, 0int,
{
    match x {
        Component::EmptyComponent(v) => sp_empty_component(v),
        Component::Expr(v) => sp_expr(v),
    }
}

pub open spec fn tk_sequence_element(x: SequenceElement) -> Seq<TokenModel>
{
    match x {
        SequenceElement::Component(v) => tk_component(v),
        SequenceElement::MutedGroup(v) => tk_muted_group(v),
    }
}

pub open spec fn sp_sequence_element(x: SequenceElement) -> Span
{
    match x {
        SequenceElement::Component(v) => sp_component(v),
        SequenceElement::MutedGroup(v) => sp_muted_group(v),
    }
}

pub open spec fn tk_string_element(x: StringElement) -> Seq<TokenModel>
{
    match x {
        StringElement::EscapeSequence(v) => tk_escape_sequence(v),
        StringElement::StringContent(v) => tk_string_content(v),
    }
}

pub open spec fn sp_string_element(x: StringElement) -> Span
{
    match x {
        StringElement::EscapeSequence(v) => sp_escape_sequence(v),
        StringElement::StringContent(v) => sp_string_content(v),
    }
}

pub open spec fn tk_raw_string_element(x: RawStringElement) -> Seq<TokenModel>
{
    match x {
        RawStringElement::EscapeSequence(v) => tk_escape_sequence(v),
        RawStringElement::RawStringContent(v) => tk_raw_string_content(v),
    }
}

pub open spec fn sp_raw_string_element(x: RawStringElement) -> Span
{
    match x {
        RawStringElement::EscapeSequence(v) => sp_escape_sequence(v),
        RawStringElement::RawStringContent(v) => sp_raw_string_content(v),
    }
}

pub open spec fn tk_collection(x: Collection) -> Seq<TokenModel>
    decreases x, 0int,
{
    match x {
        Collection::ParenthesizedExpression(v) => tk_parenthesized_expression(v),
        Collection::Sequence(v) => tk_sequence(v),
        Collection::List(v) => tk_list(v),
        Collection::Array(v) => tk_array(v),
        Collection::AngleBarList(v) => tk_angle_bar_list(v),
    }
}

pub open spec fn sp_collection(x: Collection) -> Span
    decreases x, 0int,
{
    match x {
        Collection::ParenthesizedExpression(v) => sp_parenthesized_expression(v),
        Collection::Sequence(v) => sp_sequence(v),
        Collection::List(v) => sp_list(v),
        Collection::Array(v) => sp_array(v),
        Collection::AngleBarList(v) => sp_angle_bar_list(v),
    }
}

pub open spec fn tk_binding_pack(x: BindingPack) -> Seq<TokenModel>
    decreases x, 0int,
{
    match x {
        BindingPack::ParenthesizedExpression(v) => tk_parenthesized_expression(v),
        BindingPack::Sequence(v) => tk_sequence(v),
        BindingPack::List(v) => tk_list(v),
        BindingPack::Array(v) => tk_array(v),
        BindingPack::AngleBarList(v) => tk_angle_bar_list(v),
    }
}

pub open spec fn sp_binding_pack(x: BindingPack) -> Span
    decreases x, 0int,
{
    match x {
        BindingPack::ParenthesizedExpression(v) => sp_parenthesized_expression(v),
        BindingPack::Sequence(v) => sp_sequence(v),
        BindingPack::List(v) => sp_list(v),
        BindingPack::Array(v) => sp_array(v),
        BindingPack::AngleBarList(v) => sp_angle_bar_list(v),
    }
}

pub open spec fn tk_lambda_parameters(x: LambdaParameters) -> Seq<TokenModel>
    decreases x, 0int,
{
    match x {
        LambdaParameters::Symbol(v) => tk_symbol(v),
        LambdaParameters::ParenthesizedExpression(v) => tk_parenthesized_expression(v),
        LambdaParameters::Sequence(v) => tk_sequence(v),
        LambdaParameters::List(v) => tk_list(v),
        LambdaParameters::Array(v) => tk_array(v),
        LambdaParameters::AngleBarList(v) => tk_angle_bar_list(v),
    }
}

pub open spec fn sp_lambda_parameters(x: LambdaParameters) -> Span
    decreases x, 0int,
{
    match x {
        LambdaParameters::Symbol(v) => sp_symbol(v),
        LambdaParameters::ParenthesizedExpression(v) => sp_parenthesized_expression(v),
        LambdaParameters::Sequence(v) => sp_sequence(v),
        LambdaParameters::List(v) => sp_list(v),
        LambdaParameters::Array(v) => sp_array(v),
        LambdaParameters::AngleBarList(v) => sp_angle_bar_list(v),
    }
}

pub open spec fn tk_try_fallback(x: TryFallback) -> Seq<TokenModel>
    decreases x, 0int,
{
    match x {
        TryFallback::ExceptClause(v) => tk_except_clause(v),
        TryFallback::ElseClause(v) => tk_else_clause(v),
    }
}

pub open spec fn sp_try_fallback(x: TryFallback) -> Span
    decreases x, 0int,
{
    match x {
        TryFallback::ExceptClause(v) => sp_except_clause(v),
        TryFallback::ElseClause(v) => sp_else_clause(v),
    }
}

pub open spec fn tk_operator_expr(x: OperatorExpr) -> Seq<TokenModel>
    decreases x, 0int,
{
    match x {
        OperatorExpr::AdjacentExpression(v) => tk_adjacent_expression(v),
        OperatorExpr::BinaryExpression(v) => tk_binary_expression(v),
        OperatorExpr::PrefixExpression(v) => tk_prefix_expression(v),
        OperatorExpr::PostfixExpression(v) => tk_postfix_expression(v),
    }
}

pub open spec fn sp_operator_expr(x: OperatorExpr) -> Span
    decreases x, 0int,
{
    match x {
        OperatorExpr::AdjacentExpression(v) => sp_adjacent_expression(v),
        OperatorExpr::BinaryExpression(v) => sp_binary_expression(v),
        OperatorExpr::PrefixExpression(v) => sp_prefix_expression(v),
        OperatorExpr::PostfixExpression(v) => sp_postfix_expression(v),
    }
}

pub open spec fn tk_assignment_expr(x: AssignmentExpr) -> Seq<TokenModel>
    decreases x, 0int,
{
    match x {
        AssignmentExpr::Assignment(v) => tk_assignment(v),
        AssignmentExpr::LocalAssignment(v) => tk_local_assignment(v),
        AssignmentExpr::BinaryAssignment(v) => tk_binary_assignment(v),
        AssignmentExpr::BinaryInstallation(v) => tk_binary_installation(v),
        AssignmentExpr::PrefixAssignment(v) => tk_prefix_assignment(v),
        AssignmentExpr::PrefixInstallation(v) => tk_prefix_installation(v),
        AssignmentExpr::PostfixAssignment(v) => tk_postfix_assignment(v),
        AssignmentExpr::PostfixInstallation(v) => tk_postfix_installation(v),
        AssignmentExpr::StructuredBinding(v) => tk_structured_binding(v),
        AssignmentExpr::LocalStructuredBinding(v) => tk_local_structured_binding(v),
        AssignmentExpr::EvaluatedAssignment(v) => tk_evaluated_assignment(v),
    }
}

pub open spec fn sp_assignment_expr(x: AssignmentExpr) -> Span
    decreases x, 0int,
{
    match x {
        AssignmentExpr::Assignment(v) => sp_assignment(v),
        AssignmentExpr::LocalAssignment(v) => sp_local_assignment(v),
        AssignmentExpr::BinaryAssignment(v) => sp_binary_assignment(v),
        AssignmentExpr::BinaryInstallation(v) => sp_binary_installation(v),
        AssignmentExpr::PrefixAssignment(v) => sp_prefix_assignment(v),
        AssignmentExpr::PrefixInstallation(v) => sp_prefix_installation(v),
        AssignmentExpr::PostfixAssignment(v) => sp_postfix_assignment(v),
        AssignmentExpr::PostfixInstallation(v) => sp_postfix_installation(v),
        AssignmentExpr::StructuredBinding(v) => sp_structured_binding(v),
        AssignmentExpr::LocalStructuredBinding(v) => sp_local_structured_binding(v),
        AssignmentExpr::EvaluatedAssignment(v) => sp_evaluated_assignment(v),
    }
}

pub open spec fn tk_expr(x: Expr) -> Seq<TokenModel>
    decreases x, 0int,
{
    match x {
        Expr::Collection(v) => tk_collection(v),
        Expr::OperatorExpr(v) => tk_operator_expr(v),
        Expr::AssignmentExpr(v) => tk_assignment_expr(v),
        Expr::OptionExpression(v) => tk_option_expression(v),
        Expr::LambdaExpression(v) => tk_lambda_expression(v),
        Expr::IfStatement(v) => tk_if_statement(v),
        Expr::ForLoop(v) => tk_for_loop(v),
        Expr::WhileLoop(v) => tk_while_loop(v),
        Expr::TryStatement(v) => tk_try_statement(v),
        Expr::QuoteExpression(v) => tk_quote_expression(v),
        Expr::NewStatement(v) => tk_new_statement(v),
        Expr::BreakStatement(v) => tk_break_statement(v),
        Expr::ContinueStatement(v) => tk_continue_statement(v),
        Expr::ReturnStatement(v) => tk_return_statement(v),
        Expr::CatchStatement(v) => tk_catch_statement(v),
        Expr::ThrowStatement(v) => tk_throw_statement(v),
        Expr::TrapStatement(v) => tk_trap_statement(v),
        Expr::DebugClause(v) => tk_debug_clause(v),
        Expr::FloatLiteral(v) => tk_float_literal(v),
        Expr::IntegerLiteral(v) => tk_integer_literal(v),
        Expr::RawStringLiteral(v) => tk_raw_string_literal(v),
        Expr::StringLiteral(v) => tk_string_literal(v),
        Expr::Symbol(v) => tk_symbol(v),
    }
}

pub open spec fn sp_expr(x: Expr) -> Span
    decreases x, 0int,
{
    match x {
        Expr::Collection(v) => sp_collection(v),
        Expr::OperatorExpr(v) => sp_operator_expr(v),
        Expr::AssignmentExpr(v) => sp_assignment_expr(v),
        Expr::OptionExpression(v) => sp_option_expression(v),
        Expr::LambdaExpression(v) => sp_lambda_expression(v),
        Expr::IfStatement(v) => sp_if_statement(v),
        Expr::ForLoop(v) => sp_for_loop(v),
        Expr::WhileLoop(v) => sp_while_loop(v),
        Expr::TryStatement(v) => sp_try_statement(v),
        Expr::QuoteExpression(v) => sp_quote_expression(v),
        Expr::NewStatement(v) => sp_new_statement(v),
        Expr::BreakStatement(v) => sp_break_statement(v),
        Expr::ContinueStatement(v) => sp_continue_statement(v),
        Expr::ReturnStatement(v) => sp_return_statement(v),
        Expr::CatchStatement(v) => sp_catch_statement(v),
        Expr::ThrowStatement(v) => sp_throw_statement(v),
        Expr::TrapStatement(v) => sp_trap_statement(v),
        Expr::DebugClause(v) => sp_debug_clause(v),
        Expr::FloatLiteral(v) => sp_float_literal(v),
        Expr::IntegerLiteral(v) => sp_integer_literal(v),
        Expr::RawStringLiteral(v) => sp_raw_string_literal(v),
        Expr::StringLiteral(v) => sp_string_literal(v),
        Expr::Symbol(v) => sp_symbol(v),
    }
}

pub open spec fn tk_syntax_node(x: SyntaxNode) -> Seq<TokenModel>
{
    match x {
        SyntaxNode::SourceFile(v) => tk_source_file(v),
        SyntaxNode::AnyCell(v) => tk_any_cell(v),
        SyntaxNode::Expr(v) => tk_expr(v),
    }
}

pub open spec fn sp_syntax_node(x: SyntaxNode) -> Span
{
    match x {
        SyntaxNode::SourceFile(v) => sp_source_file(v),
        SyntaxNode::AnyCell(v) => sp_any_cell(v),
        SyntaxNode::Expr(v) => sp_expr(v),
    }
}

pub open spec fn tk_list_any_cell(s: Seq<AnyCell>, n: int) -> Seq<TokenModel>
    decreases n,
{
    if n <= 0 || n > s.len() {
        seq![]
    } else if n == 1 {
        tk_any_cell(s[0])
    } else {
        tk_list_any_cell(s, n - 1) + seq![detached_newline()] + tk_any_cell(s[n - 1])
    }
}

pub open spec fn sp_list_any_cell(s: Seq<AnyCell>, n: int) -> Seq<Span>
    decreases n,
{
    if n <= 0 || n > s.len() {
        seq![]
    } else {
        sp_list_any_cell(s, n - 1).push(sp_any_cell(s[n - 1]))
    }
}

pub open spec fn tk_list_muted_group(s: Seq<MutedGroup>, n: int) -> Seq<TokenModel>
    decreases s, n,
{
    if n <= 0 || n > s.len() {
        seq![]
    } else if n == 1 {
        proof {
            assert(decreases_to!(s => s[n - 1]));
        }
        tk_muted_group(s[0])
    } else {
        proof {
            assert(decreases_to!(s => s[n - 1]));
        }
        tk_list_muted_group(s, n - 1) + seq![detached_space()] + tk_muted_group(s[n - 1])
    }
}

pub open spec fn sp_list_muted_group(s: Seq<MutedGroup>, n: int) -> Seq<Span>
    decreases s, n,
{
    if n <= 0 || n > s.len() {
        seq![]
    } else {
        proof {
            assert(decreases_to!(s => s[n - 1]));
        }
        sp_list_muted_group(s, n - 1).push(sp_muted_group(s[n - 1]))
    }
}

pub open spec fn tk_list_string_element(s: Seq<StringElement>, n: int) -> Seq<TokenModel>
    decreases n,
{
    if n <= 0 || n > s.len() {
        seq![]
    } else if n == 1 {
        tk_string_element(s[0])
    } else {
        tk_list_string_element(s, n - 1) + seq![] + tk_string_element(s[n - 1])
    }
}

pub open spec fn sp_list_string_element(s: Seq<StringElement>, n: int) -> Seq<Span>
    decreases n,
{
    if n <= 0 || n > s.len() {
        seq![]
    } else {
        sp_list_string_element(s, n - 1).push(sp_string_element(s[n - 1]))
    }
}

pub open spec fn tk_list_raw_string_element(s: Seq<RawStringElement>, n: int) -> Seq<TokenModel>
    decreases n,
{
    if n <= 0 || n > s.len() {
        seq![]
    } else if n == 1 {
        tk_raw_string_element(s[0])
    } else {
        tk_list_raw_string_element(s, n - 1) + seq![] + tk_raw_string_element(s[n - 1])
    }
}

pub open spec fn sp_list_raw_string_element(s: Seq<RawStringElement>, n: int) -> Seq<Span>
    decreases n,
{
    if n <= 0 || n > s.len() {
        seq![]
    } else {
        sp_list_raw_string_element(s, n - 1).push(sp_raw_string_element(s[n - 1]))
    }
}

/// The tokens of the first `n` punctuated pairs: each component followed by its comma.
pub open spec fn tk_pairs(p: Punctuated<Component>, n: int) -> Seq<TokenModel>
    decreases p, n,
{
    if n <= 0 || n > p.spec_pairs().len() {
        seq![]
    } else {
        proof {
            lemma_punctuated_decreases(p);
            assert(decreases_to!(p => p.spec_pairs()[n - 1].0));
        }
        tk_pairs(p, n - 1) + tk_component(p.spec_pairs()[n - 1].0) + seq![p.spec_pairs()[n - 1].1.raw_model()]
    }
}

/// The spans of the components of the first `n` punctuated pairs.
pub open spec fn sp_pairs(p: Punctuated<Component>, n: int) -> Seq<Span>
    decreases p, n,
{
    if n <= 0 || n > p.spec_pairs().len() {
        seq![]
    } else {
        proof {
            lemma_punctuated_decreases(p);
            assert(decreases_to!(p => p.spec_pairs()[n - 1].0));
        }
        sp_pairs(p, n - 1).push(sp_component(p.spec_pairs()[n - 1].0))
    }
}

/// The spans of the commas of a comma sequence.
pub open spec fn comma_spans(p: Punctuated<Component>) -> Seq<Span> {
    p.spec_pairs().map_values(|q: (Component, _Cma)| model_span(q.1.raw_model()))
}

/// The tokens of a comma sequence.
pub open spec fn tk_punct(p: Punctuated<Component>) -> Seq<TokenModel> {
    tk_pairs(p, p.spec_pairs().len() as int) + match p.spec_last() {
        Some(v) => tk_component(v),
        None => seq![],
    }
}

/// The span of a comma sequence: its component spans, then its comma spans, joined.
pub open spec fn sp_punct(p: Punctuated<Component>) -> Span {
    span_cover_all(sp_pairs(p, p.spec_pairs().len() as int) + match p.spec_last() {
        Some(v) => seq![sp_component(v)],
        None => seq![],
    } + comma_spans(p))
}

// ---------------------------------------------------------------------------
// Emission helpers
// ---------------------------------------------------------------------------
proof fn lemma_last_is_trivia(s: TokenStream)
    requires
        s.0@.len() > 0,
    ensures
        s@.len() == s.0@.len(),
        (s@.last() is Trivia) == (s.0@.last() is Trivia),
        (s@[0] is Trivia) == (s.0@[0] is Trivia),
{
    crate::token_stream::lemma_seq_model_len(s.0@);
    crate::token_stream::lemma_seq_model_index(s.0@, s.0@.len() - 1);
    crate::token_stream::lemma_seq_model_index(s.0@, 0);
}

/// Appends the detached single space that separates fields.
pub fn push_space(output: &mut TokenStream)
    ensures
        final(output)@ == old(output)@.push(detached_space()),
{
    let space = Trivia::new(TriviaKind::Whitespace, " ", Span::detached());
    proof {
        reveal_strlit(" ");
        assert(space.text@ =~= seq![' ']);
    }
    output.push_trivia(space);
}

/// Appends the detached line break that separates cells.
pub fn push_newline(output: &mut TokenStream)
    ensures
        final(output)@ == old(output)@.push(detached_newline()),
{
    let newline = Trivia::new(TriviaKind::Whitespace, "\n", Span::detached());
    proof {
        reveal_strlit("\n");
        assert(newline.text@ =~= seq!['\n']);
    }
    output.push_trivia(newline);
}

/// Appends one emitted field to the contents with the field separator rule.
pub fn append_field(contents: &mut TokenStream, field: TokenStream)
    ensures
        final(contents)@ == join_field(old(contents)@, field@),
{
    proof {
        crate::token_stream::lemma_seq_model_len(field.0@);
        crate::token_stream::lemma_seq_model_len(contents.0@);
    }
    if field.is_empty() {
        proof {
            assert(field@.len() == 0);
        }
        return;
    }
    proof {
        lemma_last_is_trivia(field);
        if contents.0@.len() > 0 {
            lemma_last_is_trivia(*contents);
        }
    }
    if !contents.is_empty() && !contents.ends_with_whitespace() && !field.starts_with_whitespace() {
        push_space(contents);
    }
    contents.extend(field);
}

/// Emits a comma sequence: each component followed by its comma, then the last component.
pub fn emit_punct(p: &Punctuated<Component>, output: &mut TokenStream)
    ensures
        final(output)@ == old(output)@ + tk_punct(*p),
    decreases p, 0int,
{
    proof {
        lemma_punctuated_decreases(*p);
        crate::punct::lemma_values(*p);
    }
    let pairs = p.pairs();
    let n = pairs.len();
    let mut i: usize = 0;
    proof {
        assert(old(output)@ + tk_pairs(*p, 0) =~= old(output)@);
    }
    while i < n
        invariant
            n == pairs@.len(),
            n == p.values().len(),
            i <= n,
            forall|j: int|
                0 <= j < p.spec_pairs().len() ==> ((#[trigger] pairs@[j]) matches Pair::Punctuated(v, c) && *v
                    == p.spec_pairs()[j].0 && *c == p.spec_pairs()[j].1),
            p.spec_last() matches Some(v) ==> (pairs@.last() matches Pair::End(u) && *u == v),
            p.values() == crate::punct::punctuated_values(p.spec_pairs(), p.spec_last()),
            forall|j: int|
                0 <= j < p.spec_pairs().len() ==> decreases_to!(*p => #[trigger] p.spec_pairs()[j].0),
            p.spec_last() matches Some(v) ==> decreases_to!(*p => v),
            i <= p.spec_pairs().len() ==> output@ == old(output)@ + tk_pairs(*p, i as int),
            i > p.spec_pairs().len() ==> output@ == old(output)@ + tk_punct(*p),
        decreases n - i,
    {
        let ghost before = output@;
        match &pairs[i] {
            Pair::Punctuated(v, c) => {
                proof {
                    if i as int >= p.spec_pairs().len() {
                        assert(pairs@[i as int] == pairs@.last());
                    }
                }
                emit_component(*v, output);
                c.to_tokens(output);
                proof {
                    assert(c.spec_tokens() == seq![c.raw_model()]);
                    assert(output@ =~= old(output)@ + tk_pairs(*p, i + 1));
                }
            },
            Pair::End(v) => {
                proof {
                    if (i as int) < p.spec_pairs().len() {
                        assert(pairs@[i as int] matches Pair::Punctuated(_, _));
                    }
                    assert(p.values().len() == p.spec_pairs().len() + 1);
                    assert(i == p.spec_pairs().len());
                }
                emit_component(*v, output);
                proof {
                    assert(output@ =~= old(output)@ + tk_punct(*p));
                }
            },
        }
        i = i + 1;
    }
    proof {
        if p.spec_last() is None {
            assert(p.values().len() == p.spec_pairs().len());
            assert(output@ =~= old(output)@ + tk_punct(*p));
        }
    }
}

/// The span of a comma sequence.
pub fn span_of_punct(p: &Punctuated<Component>) -> (span: Span)
    ensures
        span == sp_punct(*p),
    decreases p, 0int,
{
    proof {
        lemma_punctuated_decreases(*p);
        crate::punct::lemma_values(*p);
    }
    let pairs = p.pairs();
    let n = pairs.len();
    let mut values: Vec<Span> = Vec::new();
    let mut commas: Vec<Span> = Vec::new();
    let mut i: usize = 0;
    while i < n
        invariant
            n == pairs@.len(),
            n == p.values().len(),
            i <= n,
            forall|j: int|
                0 <= j < p.spec_pairs().len() ==> ((#[trigger] pairs@[j]) matches Pair::Punctuated(v, c) && *v
                    == p.spec_pairs()[j].0 && *c == p.spec_pairs()[j].1),
            p.spec_last() matches Some(v) ==> (pairs@.last() matches Pair::End(u) && *u == v),
            p.values() == crate::punct::punctuated_values(p.spec_pairs(), p.spec_last()),
            forall|j: int|
                0 <= j < p.spec_pairs().len() ==> decreases_to!(*p => #[trigger] p.spec_pairs()[j].0),
            p.spec_last() matches Some(v) ==> decreases_to!(*p => v),
            i <= p.spec_pairs().len() ==> values@ == sp_pairs(*p, i as int),
            i <= p.spec_pairs().len() ==> commas@ == comma_spans(*p).subrange(0, i as int),
            i > p.spec_pairs().len() ==> values@ == sp_pairs(*p, p.spec_pairs().len() as int).push(
                sp_component(p.spec_last().unwrap()),
            ) && commas@ == comma_spans(*p),
        decreases n - i,
    {
        match &pairs[i] {
            Pair::Punctuated(v, c) => {
                proof {
                    if i as int >= p.spec_pairs().len() {
                        assert(pairs@[i as int] == pairs@.last());
                    }
                }
                let s = span_of_component(*v);
                values.push(s);
                commas.push(c.span());
                proof {
                    assert(commas@ =~= comma_spans(*p).subrange(0, i + 1));
                }
            },
            Pair::End(v) => {
                proof {
                    if (i as int) < p.spec_pairs().len() {
                        assert(pairs@[i as int] matches Pair::Punctuated(_, _));
                    }
                    assert(p.values().len() == p.spec_pairs().len() + 1);
                    assert(i == p.spec_pairs().len());
                    assert(comma_spans(*p).subrange(0, i as int) =~= comma_spans(*p));
                }
                let s = span_of_component(*v);
                values.push(s);
            },
        }
        i = i + 1;
    }
    proof {
        if p.spec_last() is None {
            assert(p.values().len() == p.spec_pairs().len());
            assert(comma_spans(*p).subrange(0, n as int) =~= comma_spans(*p));
        }
    }
    let mut all = values;
    all.append(&mut commas);
    proof {
        assert(all@ =~= sp_pairs(*p, p.spec_pairs().len() as int) + match p.spec_last() {
            Some(v) => seq![sp_component(v)],
            None => seq![],
        } + comma_spans(*p));
    }
    Span::cover_all(all.as_slice())
}

pub fn emit_symbol(x: &Symbol, output: &mut TokenStream)
    ensures
        final(output)@ == old(output)@ + tk_symbol(*x),
{
    let ghost before = output@;
    output.push_ident(IdentToken::new(x.text.as_str(), x.span));
    proof {
        assert(output@ =~= before + tk_symbol(*x));
    }
}

pub fn span_of_symbol(x: &Symbol) -> (span: Span)
    ensures
        span == sp_symbol(*x),
{
    x.span
}

impl Symbol {
    /// Creates this leaf from its source text and span.
    pub fn new(text: &str, span: Span) -> (x: Self)
        ensures
            x.text@ == text@,
            x.span == span,
    {
        Symbol { text: text.to_owned(), span }
    }

    /// The source text of this leaf.
    pub fn text(&self) -> (text: &str)
        ensures
            text@ == self.text@,
    {
        self.text.as_str()
    }
}

pub fn emit_block_comment(x: &BlockComment, output: &mut TokenStream)
    ensures
        final(output)@ == old(output)@ + tk_block_comment(*x),
{
    let ghost before = output@;
    output.push_trivia(Trivia::new(TriviaKind::BlockComment, x.text.as_str(), x.span));
    proof {
        assert(output@ =~= before + tk_block_comment(*x));
    }
}

pub fn span_of_block_comment(x: &BlockComment) -> (span: Span)
    ensures
        span == sp_block_comment(*x),
{
    x.span
}

impl BlockComment {
    /// Creates this leaf from its source text and span.
    pub fn new(text: &str, span: Span) -> (x: Self)
        ensures
            x.text@ == text@,
            x.span == span,
    {
        BlockComment { text: text.to_owned(), span }
    }

    /// The source text of this leaf.
    pub fn text(&self) -> (text: &str)
        ensures
            text@ == self.text@,
    {
        self.text.as_str()
    }
}

pub fn emit_line_comment(x: &LineComment, output: &mut TokenStream)
    ensures
        final(output)@ == old(output)@ + tk_line_comment(*x),
{
    let ghost before = output@;
    output.push_trivia(Trivia::new(TriviaKind::LineComment, x.text.as_str(), x.span));
    proof {
        assert(output@ =~= before + tk_line_comment(*x));
    }
}

pub fn span_of_line_comment(x: &LineComment) -> (span: Span)
    ensures
        span == sp_line_comment(*x),
{
    x.span
}

impl LineComment {
    /// Creates this leaf from its source text and span.
    pub fn new(text: &str, span: Span) -> (x: Self)
        ensures
            x.text@ == text@,
            x.span == span,
    {
        LineComment { text: text.to_owned(), span }
    }

    /// The source text of this leaf.
    pub fn text(&self) -> (text: &str)
        ensures
            text@ == self.text@,
    {
        self.text.as_str()
    }
}

pub fn emit_empty_component(x: &EmptyComponent, output: &mut TokenStream)
    ensures
        final(output)@ == old(output)@ + tk_empty_component(*x),
{
    let ghost before = output@;
    output.push_ident(IdentToken::new(x.text.as_str(), x.span));
    proof {
        assert(output@ =~= before + tk_empty_component(*x));
    }
}

pub fn span_of_empty_component(x: &EmptyComponent) -> (span: Span)
    ensures
        span == sp_empty_component(*x),
{
    x.span
}

impl EmptyComponent {
    /// Creates this leaf from its source text and span.
    pub fn new(text: &str, span: Span) -> (x: Self)
        ensures
            x.text@ == text@,
            x.span == span,
    {
        EmptyComponent { text: text.to_owned(), span }
    }

    /// The source text of this leaf.
    pub fn text(&self) -> (text: &str)
        ensures
            text@ == self.text@,
    {
        self.text.as_str()
    }
}

pub fn emit_escape_sequence(x: &EscapeSequence, output: &mut TokenStream)
    ensures
        final(output)@ == old(output)@ + tk_escape_sequence(*x),
{
    let ghost before = output@;
    output.push_ident(IdentToken::new(x.text.as_str(), x.span));
    proof {
        assert(output@ =~= before + tk_escape_sequence(*x));
    }
}

pub fn span_of_escape_sequence(x: &EscapeSequence) -> (span: Span)
    ensures
        span == sp_escape_sequence(*x),
{
    x.span
}

impl EscapeSequence {
    /// Creates this leaf from its source text and span.
    pub fn new(text: &str, span: Span) -> (x: Self)
        ensures
            x.text@ == text@,
            x.span == span,
    {
        EscapeSequence { text: text.to_owned(), span }
    }

    /// The source text of this leaf.
    pub fn text(&self) -> (text: &str)
        ensures
            text@ == self.text@,
    {
        self.text.as_str()
    }
}

pub fn emit_float_literal(x: &FloatLiteral, output: &mut TokenStream)
    ensures
        final(output)@ == old(output)@ + tk_float_literal(*x),
{
    let ghost before = output@;
    let text = x.text.as_str().to_owned();
    output.push_literal(Literal::new(LiteralKind::Float, text, x.span));
    proof {
        assert(output@ =~= before + tk_float_literal(*x));
    }
}

pub fn span_of_float_literal(x: &FloatLiteral) -> (span: Span)
    ensures
        span == sp_float_literal(*x),
{
    x.span
}

impl FloatLiteral {
    /// Creates this leaf from its source text and span.
    pub fn new(text: &str, span: Span) -> (x: Self)
        ensures
            x.text@ == text@,
            x.span == span,
    {
        FloatLiteral { text: text.to_owned(), span }
    }

    /// The source text of this leaf.
    pub fn text(&self) -> (text: &str)
        ensures
            text@ == self.text@,
    {
        self.text.as_str()
    }
}

pub fn emit_integer_literal(x: &IntegerLiteral, output: &mut TokenStream)
    ensures
        final(output)@ == old(output)@ + tk_integer_literal(*x),
{
    let ghost before = output@;
    let text = x.text.as_str().to_owned();
    output.push_literal(Literal::new(LiteralKind::Integer, text, x.span));
    proof {
        assert(output@ =~= before + tk_integer_literal(*x));
    }
}

pub fn span_of_integer_literal(x: &IntegerLiteral) -> (span: Span)
    ensures
        span == sp_integer_literal(*x),
{
    x.span
}

impl IntegerLiteral {
    /// Creates this leaf from its source text and span.
    pub fn new(text: &str, span: Span) -> (x: Self)
        ensures
            x.text@ == text@,
            x.span == span,
    {
        IntegerLiteral { text: text.to_owned(), span }
    }

    /// The source text of this leaf.
    pub fn text(&self) -> (text: &str)
        ensures
            text@ == self.text@,
    {
        self.text.as_str()
    }
}

pub fn emit_raw_string_content(x: &RawStringContent, output: &mut TokenStream)
    ensures
        final(output)@ == old(output)@ + tk_raw_string_content(*x),
{
    let ghost before = output@;
    output.push_ident(IdentToken::new(x.text.as_str(), x.span));
    proof {
        assert(output@ =~= before + tk_raw_string_content(*x));
    }
}

pub fn span_of_raw_string_content(x: &RawStringContent) -> (span: Span)
    ensures
        span == sp_raw_string_content(*x),
{
    x.span
}

impl RawStringContent {
    /// Creates this leaf from its source text and span.
    pub fn new(text: &str, span: Span) -> (x: Self)
        ensures
            x.text@ == text@,
            x.span == span,
    {
        RawStringContent { text: text.to_owned(), span }
    }

    /// The source text of this leaf.
    pub fn text(&self) -> (text: &str)
        ensures
            text@ == self.text@,
    {
        self.text.as_str()
    }
}

pub fn emit_string_content(x: &StringContent, output: &mut TokenStream)
    ensures
        final(output)@ == old(output)@ + tk_string_content(*x),
{
    let ghost before = output@;
    output.push_ident(IdentToken::new(x.text.as_str(), x.span));
    proof {
        assert(output@ =~= before + tk_string_content(*x));
    }
}

pub fn span_of_string_content(x: &StringContent) -> (span: Span)
    ensures
        span == sp_string_content(*x),
{
    x.span
}

impl StringContent {
    /// Creates this leaf from its source text and span.
    pub fn new(text: &str, span: Span) -> (x: Self)
        ensures
            x.text@ == text@,
            x.span == span,
    {
        StringContent { text: text.to_owned(), span }
    }

    /// The source text of this leaf.
    pub fn text(&self) -> (text: &str)
        ensures
            text@ == self.text@,
    {
        self.text.as_str()
    }
}

pub fn emit_debug_keyword(x: &DebugKeyword, output: &mut TokenStream)
    ensures
        final(output)@ == old(output)@ + tk_debug_keyword(*x),
{
    match x {
        DebugKeyword::Step(t) => {
            t.to_tokens(output);
            proof {
                assert(t.spec_tokens() == seq![t.raw_model()]);
            }
        },
        DebugKeyword::Finish(t) => {
            t.to_tokens(output);
            proof {
                assert(t.spec_tokens() == seq![t.raw_model()]);
            }
        },
        DebugKeyword::Shield(t) => {
            t.to_tokens(output);
            proof {
                assert(t.spec_tokens() == seq![t.raw_model()]);
            }
        },
        DebugKeyword::Test(t) => {
            t.to_tokens(output);
            proof {
                assert(t.spec_tokens() == seq![t.raw_model()]);
            }
        },
        DebugKeyword::Time(t) => {
            t.to_tokens(output);
            proof {
                assert(t.spec_tokens() == seq![t.raw_model()]);
            }
        },
        DebugKeyword::Timing(t) => {
            t.to_tokens(output);
            proof {
                assert(t.spec_tokens() == seq![t.raw_model()]);
            }
        },
        DebugKeyword::Breakpoint(t) => {
            t.to_tokens(output);
            proof {
                assert(t.spec_tokens() == seq![t.raw_model()]);
            }
        },
        DebugKeyword::ElapsedTime(t) => {
            t.to_tokens(output);
            proof {
                assert(t.spec_tokens() == seq![t.raw_model()]);
            }
        },
        DebugKeyword::ElapsedTiming(t) => {
            t.to_tokens(output);
            proof {
                assert(t.spec_tokens() == seq![t.raw_model()]);
            }
        },
        DebugKeyword::Profile(t) => {
            t.to_tokens(output);
            proof {
                assert(t.spec_tokens() == seq![t.raw_model()]);
            }
        },
    }
}

pub fn span_of_debug_keyword(x: &DebugKeyword) -> (span: Span)
    ensures
        span == sp_debug_keyword(*x),
{
    match x {
        DebugKeyword::Step(t) => t.span(),
        DebugKeyword::Finish(t) => t.span(),
        DebugKeyword::Shield(t) => t.span(),
        DebugKeyword::Test(t) => t.span(),
        DebugKeyword::Time(t) => t.span(),
        DebugKeyword::Timing(t) => t.span(),
        DebugKeyword::Breakpoint(t) => t.span(),
        DebugKeyword::ElapsedTime(t) => t.span(),
        DebugKeyword::ElapsedTiming(t) => t.span(),
        DebugKeyword::Profile(t) => t.span(),
    }
}

pub fn emit_quote_specifier(x: &QuoteSpecifier, output: &mut TokenStream)
    ensures
        final(output)@ == old(output)@ + tk_quote_specifier(*x),
{
    match x {
        QuoteSpecifier::Symbol(t) => {
            t.to_tokens(output);
            proof {
                assert(t.spec_tokens() == seq![t.raw_model()]);
            }
        },
        QuoteSpecifier::Local(t) => {
            t.to_tokens(output);
            proof {
                assert(t.spec_tokens() == seq![t.raw_model()]);
            }
        },
        QuoteSpecifier::Global(t) => {
            t.to_tokens(output);
            proof {
                assert(t.spec_tokens() == seq![t.raw_model()]);
            }
        },
        QuoteSpecifier::ThreadVariable(t) => {
            t.to_tokens(output);
            proof {
                assert(t.spec_tokens() == seq![t.raw_model()]);
            }
        },
        QuoteSpecifier::ThreadLocal(t) => {
            t.to_tokens(output);
            proof {
                assert(t.spec_tokens() == seq![t.raw_model()]);
            }
        },
    }
}

pub fn span_of_quote_specifier(x: &QuoteSpecifier) -> (span: Span)
    ensures
        span == sp_quote_specifier(*x),
{
    match x {
        QuoteSpecifier::Symbol(t) => t.span(),
        QuoteSpecifier::Local(t) => t.span(),
        QuoteSpecifier::Global(t) => t.span(),
        QuoteSpecifier::ThreadVariable(t) => t.span(),
        QuoteSpecifier::ThreadLocal(t) => t.span(),
    }
}

pub fn emit_source_file(x: &SourceFile, output: &mut TokenStream)
    ensures
        final(output)@ == old(output)@ + tk_source_file(*x),
{
    let mut contents = TokenStream::new();
    let ghost c0 = contents@;
    {
        let mut field = TokenStream::new();
        let mut i: usize = 0;
            while i < x.elements.len()
                invariant
                    i <= x.elements@.len(),
                    field@ == tk_list_any_cell(x.elements@, i as int),
                decreases x.elements@.len() - i,
            {
                if i != 0 {
                    push_newline(&mut field);
                }
                emit_any_cell(&x.elements[i], &mut field);
                proof {
                    assert(field@ =~= tk_list_any_cell(x.elements@, i + 1));
                }
                i = i + 1;
            }
        proof {
            assert(field@ =~= tk_list_any_cell(x.elements@, x.elements@.len() as int));
        }
        append_field(&mut contents, field);
    }
    output.extend(contents);
    proof {
        assert(output@ =~= old(output)@ + tk_source_file(*x));
    }
}

pub fn span_of_source_file(x: &SourceFile) -> (span: Span)
    ensures
        span == sp_source_file(*x),
{
    let s0 = span_of_list_any_cell(&x.elements);
    s0
}

impl SourceFile {
    /// Creates this node from its children.
    pub fn new(elements: Vec<AnyCell>) -> (x: Self)
        ensures
            x.elements == elements,
    {
        SourceFile { elements }
    }
}

pub fn emit_expression_cell(x: &ExpressionCell, output: &mut TokenStream)
    ensures
        final(output)@ == old(output)@ + tk_expression_cell(*x),
{
    let mut contents = TokenStream::new();
    let ghost c0 = contents@;
    {
        let mut field = TokenStream::new();
        emit_expr(&x.value, &mut field);
        proof {
            assert(field@ =~= tk_expr(*x.value));
        }
        append_field(&mut contents, field);
    }
    output.extend(contents);
    proof {
        assert(output@ =~= old(output)@ + tk_expression_cell(*x));
    }
}

pub fn span_of_expression_cell(x: &ExpressionCell) -> (span: Span)
    ensures
        span == sp_expression_cell(*x),
{
    let s0 = span_of_expr(&x.value);
    s0
}

impl ExpressionCell {
    /// Creates this node from its children.
    pub fn new(value: Expr) -> (x: Self)
        ensures
            *x.value == value,
    {
        ExpressionCell { value: Box::new(value) }
    }
}

pub fn emit_sequence_cell(x: &SequenceCell, output: &mut TokenStream)
    ensures
        final(output)@ == old(output)@ + tk_sequence_cell(*x),
{
    let mut contents = TokenStream::new();
    let ghost c0 = contents@;
    {
        let mut field = TokenStream::new();
        emit_naked_sequence(&x.value, &mut field);
        proof {
            assert(field@ =~= tk_naked_sequence(x.value));
        }
        append_field(&mut contents, field);
    }
    output.extend(contents);
    proof {
        assert(output@ =~= old(output)@ + tk_sequence_cell(*x));
    }
}

pub fn span_of_sequence_cell(x: &SequenceCell) -> (span: Span)
    ensures
        span == sp_sequence_cell(*x),
{
    let s0 = span_of_naked_sequence(&x.value);
    s0
}

impl SequenceCell {
    /// Creates this node from its children.
    pub fn new(value: NakedSequence) -> (x: Self)
        ensures
            x.value == value,
    {
        SequenceCell { value }
    }
}

pub fn emit_naked_sequence(x: &NakedSequence, output: &mut TokenStream)
    ensures
        final(output)@ == old(output)@ + tk_naked_sequence(*x),
{
    let mut contents = TokenStream::new();
    let ghost c0 = contents@;
    {
        let mut field = TokenStream::new();
        emit_punct(&x.elements, &mut field);
        proof {
            assert(field@ =~= (tk_pairs(x.elements, x.elements.spec_pairs().len() as int) + match x.elements.spec_last() { Some(v) => tk_component(v), None => seq![] }));
        }
        append_field(&mut contents, field);
    }
    output.extend(contents);
    proof {
        assert(output@ =~= old(output)@ + tk_naked_sequence(*x));
    }
}

pub fn span_of_naked_sequence(x: &NakedSequence) -> (span: Span)
    ensures
        span == sp_naked_sequence(*x),
{
    let s0 = span_of_punct(&x.elements);
    s0
}

impl NakedSequence {
    /// Creates this node from its children.
    pub fn new(elements: Punctuated<Component>) -> (x: Self)
        ensures
            x.elements == elements,
    {
        NakedSequence { elements }
    }
}

pub fn emit_muted_cell(x: &MutedCell, output: &mut TokenStream)
    ensures
        final(output)@ == old(output)@ + tk_muted_cell(*x),
{
    let mut contents = TokenStream::new();
    let ghost c0 = contents@;
    {
        let mut field = TokenStream::new();
        emit_punct(&x.elements, &mut field);
        proof {
            assert(field@ =~= (tk_pairs(x.elements, x.elements.spec_pairs().len() as int) + match x.elements.spec_last() { Some(v) => tk_component(v), None => seq![] }));
        }
        append_field(&mut contents, field);
    }
    {
        let mut field = TokenStream::new();
        x.semicolon.to_tokens(&mut field);
        proof {
            assert(x.semicolon.spec_tokens() == seq![x.semicolon.raw_model()]);
            assert(field@ =~= seq![x.semicolon.raw_model()]);
        }
        contents.extend(field);
    }
    output.extend(contents);
    proof {
        assert(output@ =~= old(output)@ + tk_muted_cell(*x));
    }
}

pub fn span_of_muted_cell(x: &MutedCell) -> (span: Span)
    ensures
        span == sp_muted_cell(*x),
{
    let s0 = span_of_punct(&x.elements);
    let s1 = x.semicolon.span();
    let mut span = s0;
    span = span.cover(s1);
    span
}

impl MutedCell {
    /// Creates this node from its children.
    pub fn new(elements: Punctuated<Component>, semicolon: _Scl) -> (x: Self)
        ensures
            x.elements == elements,
            x.semicolon == semicolon,
    {
        MutedCell { elements, semicolon }
    }
}

pub fn emit_muted_group(x: &MutedGroup, output: &mut TokenStream)
    ensures
        final(output)@ == old(output)@ + tk_muted_group(*x),
    decreases x, 0int,
{
    let mut contents = TokenStream::new();
    let ghost c0 = contents@;
    {
        let mut field = TokenStream::new();
        emit_punct(&x.elements, &mut field);
        proof {
            assert(field@ =~= (tk_pairs(x.elements, x.elements.spec_pairs().len() as int) + match x.elements.spec_last() { Some(v) => tk_component(v), None => seq![] }));
        }
        append_field(&mut contents, field);
    }
    {
        let mut field = TokenStream::new();
        x.semicolon.to_tokens(&mut field);
        proof {
            assert(x.semicolon.spec_tokens() == seq![x.semicolon.raw_model()]);
            assert(field@ =~= seq![x.semicolon.raw_model()]);
        }
        contents.extend(field);
    }
    output.extend(contents);
    proof {
        assert(output@ =~= old(output)@ + tk_muted_group(*x));
    }
}

pub fn span_of_muted_group(x: &MutedGroup) -> (span: Span)
    ensures
        span == sp_muted_group(*x),
    decreases x, 0int,
{
    let s0 = span_of_punct(&x.elements);
    let s1 = x.semicolon.span();
    let mut span = s0;
    span = span.cover(s1);
    span
}

impl MutedGroup {
    /// Creates this node from its children.
    pub fn new(elements: Punctuated<Component>, semicolon: _Scl) -> (x: Self)
        ensures
            x.elements == elements,
            x.semicolon == semicolon,
    {
        MutedGroup { elements, semicolon }
    }
}

pub fn emit_array(x: &Array, output: &mut TokenStream)
    ensures
        final(output)@ == old(output)@ + tk_array(*x),
    decreases x, 0int,
{
    let mut contents = TokenStream::new();
    let ghost c0 = contents@;
    {
        let mut field = TokenStream::new();
        let mut i: usize = 0;
            while i < x.muted.len()
                invariant
                    i <= x.muted@.len(),
                    field@ == tk_list_muted_group(x.muted@, i as int),
                decreases x.muted@.len() - i,
            {
                proof {
                    assert(decreases_to!(x => x.muted));
                    assert(decreases_to!(x.muted => x.muted@));
                    assert(decreases_to!(x.muted@ => x.muted@[i as int]));
                }
                if i != 0 {
                    push_space(&mut field);
                }
                emit_muted_group(&x.muted[i], &mut field);
                proof {
                    assert(field@ =~= tk_list_muted_group(x.muted@, i + 1));
                }
                i = i + 1;
            }
        proof {
            assert(field@ =~= tk_list_muted_group(x.muted@, x.muted@.len() as int));
        }
        append_field(&mut contents, field);
    }
    {
        let mut field = TokenStream::new();
        emit_punct(&x.elements, &mut field);
        proof {
            assert(field@ =~= (tk_pairs(x.elements, x.elements.spec_pairs().len() as int) + match x.elements.spec_last() { Some(v) => tk_component(v), None => seq![] }));
        }
        append_field(&mut contents, field);
    }
    x.delimiter.surround(output, contents);
    proof {
        assert(output@ =~= old(output)@ + tk_array(*x));
    }
}

pub fn span_of_array(x: &Array) -> (span: Span)
    ensures
        span == sp_array(*x),
    decreases x, 0int,
{
    let s0 = span_of_list_muted_group(&x.muted);
    let s1 = span_of_punct(&x.elements);
    let s2 = x.delimiter.span();
    let mut span = s0;
    span = span.cover(s1);
    span = span.cover(s2);
    span
}

impl Array {
    /// Creates this node from its children.
    pub fn new(muted: Vec<MutedGroup>, elements: Punctuated<Component>) -> (x: Self)
        ensures
            x.muted == muted,
            x.elements == elements,
            x.delimiter.spec_span() == span_cover(span_cover_all(sp_list_muted_group(x.muted@, x.muted@.len() as int)), span_cover_all(sp_pairs(x.elements, x.elements.spec_pairs().len() as int) + match x.elements.spec_last() { Some(v) => seq![sp_component(v)], None => seq![] } + comma_spans(x.elements))),
    {
        let mut x = Array { muted, elements, delimiter: _BracketDelimiter::new(Span::detached()) };
        let s0 = span_of_list_muted_group(&x.muted);
        let s1 = span_of_punct(&x.elements);
        let mut span = s0;
        span = span.cover(s1);
        x.delimiter = _BracketDelimiter::new(span);
        x
    }
}

pub fn emit_list(x: &List, output: &mut TokenStream)
    ensures
        final(output)@ == old(output)@ + tk_list(*x),
    decreases x, 0int,
{
    let mut contents = TokenStream::new();
    let ghost c0 = contents@;
    {
        let mut field = TokenStream::new();
        let mut i: usize = 0;
            while i < x.muted.len()
                invariant
                    i <= x.muted@.len(),
                    field@ == tk_list_muted_group(x.muted@, i as int),
                decreases x.muted@.len() - i,
            {
                proof {
                    assert(decreases_to!(x => x.muted));
                    assert(decreases_to!(x.muted => x.muted@));
                    assert(decreases_to!(x.muted@ => x.muted@[i as int]));
                }
                if i != 0 {
                    push_space(&mut field);
                }
                emit_muted_group(&x.muted[i], &mut field);
                proof {
                    assert(field@ =~= tk_list_muted_group(x.muted@, i + 1));
                }
                i = i + 1;
            }
        proof {
            assert(field@ =~= tk_list_muted_group(x.muted@, x.muted@.len() as int));
        }
        append_field(&mut contents, field);
    }
    {
        let mut field = TokenStream::new();
        emit_punct(&x.elements, &mut field);
        proof {
            assert(field@ =~= (tk_pairs(x.elements, x.elements.spec_pairs().len() as int) + match x.elements.spec_last() { Some(v) => tk_component(v), None => seq![] }));
        }
        append_field(&mut contents, field);
    }
    x.delimiter.surround(output, contents);
    proof {
        assert(output@ =~= old(output)@ + tk_list(*x));
    }
}

pub fn span_of_list(x: &List) -> (span: Span)
    ensures
        span == sp_list(*x),
    decreases x, 0int,
{
    let s0 = span_of_list_muted_group(&x.muted);
    let s1 = span_of_punct(&x.elements);
    let s2 = x.delimiter.span();
    let mut span = s0;
    span = span.cover(s1);
    span = span.cover(s2);
    span
}

impl List {
    /// Creates this node from its children.
    pub fn new(muted: Vec<MutedGroup>, elements: Punctuated<Component>) -> (x: Self)
        ensures
            x.muted == muted,
            x.elements == elements,
            x.delimiter.spec_span() == span_cover(span_cover_all(sp_list_muted_group(x.muted@, x.muted@.len() as int)), span_cover_all(sp_pairs(x.elements, x.elements.spec_pairs().len() as int) + match x.elements.spec_last() { Some(v) => seq![sp_component(v)], None => seq![] } + comma_spans(x.elements))),
    {
        let mut x = List { muted, elements, delimiter: _BraceDelimiter::new(Span::detached()) };
        let s0 = span_of_list_muted_group(&x.muted);
        let s1 = span_of_punct(&x.elements);
        let mut span = s0;
        span = span.cover(s1);
        x.delimiter = _BraceDelimiter::new(span);
        x
    }
}

pub fn emit_angle_bar_list(x: &AngleBarList, output: &mut TokenStream)
    ensures
        final(output)@ == old(output)@ + tk_angle_bar_list(*x),
    decreases x, 0int,
{
    let mut contents = TokenStream::new();
    let ghost c0 = contents@;
    {
        let mut field = TokenStream::new();
        let mut i: usize = 0;
            while i < x.muted.len()
                invariant
                    i <= x.muted@.len(),
                    field@ == tk_list_muted_group(x.muted@, i as int),
                decreases x.muted@.len() - i,
            {
                proof {
                    assert(decreases_to!(x => x.muted));
                    assert(decreases_to!(x.muted => x.muted@));
                    assert(decreases_to!(x.muted@ => x.muted@[i as int]));
                }
                if i != 0 {
                    push_space(&mut field);
                }
                emit_muted_group(&x.muted[i], &mut field);
                proof {
                    assert(field@ =~= tk_list_muted_group(x.muted@, i + 1));
                }
                i = i + 1;
            }
        proof {
            assert(field@ =~= tk_list_muted_group(x.muted@, x.muted@.len() as int));
        }
        append_field(&mut contents, field);
    }
    {
        let mut field = TokenStream::new();
        emit_punct(&x.elements, &mut field);
        proof {
            assert(field@ =~= (tk_pairs(x.elements, x.elements.spec_pairs().len() as int) + match x.elements.spec_last() { Some(v) => tk_component(v), None => seq![] }));
        }
        append_field(&mut contents, field);
    }
    x.delimiter.surround(output, contents);
    proof {
        assert(output@ =~= old(output)@ + tk_angle_bar_list(*x));
    }
}

pub fn span_of_angle_bar_list(x: &AngleBarList) -> (span: Span)
    ensures
        span == sp_angle_bar_list(*x),
    decreases x, 0int,
{
    let s0 = span_of_list_muted_group(&x.muted);
    let s1 = span_of_punct(&x.elements);
    let s2 = x.delimiter.span();
    let mut span = s0;
    span = span.cover(s1);
    span = span.cover(s2);
    span
}

impl AngleBarList {
    /// Creates this node from its children.
    pub fn new(muted: Vec<MutedGroup>, elements: Punctuated<Component>) -> (x: Self)
        ensures
            x.muted == muted,
            x.elements == elements,
            x.delimiter.spec_span() == span_cover(span_cover_all(sp_list_muted_group(x.muted@, x.muted@.len() as int)), span_cover_all(sp_pairs(x.elements, x.elements.spec_pairs().len() as int) + match x.elements.spec_last() { Some(v) => seq![sp_component(v)], None => seq![] } + comma_spans(x.elements))),
    {
        let mut x = AngleBarList { muted, elements, delimiter: _AngleBarDelimiter::new(Span::detached()) };
        let s0 = span_of_list_muted_group(&x.muted);
        let s1 = span_of_punct(&x.elements);
        let mut span = s0;
        span = span.cover(s1);
        x.delimiter = _AngleBarDelimiter::new(span);
        x
    }
}

pub fn emit_sequence(x: &Sequence, output: &mut TokenStream)
    ensures
        final(output)@ == old(output)@ + tk_sequence(*x),
    decreases x, 0int,
{
    let mut contents = TokenStream::new();
    let ghost c0 = contents@;
    {
        let mut field = TokenStream::new();
        let mut i: usize = 0;
            while i < x.muted.len()
                invariant
                    i <= x.muted@.len(),
                    field@ == tk_list_muted_group(x.muted@, i as int),
                decreases x.muted@.len() - i,
            {
                proof {
                    assert(decreases_to!(x => x.muted));
                    assert(decreases_to!(x.muted => x.muted@));
                    assert(decreases_to!(x.muted@ => x.muted@[i as int]));
                }
                if i != 0 {
                    push_space(&mut field);
                }
                emit_muted_group(&x.muted[i], &mut field);
                proof {
                    assert(field@ =~= tk_list_muted_group(x.muted@, i + 1));
                }
                i = i + 1;
            }
        proof {
            assert(field@ =~= tk_list_muted_group(x.muted@, x.muted@.len() as int));
        }
        append_field(&mut contents, field);
    }
    {
        let mut field = TokenStream::new();
        emit_punct(&x.elements, &mut field);
        proof {
            assert(field@ =~= (tk_pairs(x.elements, x.elements.spec_pairs().len() as int) + match x.elements.spec_last() { Some(v) => tk_component(v), None => seq![] }));
        }
        append_field(&mut contents, field);
    }
    x.delimiter.surround(output, contents);
    proof {
        assert(output@ =~= old(output)@ + tk_sequence(*x));
    }
}

pub fn span_of_sequence(x: &Sequence) -> (span: Span)
    ensures
        span == sp_sequence(*x),
    decreases x, 0int,
{
    let s0 = span_of_list_muted_group(&x.muted);
    let s1 = span_of_punct(&x.elements);
    let s2 = x.delimiter.span();
    let mut span = s0;
    span = span.cover(s1);
    span = span.cover(s2);
    span
}

impl Sequence {
    /// Creates this node from its children.
    pub fn new(muted: Vec<MutedGroup>, elements: Punctuated<Component>) -> (x: Self)
        ensures
            x.muted == muted,
            x.elements == elements,
            x.delimiter.spec_span() == span_cover(span_cover_all(sp_list_muted_group(x.muted@, x.muted@.len() as int)), span_cover_all(sp_pairs(x.elements, x.elements.spec_pairs().len() as int) + match x.elements.spec_last() { Some(v) => seq![sp_component(v)], None => seq![] } + comma_spans(x.elements))),
    {
        let mut x = Sequence { muted, elements, delimiter: _ParenthesisDelimiter::new(Span::detached()) };
        let s0 = span_of_list_muted_group(&x.muted);
        let s1 = span_of_punct(&x.elements);
        let mut span = s0;
        span = span.cover(s1);
        x.delimiter = _ParenthesisDelimiter::new(span);
        x
    }
}

pub fn emit_parenthesized_expression(x: &ParenthesizedExpression, output: &mut TokenStream)
    ensures
        final(output)@ == old(output)@ + tk_parenthesized_expression(*x),
    decreases x, 0int,
{
    let mut contents = TokenStream::new();
    let ghost c0 = contents@;
    {
        let mut field = TokenStream::new();
        let mut i: usize = 0;
            while i < x.muted.len()
                invariant
                    i <= x.muted@.len(),
                    field@ == tk_list_muted_group(x.muted@, i as int),
                decreases x.muted@.len() - i,
            {
                proof {
                    assert(decreases_to!(x => x.muted));
                    assert(decreases_to!(x.muted => x.muted@));
                    assert(decreases_to!(x.muted@ => x.muted@[i as int]));
                }
                if i != 0 {
                    push_space(&mut field);
                }
                emit_muted_group(&x.muted[i], &mut field);
                proof {
                    assert(field@ =~= tk_list_muted_group(x.muted@, i + 1));
                }
                i = i + 1;
            }
        proof {
            assert(field@ =~= tk_list_muted_group(x.muted@, x.muted@.len() as int));
        }
        append_field(&mut contents, field);
    }
    {
        let mut field = TokenStream::new();
        match &x.value { Some(e) => emit_expr(e, &mut field), None => {} }
        proof {
            assert(field@ =~= match x.value { Some(e) => tk_expr(*e), None => seq![] });
        }
        append_field(&mut contents, field);
    }
    x.delimiter.surround(output, contents);
    proof {
        assert(output@ =~= old(output)@ + tk_parenthesized_expression(*x));
    }
}

pub fn span_of_parenthesized_expression(x: &ParenthesizedExpression) -> (span: Span)
    ensures
        span == sp_parenthesized_expression(*x),
    decreases x, 0int,
{
    let s0 = span_of_list_muted_group(&x.muted);
    let s1 = match &x.value { Some(e) => span_of_expr(e), None => Span::detached() };
    let s2 = x.delimiter.span();
    let mut span = s0;
    span = span.cover(s1);
    span = span.cover(s2);
    span
}

impl ParenthesizedExpression {
    /// Creates this node from its children.
    pub fn new(muted: Vec<MutedGroup>, value: Option<Expr>) -> (x: Self)
        ensures
            x.muted == muted,
            x.value == match value { Some(e) => Some(Box::new(e)), None => None },
            x.delimiter.spec_span() == span_cover(span_cover_all(sp_list_muted_group(x.muted@, x.muted@.len() as int)), match x.value { Some(e) => sp_expr(*e), None => Span::Detached }),
    {
        let mut x = ParenthesizedExpression { muted, value: match value { Some(e) => Some(Box::new(e)), None => None }, delimiter: _ParenthesisDelimiter::new(Span::detached()) };
        let s0 = span_of_list_muted_group(&x.muted);
        let s1 = match &x.value { Some(e) => span_of_expr(e), None => Span::detached() };
        let mut span = s0;
        span = span.cover(s1);
        x.delimiter = _ParenthesisDelimiter::new(span);
        x
    }
}

pub fn emit_string_literal(x: &StringLiteral, output: &mut TokenStream)
    ensures
        final(output)@ == old(output)@ + tk_string_literal(*x),
{
    let mut contents = TokenStream::new();
    let ghost c0 = contents@;
    {
        let mut field = TokenStream::new();
        let mut i: usize = 0;
            while i < x.elements.len()
                invariant
                    i <= x.elements@.len(),
                    field@ == tk_list_string_element(x.elements@, i as int),
                decreases x.elements@.len() - i,
            {
                if i != 0 {
                    
                }
                emit_string_element(&x.elements[i], &mut field);
                proof {
                    assert(field@ =~= tk_list_string_element(x.elements@, i + 1));
                }
                i = i + 1;
            }
        proof {
            assert(field@ =~= tk_list_string_element(x.elements@, x.elements@.len() as int));
        }
        contents.extend(field);
    }
    let mut text = String::new();
    append_str(&mut text, "\"");
    contents.write_text(&mut text);
    append_str(&mut text, "\"");
    proof {
        reveal_strlit("\"");
        assert(text@ =~= seq!['"'] + models_text(contents@) + seq!['"']);
    }
    let span = span_of_string_literal(x);
    output.push_literal(Literal::new(LiteralKind::String, text, span));
    proof {
        assert(output@ =~= old(output)@ + tk_string_literal(*x));
    }
}

pub fn span_of_string_literal(x: &StringLiteral) -> (span: Span)
    ensures
        span == sp_string_literal(*x),
{
    let s0 = span_of_list_string_element(&x.elements);
    s0
}

impl StringLiteral {
    /// Creates this node from its children.
    pub fn new(elements: Vec<StringElement>) -> (x: Self)
        ensures
            x.elements == elements,
    {
        StringLiteral { elements }
    }
}

pub fn emit_raw_string_literal(x: &RawStringLiteral, output: &mut TokenStream)
    ensures
        final(output)@ == old(output)@ + tk_raw_string_literal(*x),
{
    let mut contents = TokenStream::new();
    let ghost c0 = contents@;
    {
        let mut field = TokenStream::new();
        let mut i: usize = 0;
            while i < x.elements.len()
                invariant
                    i <= x.elements@.len(),
                    field@ == tk_list_raw_string_element(x.elements@, i as int),
                decreases x.elements@.len() - i,
            {
                if i != 0 {
                    
                }
                emit_raw_string_element(&x.elements[i], &mut field);
                proof {
                    assert(field@ =~= tk_list_raw_string_element(x.elements@, i + 1));
                }
                i = i + 1;
            }
        proof {
            assert(field@ =~= tk_list_raw_string_element(x.elements@, x.elements@.len() as int));
        }
        contents.extend(field);
    }
    let mut text = String::new();
    append_str(&mut text, "///");
    contents.write_text(&mut text);
    append_str(&mut text, "///");
    proof {
        reveal_strlit("///");
        assert(text@ =~= seq!['/', '/', '/'] + models_text(contents@) + seq!['/', '/', '/']);
    }
    let span = span_of_raw_string_literal(x);
    output.push_literal(Literal::new(LiteralKind::RawString, text, span));
    proof {
        assert(output@ =~= old(output)@ + tk_raw_string_literal(*x));
    }
}

pub fn span_of_raw_string_literal(x: &RawStringLiteral) -> (span: Span)
    ensures
        span == sp_raw_string_literal(*x),
{
    let s0 = span_of_list_raw_string_element(&x.elements);
    s0
}

impl RawStringLiteral {
    /// Creates this node from its children.
    pub fn new(elements: Vec<RawStringElement>) -> (x: Self)
        ensures
            x.elements == elements,
    {
        RawStringLiteral { elements }
    }
}

pub fn emit_binary_expression(x: &BinaryExpression, output: &mut TokenStream)
    ensures
        final(output)@ == old(output)@ + tk_binary_expression(*x),
    decreases x, 0int,
{
    let mut contents = TokenStream::new();
    let ghost c0 = contents@;
    {
        let mut field = TokenStream::new();
        emit_expr(&x.left, &mut field);
        proof {
            assert(field@ =~= tk_expr(*x.left));
        }
        append_field(&mut contents, field);
    }
    {
        let mut field = TokenStream::new();
        x.operator.to_tokens(&mut field);
        proof {
            assert(x.operator.spec_tokens() == seq![x.operator.raw_model()]);
            assert(field@ =~= seq![x.operator.raw_model()]);
        }
        append_field(&mut contents, field);
    }
    {
        let mut field = TokenStream::new();
        emit_expr(&x.right, &mut field);
        proof {
            assert(field@ =~= tk_expr(*x.right));
        }
        append_field(&mut contents, field);
    }
    output.extend(contents);
    proof {
        assert(output@ =~= old(output)@ + tk_binary_expression(*x));
    }
}

pub fn span_of_binary_expression(x: &BinaryExpression) -> (span: Span)
    ensures
        span == sp_binary_expression(*x),
    decreases x, 0int,
{
    let s0 = span_of_expr(&x.left);
    let s1 = x.operator.span();
    let s2 = span_of_expr(&x.right);
    let mut span = s0;
    span = span.cover(s1);
    span = span.cover(s2);
    span
}

impl BinaryExpression {
    /// Creates this node from its children.
    pub fn new(left: Expr, operator: BinaryOperator, right: Expr) -> (x: Self)
        ensures
            *x.left == left,
            x.operator == operator,
            *x.right == right,
    {
        BinaryExpression { left: Box::new(left), operator, right: Box::new(right) }
    }
}

pub fn emit_adjacent_expression(x: &AdjacentExpression, output: &mut TokenStream)
    ensures
        final(output)@ == old(output)@ + tk_adjacent_expression(*x),
    decreases x, 0int,
{
    let mut contents = TokenStream::new();
    let ghost c0 = contents@;
    {
        let mut field = TokenStream::new();
        emit_expr(&x.left, &mut field);
        proof {
            assert(field@ =~= tk_expr(*x.left));
        }
        append_field(&mut contents, field);
    }
    {
        let mut field = TokenStream::new();
        emit_expr(&x.right, &mut field);
        proof {
            assert(field@ =~= tk_expr(*x.right));
        }
        append_field(&mut contents, field);
    }
    output.extend(contents);
    proof {
        assert(output@ =~= old(output)@ + tk_adjacent_expression(*x));
    }
}

pub fn span_of_adjacent_expression(x: &AdjacentExpression) -> (span: Span)
    ensures
        span == sp_adjacent_expression(*x),
    decreases x, 0int,
{
    let s0 = span_of_expr(&x.left);
    let s1 = span_of_expr(&x.right);
    let mut span = s0;
    span = span.cover(s1);
    span
}

impl AdjacentExpression {
    /// Creates this node from its children.
    pub fn new(left: Expr, right: Expr) -> (x: Self)
        ensures
            *x.left == left,
            *x.right == right,
    {
        AdjacentExpression { left: Box::new(left), right: Box::new(right) }
    }
}

pub fn emit_prefix_expression(x: &PrefixExpression, output: &mut TokenStream)
    ensures
        final(output)@ == old(output)@ + tk_prefix_expression(*x),
    decreases x, 0int,
{
    let mut contents = TokenStream::new();
    let ghost c0 = contents@;
    {
        let mut field = TokenStream::new();
        x.operator.to_tokens(&mut field);
        proof {
            assert(x.operator.spec_tokens() == seq![x.operator.raw_model()]);
            assert(field@ =~= seq![x.operator.raw_model()]);
        }
        append_field(&mut contents, field);
    }
    {
        let mut field = TokenStream::new();
        emit_expr(&x.operand, &mut field);
        proof {
            assert(field@ =~= tk_expr(*x.operand));
        }
        append_field(&mut contents, field);
    }
    output.extend(contents);
    proof {
        assert(output@ =~= old(output)@ + tk_prefix_expression(*x));
    }
}

pub fn span_of_prefix_expression(x: &PrefixExpression) -> (span: Span)
    ensures
        span == sp_prefix_expression(*x),
    decreases x, 0int,
{
    let s0 = x.operator.span();
    let s1 = span_of_expr(&x.operand);
    let mut span = s0;
    span = span.cover(s1);
    span
}

impl PrefixExpression {
    /// Creates this node from its children.
    pub fn new(operator: PrefixOperator, operand: Expr) -> (x: Self)
        ensures
            x.operator == operator,
            *x.operand == operand,
    {
        PrefixExpression { operator, operand: Box::new(operand) }
    }
}

pub fn emit_postfix_expression(x: &PostfixExpression, output: &mut TokenStream)
    ensures
        final(output)@ == old(output)@ + tk_postfix_expression(*x),
    decreases x, 0int,
{
    let mut contents = TokenStream::new();
    let ghost c0 = contents@;
    {
        let mut field = TokenStream::new();
        emit_expr(&x.operand, &mut field);
        proof {
            assert(field@ =~= tk_expr(*x.operand));
        }
        append_field(&mut contents, field);
    }
    {
        let mut field = TokenStream::new();
        x.operator.to_tokens(&mut field);
        proof {
            assert(x.operator.spec_tokens() == seq![x.operator.raw_model()]);
            assert(field@ =~= seq![x.operator.raw_model()]);
        }
        append_field(&mut contents, field);
    }
    output.extend(contents);
    proof {
        assert(output@ =~= old(output)@ + tk_postfix_expression(*x));
    }
}

pub fn span_of_postfix_expression(x: &PostfixExpression) -> (span: Span)
    ensures
        span == sp_postfix_expression(*x),
    decreases x, 0int,
{
    let s0 = span_of_expr(&x.operand);
    let s1 = x.operator.span();
    let mut span = s0;
    span = span.cover(s1);
    span
}

impl PostfixExpression {
    /// Creates this node from its children.
    pub fn new(operand: Expr, operator: PostfixOperator) -> (x: Self)
        ensures
            *x.operand == operand,
            x.operator == operator,
    {
        PostfixExpression { operand: Box::new(operand), operator }
    }
}

pub fn emit_lambda_expression(x: &LambdaExpression, output: &mut TokenStream)
    ensures
        final(output)@ == old(output)@ + tk_lambda_expression(*x),
    decreases x, 0int,
{
    let mut contents = TokenStream::new();
    let ghost c0 = contents@;
    {
        let mut field = TokenStream::new();
        emit_lambda_parameters(&x.parameters, &mut field);
        proof {
            assert(field@ =~= tk_lambda_parameters(x.parameters));
        }
        append_field(&mut contents, field);
    }
    {
        let mut field = TokenStream::new();
        x.operator.to_tokens(&mut field);
        proof {
            assert(x.operator.spec_tokens() == seq![x.operator.raw_model()]);
            assert(field@ =~= seq![x.operator.raw_model()]);
        }
        append_field(&mut contents, field);
    }
    {
        let mut field = TokenStream::new();
        emit_expr(&x.body, &mut field);
        proof {
            assert(field@ =~= tk_expr(*x.body));
        }
        append_field(&mut contents, field);
    }
    output.extend(contents);
    proof {
        assert(output@ =~= old(output)@ + tk_lambda_expression(*x));
    }
}

pub fn span_of_lambda_expression(x: &LambdaExpression) -> (span: Span)
    ensures
        span == sp_lambda_expression(*x),
    decreases x, 0int,
{
    let s0 = span_of_lambda_parameters(&x.parameters);
    let s1 = x.operator.span();
    let s2 = span_of_expr(&x.body);
    let mut span = s0;
    span = span.cover(s1);
    span = span.cover(s2);
    span
}

impl LambdaExpression {
    /// Creates this node from its children.
    pub fn new(parameters: LambdaParameters, operator: _SubGst, body: Expr) -> (x: Self)
        ensures
            x.parameters == parameters,
            x.operator == operator,
            *x.body == body,
    {
        LambdaExpression { parameters, operator, body: Box::new(body) }
    }
}

pub fn emit_assignment(x: &Assignment, output: &mut TokenStream)
    ensures
        final(output)@ == old(output)@ + tk_assignment(*x),
    decreases x, 0int,
{
    let mut contents = TokenStream::new();
    let ghost c0 = contents@;
    {
        let mut field = TokenStream::new();
        emit_symbol(&x.left, &mut field);
        proof {
            assert(field@ =~= tk_symbol(x.left));
        }
        append_field(&mut contents, field);
    }
    {
        let mut field = TokenStream::new();
        x.operator.to_tokens(&mut field);
        proof {
            assert(x.operator.spec_tokens() == seq![x.operator.raw_model()]);
            assert(field@ =~= seq![x.operator.raw_model()]);
        }
        append_field(&mut contents, field);
    }
    {
        let mut field = TokenStream::new();
        emit_expr(&x.right, &mut field);
        proof {
            assert(field@ =~= tk_expr(*x.right));
        }
        append_field(&mut contents, field);
    }
    output.extend(contents);
    proof {
        assert(output@ =~= old(output)@ + tk_assignment(*x));
    }
}

pub fn span_of_assignment(x: &Assignment) -> (span: Span)
    ensures
        span == sp_assignment(*x),
    decreases x, 0int,
{
    let s0 = span_of_symbol(&x.left);
    let s1 = x.operator.span();
    let s2 = span_of_expr(&x.right);
    let mut span = s0;
    span = span.cover(s1);
    span = span.cover(s2);
    span
}

impl Assignment {
    /// Creates this node from its children.
    pub fn new(left: Symbol, operator: _Eql, right: Expr) -> (x: Self)
        ensures
            x.left == left,
            x.operator == operator,
            *x.right == right,
    {
        Assignment { left, operator, right: Box::new(right) }
    }
}

pub fn emit_local_assignment(x: &LocalAssignment, output: &mut TokenStream)
    ensures
        final(output)@ == old(output)@ + tk_local_assignment(*x),
    decreases x, 0int,
{
    let mut contents = TokenStream::new();
    let ghost c0 = contents@;
    {
        let mut field = TokenStream::new();
        emit_symbol(&x.left, &mut field);
        proof {
            assert(field@ =~= tk_symbol(x.left));
        }
        append_field(&mut contents, field);
    }
    {
        let mut field = TokenStream::new();
        x.operator.to_tokens(&mut field);
        proof {
            assert(x.operator.spec_tokens() == seq![x.operator.raw_model()]);
            assert(field@ =~= seq![x.operator.raw_model()]);
        }
        append_field(&mut contents, field);
    }
    {
        let mut field = TokenStream::new();
        emit_expr(&x.right, &mut field);
        proof {
            assert(field@ =~= tk_expr(*x.right));
        }
        append_field(&mut contents, field);
    }
    output.extend(contents);
    proof {
        assert(output@ =~= old(output)@ + tk_local_assignment(*x));
    }
}

pub fn span_of_local_assignment(x: &LocalAssignment) -> (span: Span)
    ensures
        span == sp_local_assignment(*x),
    decreases x, 0int,
{
    let s0 = span_of_symbol(&x.left);
    let s1 = x.operator.span();
    let s2 = span_of_expr(&x.right);
    let mut span = s0;
    span = span.cover(s1);
    span = span.cover(s2);
    span
}

impl LocalAssignment {
    /// Creates this node from its children.
    pub fn new(left: Symbol, operator: _ColEql, right: Expr) -> (x: Self)
        ensures
            x.left == left,
            x.operator == operator,
            *x.right == right,
    {
        LocalAssignment { left, operator, right: Box::new(right) }
    }
}

pub fn emit_binary_assignment(x: &BinaryAssignment, output: &mut TokenStream)
    ensures
        final(output)@ == old(output)@ + tk_binary_assignment(*x),
    decreases x, 0int,
{
    let mut contents = TokenStream::new();
    let ghost c0 = contents@;
    {
        let mut field = TokenStream::new();
        emit_binary_expression(&x.left, &mut field);
        proof {
            assert(field@ =~= tk_binary_expression(x.left));
        }
        append_field(&mut contents, field);
    }
    {
        let mut field = TokenStream::new();
        x.operator.to_tokens(&mut field);
        proof {
            assert(x.operator.spec_tokens() == seq![x.operator.raw_model()]);
            assert(field@ =~= seq![x.operator.raw_model()]);
        }
        append_field(&mut contents, field);
    }
    {
        let mut field = TokenStream::new();
        emit_expr(&x.right, &mut field);
        proof {
            assert(field@ =~= tk_expr(*x.right));
        }
        append_field(&mut contents, field);
    }
    output.extend(contents);
    proof {
        assert(output@ =~= old(output)@ + tk_binary_assignment(*x));
    }
}

pub fn span_of_binary_assignment(x: &BinaryAssignment) -> (span: Span)
    ensures
        span == sp_binary_assignment(*x),
    decreases x, 0int,
{
    let s0 = span_of_binary_expression(&x.left);
    let s1 = x.operator.span();
    let s2 = span_of_expr(&x.right);
    let mut span = s0;
    span = span.cover(s1);
    span = span.cover(s2);
    span
}

impl BinaryAssignment {
    /// Creates this node from its children.
    pub fn new(left: BinaryExpression, operator: _Eql, right: Expr) -> (x: Self)
        ensures
            x.left == left,
            x.operator == operator,
            *x.right == right,
    {
        BinaryAssignment { left, operator, right: Box::new(right) }
    }
}

pub fn emit_binary_installation(x: &BinaryInstallation, output: &mut TokenStream)
    ensures
        final(output)@ == old(output)@ + tk_binary_installation(*x),
    decreases x, 0int,
{
    let mut contents = TokenStream::new();
    let ghost c0 = contents@;
    {
        let mut field = TokenStream::new();
        emit_binary_expression(&x.left, &mut field);
        proof {
            assert(field@ =~= tk_binary_expression(x.left));
        }
        append_field(&mut contents, field);
    }
    {
        let mut field = TokenStream::new();
        x.operator.to_tokens(&mut field);
        proof {
            assert(x.operator.spec_tokens() == seq![x.operator.raw_model()]);
            assert(field@ =~= seq![x.operator.raw_model()]);
        }
        append_field(&mut contents, field);
    }
    {
        let mut field = TokenStream::new();
        emit_expr(&x.right, &mut field);
        proof {
            assert(field@ =~= tk_expr(*x.right));
        }
        append_field(&mut contents, field);
    }
    output.extend(contents);
    proof {
        assert(output@ =~= old(output)@ + tk_binary_installation(*x));
    }
}

pub fn span_of_binary_installation(x: &BinaryInstallation) -> (span: Span)
    ensures
        span == sp_binary_installation(*x),
    decreases x, 0int,
{
    let s0 = span_of_binary_expression(&x.left);
    let s1 = x.operator.span();
    let s2 = span_of_expr(&x.right);
    let mut span = s0;
    span = span.cover(s1);
    span = span.cover(s2);
    span
}

impl BinaryInstallation {
    /// Creates this node from its children.
    pub fn new(left: BinaryExpression, operator: _ColEql, right: Expr) -> (x: Self)
        ensures
            x.left == left,
            x.operator == operator,
            *x.right == right,
    {
        BinaryInstallation { left, operator, right: Box::new(right) }
    }
}

pub fn emit_prefix_assignment(x: &PrefixAssignment, output: &mut TokenStream)
    ensures
        final(output)@ == old(output)@ + tk_prefix_assignment(*x),
    decreases x, 0int,
{
    let mut contents = TokenStream::new();
    let ghost c0 = contents@;
    {
        let mut field = TokenStream::new();
        emit_prefix_expression(&x.left, &mut field);
        proof {
            assert(field@ =~= tk_prefix_expression(x.left));
        }
        append_field(&mut contents, field);
    }
    {
        let mut field = TokenStream::new();
        x.operator.to_tokens(&mut field);
        proof {
            assert(x.operator.spec_tokens() == seq![x.operator.raw_model()]);
            assert(field@ =~= seq![x.operator.raw_model()]);
        }
        append_field(&mut contents, field);
    }
    {
        let mut field = TokenStream::new();
        emit_expr(&x.right, &mut field);
        proof {
            assert(field@ =~= tk_expr(*x.right));
        }
        append_field(&mut contents, field);
    }
    output.extend(contents);
    proof {
        assert(output@ =~= old(output)@ + tk_prefix_assignment(*x));
    }
}

pub fn span_of_prefix_assignment(x: &PrefixAssignment) -> (span: Span)
    ensures
        span == sp_prefix_assignment(*x),
    decreases x, 0int,
{
    let s0 = span_of_prefix_expression(&x.left);
    let s1 = x.operator.span();
    let s2 = span_of_expr(&x.right);
    let mut span = s0;
    span = span.cover(s1);
    span = span.cover(s2);
    span
}

impl PrefixAssignment {
    /// Creates this node from its children.
    pub fn new(left: PrefixExpression, operator: _Eql, right: Expr) -> (x: Self)
        ensures
            x.left == left,
            x.operator == operator,
            *x.right == right,
    {
        PrefixAssignment { left, operator, right: Box::new(right) }
    }
}

pub fn emit_prefix_installation(x: &PrefixInstallation, output: &mut TokenStream)
    ensures
        final(output)@ == old(output)@ + tk_prefix_installation(*x),
    decreases x, 0int,
{
    let mut contents = TokenStream::new();
    let ghost c0 = contents@;
    {
        let mut field = TokenStream::new();
        emit_prefix_expression(&x.left, &mut field);
        proof {
            assert(field@ =~= tk_prefix_expression(x.left));
        }
        append_field(&mut contents, field);
    }
    {
        let mut field = TokenStream::new();
        x.operator.to_tokens(&mut field);
        proof {
            assert(x.operator.spec_tokens() == seq![x.operator.raw_model()]);
            assert(field@ =~= seq![x.operator.raw_model()]);
        }
        append_field(&mut contents, field);
    }
    {
        let mut field = TokenStream::new();
        emit_expr(&x.right, &mut field);
        proof {
            assert(field@ =~= tk_expr(*x.right));
        }
        append_field(&mut contents, field);
    }
    output.extend(contents);
    proof {
        assert(output@ =~= old(output)@ + tk_prefix_installation(*x));
    }
}

pub fn span_of_prefix_installation(x: &PrefixInstallation) -> (span: Span)
    ensures
        span == sp_prefix_installation(*x),
    decreases x, 0int,
{
    let s0 = span_of_prefix_expression(&x.left);
    let s1 = x.operator.span();
    let s2 = span_of_expr(&x.right);
    let mut span = s0;
    span = span.cover(s1);
    span = span.cover(s2);
    span
}

impl PrefixInstallation {
    /// Creates this node from its children.
    pub fn new(left: PrefixExpression, operator: _ColEql, right: Expr) -> (x: Self)
        ensures
            x.left == left,
            x.operator == operator,
            *x.right == right,
    {
        PrefixInstallation { left, operator, right: Box::new(right) }
    }
}

pub fn emit_postfix_assignment(x: &PostfixAssignment, output: &mut TokenStream)
    ensures
        final(output)@ == old(output)@ + tk_postfix_assignment(*x),
    decreases x, 0int,
{
    let mut contents = TokenStream::new();
    let ghost c0 = contents@;
    {
        let mut field = TokenStream::new();
        emit_postfix_expression(&x.left, &mut field);
        proof {
            assert(field@ =~= tk_postfix_expression(x.left));
        }
        append_field(&mut contents, field);
    }
    {
        let mut field = TokenStream::new();
        x.operator.to_tokens(&mut field);
        proof {
            assert(x.operator.spec_tokens() == seq![x.operator.raw_model()]);
            assert(field@ =~= seq![x.operator.raw_model()]);
        }
        append_field(&mut contents, field);
    }
    {
        let mut field = TokenStream::new();
        emit_expr(&x.right, &mut field);
        proof {
            assert(field@ =~= tk_expr(*x.right));
        }
        append_field(&mut contents, field);
    }
    output.extend(contents);
    proof {
        assert(output@ =~= old(output)@ + tk_postfix_assignment(*x));
    }
}

pub fn span_of_postfix_assignment(x: &PostfixAssignment) -> (span: Span)
    ensures
        span == sp_postfix_assignment(*x),
    decreases x, 0int,
{
    let s0 = span_of_postfix_expression(&x.left);
    let s1 = x.operator.span();
    let s2 = span_of_expr(&x.right);
    let mut span = s0;
    span = span.cover(s1);
    span = span.cover(s2);
    span
}

impl PostfixAssignment {
    /// Creates this node from its children.
    pub fn new(left: PostfixExpression, operator: _Eql, right: Expr) -> (x: Self)
        ensures
            x.left == left,
            x.operator == operator,
            *x.right == right,
    {
        PostfixAssignment { left, operator, right: Box::new(right) }
    }
}

pub fn emit_postfix_installation(x: &PostfixInstallation, output: &mut TokenStream)
    ensures
        final(output)@ == old(output)@ + tk_postfix_installation(*x),
    decreases x, 0int,
{
    let mut contents = TokenStream::new();
    let ghost c0 = contents@;
    {
        let mut field = TokenStream::new();
        emit_postfix_expression(&x.left, &mut field);
        proof {
            assert(field@ =~= tk_postfix_expression(x.left));
        }
        append_field(&mut contents, field);
    }
    {
        let mut field = TokenStream::new();
        x.operator.to_tokens(&mut field);
        proof {
            assert(x.operator.spec_tokens() == seq![x.operator.raw_model()]);
            assert(field@ =~= seq![x.operator.raw_model()]);
        }
        append_field(&mut contents, field);
    }
    {
        let mut field = TokenStream::new();
        emit_expr(&x.right, &mut field);
        proof {
            assert(field@ =~= tk_expr(*x.right));
        }
        append_field(&mut contents, field);
    }
    output.extend(contents);
    proof {
        assert(output@ =~= old(output)@ + tk_postfix_installation(*x));
    }
}

pub fn span_of_postfix_installation(x: &PostfixInstallation) -> (span: Span)
    ensures
        span == sp_postfix_installation(*x),
    decreases x, 0int,
{
    let s0 = span_of_postfix_expression(&x.left);
    let s1 = x.operator.span();
    let s2 = span_of_expr(&x.right);
    let mut span = s0;
    span = span.cover(s1);
    span = span.cover(s2);
    span
}

impl PostfixInstallation {
    /// Creates this node from its children.
    pub fn new(left: PostfixExpression, operator: _ColEql, right: Expr) -> (x: Self)
        ensures
            x.left == left,
            x.operator == operator,
            *x.right == right,
    {
        PostfixInstallation { left, operator, right: Box::new(right) }
    }
}

pub fn emit_structured_binding(x: &StructuredBinding, output: &mut TokenStream)
    ensures
        final(output)@ == old(output)@ + tk_structured_binding(*x),
    decreases x, 0int,
{
    let mut contents = TokenStream::new();
    let ghost c0 = contents@;
    {
        let mut field = TokenStream::new();
        emit_binding_pack(&x.binding_pack, &mut field);
        proof {
            assert(field@ =~= tk_binding_pack(x.binding_pack));
        }
        append_field(&mut contents, field);
    }
    {
        let mut field = TokenStream::new();
        x.operator.to_tokens(&mut field);
        proof {
            assert(x.operator.spec_tokens() == seq![x.operator.raw_model()]);
            assert(field@ =~= seq![x.operator.raw_model()]);
        }
        append_field(&mut contents, field);
    }
    {
        let mut field = TokenStream::new();
        emit_expr(&x.right, &mut field);
        proof {
            assert(field@ =~= tk_expr(*x.right));
        }
        append_field(&mut contents, field);
    }
    output.extend(contents);
    proof {
        assert(output@ =~= old(output)@ + tk_structured_binding(*x));
    }
}

pub fn span_of_structured_binding(x: &StructuredBinding) -> (span: Span)
    ensures
        span == sp_structured_binding(*x),
    decreases x, 0int,
{
    let s0 = span_of_binding_pack(&x.binding_pack);
    let s1 = x.operator.span();
    let s2 = span_of_expr(&x.right);
    let mut span = s0;
    span = span.cover(s1);
    span = span.cover(s2);
    span
}

impl StructuredBinding {
    /// Creates this node from its children.
    pub fn new(binding_pack: BindingPack, operator: _Eql, right: Expr) -> (x: Self)
        ensures
            x.binding_pack == binding_pack,
            x.operator == operator,
            *x.right == right,
    {
        StructuredBinding { binding_pack, operator, right: Box::new(right) }
    }
}

pub fn emit_local_structured_binding(x: &LocalStructuredBinding, output: &mut TokenStream)
    ensures
        final(output)@ == old(output)@ + tk_local_structured_binding(*x),
    decreases x, 0int,
{
    let mut contents = TokenStream::new();
    let ghost c0 = contents@;
    {
        let mut field = TokenStream::new();
        emit_binding_pack(&x.binding_pack, &mut field);
        proof {
            assert(field@ =~= tk_binding_pack(x.binding_pack));
        }
        append_field(&mut contents, field);
    }
    {
        let mut field = TokenStream::new();
        x.operator.to_tokens(&mut field);
        proof {
            assert(x.operator.spec_tokens() == seq![x.operator.raw_model()]);
            assert(field@ =~= seq![x.operator.raw_model()]);
        }
        append_field(&mut contents, field);
    }
    {
        let mut field = TokenStream::new();
        emit_expr(&x.right, &mut field);
        proof {
            assert(field@ =~= tk_expr(*x.right));
        }
        append_field(&mut contents, field);
    }
    output.extend(contents);
    proof {
        assert(output@ =~= old(output)@ + tk_local_structured_binding(*x));
    }
}

pub fn span_of_local_structured_binding(x: &LocalStructuredBinding) -> (span: Span)
    ensures
        span == sp_local_structured_binding(*x),
    decreases x, 0int,
{
    let s0 = span_of_binding_pack(&x.binding_pack);
    let s1 = x.operator.span();
    let s2 = span_of_expr(&x.right);
    let mut span = s0;
    span = span.cover(s1);
    span = span.cover(s2);
    span
}

impl LocalStructuredBinding {
    /// Creates this node from its children.
    pub fn new(binding_pack: BindingPack, operator: _ColEql, right: Expr) -> (x: Self)
        ensures
            x.binding_pack == binding_pack,
            x.operator == operator,
            *x.right == right,
    {
        LocalStructuredBinding { binding_pack, operator, right: Box::new(right) }
    }
}

pub fn emit_evaluated_assignment(x: &EvaluatedAssignment, output: &mut TokenStream)
    ensures
        final(output)@ == old(output)@ + tk_evaluated_assignment(*x),
    decreases x, 0int,
{
    let mut contents = TokenStream::new();
    let ghost c0 = contents@;
    {
        let mut field = TokenStream::new();
        emit_expr(&x.left, &mut field);
        proof {
            assert(field@ =~= tk_expr(*x.left));
        }
        append_field(&mut contents, field);
    }
    {
        let mut field = TokenStream::new();
        x.operator.to_tokens(&mut field);
        proof {
            assert(x.operator.spec_tokens() == seq![x.operator.raw_model()]);
            assert(field@ =~= seq![x.operator.raw_model()]);
        }
        append_field(&mut contents, field);
    }
    {
        let mut field = TokenStream::new();
        emit_expr(&x.right, &mut field);
        proof {
            assert(field@ =~= tk_expr(*x.right));
        }
        append_field(&mut contents, field);
    }
    output.extend(contents);
    proof {
        assert(output@ =~= old(output)@ + tk_evaluated_assignment(*x));
    }
}

pub fn span_of_evaluated_assignment(x: &EvaluatedAssignment) -> (span: Span)
    ensures
        span == sp_evaluated_assignment(*x),
    decreases x, 0int,
{
    let s0 = span_of_expr(&x.left);
    let s1 = x.operator.span();
    let s2 = span_of_expr(&x.right);
    let mut span = s0;
    span = span.cover(s1);
    span = span.cover(s2);
    span
}

impl EvaluatedAssignment {
    /// Creates this node from its children.
    pub fn new(left: Expr, operator: _LstSub, right: Expr) -> (x: Self)
        ensures
            *x.left == left,
            x.operator == operator,
            *x.right == right,
    {
        EvaluatedAssignment { left: Box::new(left), operator, right: Box::new(right) }
    }
}

pub fn emit_option_expression(x: &OptionExpression, output: &mut TokenStream)
    ensures
        final(output)@ == old(output)@ + tk_option_expression(*x),
    decreases x, 0int,
{
    let mut contents = TokenStream::new();
    let ghost c0 = contents@;
    {
        let mut field = TokenStream::new();
        emit_expr(&x.left, &mut field);
        proof {
            assert(field@ =~= tk_expr(*x.left));
        }
        append_field(&mut contents, field);
    }
    {
        let mut field = TokenStream::new();
        x.operator.to_tokens(&mut field);
        proof {
            assert(x.operator.spec_tokens() == seq![x.operator.raw_model()]);
            assert(field@ =~= seq![x.operator.raw_model()]);
        }
        append_field(&mut contents, field);
    }
    {
        let mut field = TokenStream::new();
        emit_expr(&x.right, &mut field);
        proof {
            assert(field@ =~= tk_expr(*x.right));
        }
        append_field(&mut contents, field);
    }
    output.extend(contents);
    proof {
        assert(output@ =~= old(output)@ + tk_option_expression(*x));
    }
}

pub fn span_of_option_expression(x: &OptionExpression) -> (span: Span)
    ensures
        span == sp_option_expression(*x),
    decreases x, 0int,
{
    let s0 = span_of_expr(&x.left);
    let s1 = x.operator.span();
    let s2 = span_of_expr(&x.right);
    let mut span = s0;
    span = span.cover(s1);
    span = span.cover(s2);
    span
}

impl OptionExpression {
    /// Creates this node from its children.
    pub fn new(left: Expr, operator: _EqlGst, right: Expr) -> (x: Self)
        ensures
            *x.left == left,
            x.operator == operator,
            *x.right == right,
    {
        OptionExpression { left: Box::new(left), operator, right: Box::new(right) }
    }
}

pub fn emit_then_clause(x: &ThenClause, output: &mut TokenStream)
    ensures
        final(output)@ == old(output)@ + tk_then_clause(*x),
    decreases x, 0int,
{
    let mut contents = TokenStream::new();
    let ghost c0 = contents@;
    {
        let mut field = TokenStream::new();
        x.keyword.to_tokens(&mut field);
        proof {
            assert(x.keyword.spec_tokens() == seq![x.keyword.raw_model()]);
            assert(field@ =~= seq![x.keyword.raw_model()]);
        }
        append_field(&mut contents, field);
    }
    {
        let mut field = TokenStream::new();
        emit_expr(&x.value, &mut field);
        proof {
            assert(field@ =~= tk_expr(*x.value));
        }
        append_field(&mut contents, field);
    }
    output.extend(contents);
    proof {
        assert(output@ =~= old(output)@ + tk_then_clause(*x));
    }
}

pub fn span_of_then_clause(x: &ThenClause) -> (span: Span)
    ensures
        span == sp_then_clause(*x),
    decreases x, 0int,
{
    let s0 = x.keyword.span();
    let s1 = span_of_expr(&x.value);
    let mut span = s0;
    span = span.cover(s1);
    span
}

impl ThenClause {
    /// Creates this node from its children.
    pub fn new(keyword: _ThenKeyword, value: Expr) -> (x: Self)
        ensures
            x.keyword == keyword,
            *x.value == value,
    {
        ThenClause { keyword, value: Box::new(value) }
    }
}

pub fn emit_else_clause(x: &ElseClause, output: &mut TokenStream)
    ensures
        final(output)@ == old(output)@ + tk_else_clause(*x),
    decreases x, 0int,
{
    let mut contents = TokenStream::new();
    let ghost c0 = contents@;
    {
        let mut field = TokenStream::new();
        x.keyword.to_tokens(&mut field);
        proof {
            assert(x.keyword.spec_tokens() == seq![x.keyword.raw_model()]);
            assert(field@ =~= seq![x.keyword.raw_model()]);
        }
        append_field(&mut contents, field);
    }
    {
        let mut field = TokenStream::new();
        emit_expr(&x.value, &mut field);
        proof {
            assert(field@ =~= tk_expr(*x.value));
        }
        append_field(&mut contents, field);
    }
    output.extend(contents);
    proof {
        assert(output@ =~= old(output)@ + tk_else_clause(*x));
    }
}

pub fn span_of_else_clause(x: &ElseClause) -> (span: Span)
    ensures
        span == sp_else_clause(*x),
    decreases x, 0int,
{
    let s0 = x.keyword.span();
    let s1 = span_of_expr(&x.value);
    let mut span = s0;
    span = span.cover(s1);
    span
}

impl ElseClause {
    /// Creates this node from its children.
    pub fn new(keyword: _ElseKeyword, value: Expr) -> (x: Self)
        ensures
            x.keyword == keyword,
            *x.value == value,
    {
        ElseClause { keyword, value: Box::new(value) }
    }
}

pub fn emit_if_statement(x: &IfStatement, output: &mut TokenStream)
    ensures
        final(output)@ == old(output)@ + tk_if_statement(*x),
    decreases x, 0int,
{
    let mut contents = TokenStream::new();
    let ghost c0 = contents@;
    {
        let mut field = TokenStream::new();
        x.keyword.to_tokens(&mut field);
        proof {
            assert(x.keyword.spec_tokens() == seq![x.keyword.raw_model()]);
            assert(field@ =~= seq![x.keyword.raw_model()]);
        }
        append_field(&mut contents, field);
    }
    {
        let mut field = TokenStream::new();
        emit_expr(&x.condition, &mut field);
        proof {
            assert(field@ =~= tk_expr(*x.condition));
        }
        append_field(&mut contents, field);
    }
    {
        let mut field = TokenStream::new();
        emit_then_clause(&x.then_clause, &mut field);
        proof {
            assert(field@ =~= tk_then_clause(x.then_clause));
        }
        append_field(&mut contents, field);
    }
    {
        let mut field = TokenStream::new();
        match &x.else_clause { Some(v) => emit_else_clause(v, &mut field), None => {} }
        proof {
            assert(field@ =~= match x.else_clause { Some(v) => tk_else_clause(v), None => seq![] });
        }
        append_field(&mut contents, field);
    }
    output.extend(contents);
    proof {
        assert(output@ =~= old(output)@ + tk_if_statement(*x));
    }
}

pub fn span_of_if_statement(x: &IfStatement) -> (span: Span)
    ensures
        span == sp_if_statement(*x),
    decreases x, 0int,
{
    let s0 = x.keyword.span();
    let s1 = span_of_expr(&x.condition);
    let s2 = span_of_then_clause(&x.then_clause);
    let s3 = match &x.else_clause { Some(v) => span_of_else_clause(v), None => Span::detached() };
    let mut span = s0;
    span = span.cover(s1);
    span = span.cover(s2);
    span = span.cover(s3);
    span
}

impl IfStatement {
    /// Creates this node from its children.
    pub fn new(keyword: _IfKeyword, condition: Expr, then_clause: ThenClause, else_clause: Option<ElseClause>) -> (x: Self)
        ensures
            x.keyword == keyword,
            *x.condition == condition,
            x.then_clause == then_clause,
            x.else_clause == else_clause,
    {
        IfStatement { keyword, condition: Box::new(condition), then_clause, else_clause }
    }
}

pub fn emit_loop_body(x: &LoopBody, output: &mut TokenStream)
    ensures
        final(output)@ == old(output)@ + tk_loop_body(*x),
    decreases x, 0int,
{
    let mut contents = TokenStream::new();
    let ghost c0 = contents@;
    {
        let mut field = TokenStream::new();
        match &x.list_keyword { Some(t) => { t.to_tokens(&mut field); proof { assert(t.spec_tokens() == seq![t.raw_model()]); } }, None => {} }
        proof {
            assert(field@ =~= match x.list_keyword { Some(t) => seq![t.raw_model()], None => seq![] });
        }
        append_field(&mut contents, field);
    }
    {
        let mut field = TokenStream::new();
        match &x.listed_value { Some(e) => emit_expr(e, &mut field), None => {} }
        proof {
            assert(field@ =~= match x.listed_value { Some(e) => tk_expr(*e), None => seq![] });
        }
        append_field(&mut contents, field);
    }
    {
        let mut field = TokenStream::new();
        match &x.do_keyword { Some(t) => { t.to_tokens(&mut field); proof { assert(t.spec_tokens() == seq![t.raw_model()]); } }, None => {} }
        proof {
            assert(field@ =~= match x.do_keyword { Some(t) => seq![t.raw_model()], None => seq![] });
        }
        append_field(&mut contents, field);
    }
    {
        let mut field = TokenStream::new();
        match &x.ignored_value { Some(e) => emit_expr(e, &mut field), None => {} }
        proof {
            assert(field@ =~= match x.ignored_value { Some(e) => tk_expr(*e), None => seq![] });
        }
        append_field(&mut contents, field);
    }
    output.extend(contents);
    proof {
        assert(output@ =~= old(output)@ + tk_loop_body(*x));
    }
}

pub fn span_of_loop_body(x: &LoopBody) -> (span: Span)
    ensures
        span == sp_loop_body(*x),
    decreases x, 0int,
{
    let s0 = match &x.list_keyword { Some(t) => t.span(), None => Span::detached() };
    let s1 = match &x.listed_value { Some(e) => span_of_expr(e), None => Span::detached() };
    let s2 = match &x.do_keyword { Some(t) => t.span(), None => Span::detached() };
    let s3 = match &x.ignored_value { Some(e) => span_of_expr(e), None => Span::detached() };
    let mut span = s0;
    span = span.cover(s1);
    span = span.cover(s2);
    span = span.cover(s3);
    span
}

impl LoopBody {
    /// Creates this node from its children.
    pub fn new(list_keyword: Option<_ListKeyword>, listed_value: Option<Expr>, do_keyword: Option<_DoKeyword>, ignored_value: Option<Expr>) -> (x: Self)
        ensures
            x.list_keyword == list_keyword,
            x.listed_value == match listed_value { Some(e) => Some(Box::new(e)), None => None },
            x.do_keyword == do_keyword,
            x.ignored_value == match ignored_value { Some(e) => Some(Box::new(e)), None => None },
    {
        LoopBody { list_keyword, listed_value: match listed_value { Some(e) => Some(Box::new(e)), None => None }, do_keyword, ignored_value: match ignored_value { Some(e) => Some(Box::new(e)), None => None } }
    }
}

pub fn emit_iteration_range(x: &IterationRange, output: &mut TokenStream)
    ensures
        final(output)@ == old(output)@ + tk_iteration_range(*x),
    decreases x, 0int,
{
    let mut contents = TokenStream::new();
    let ghost c0 = contents@;
    {
        let mut field = TokenStream::new();
        match &x.in_keyword { Some(t) => { t.to_tokens(&mut field); proof { assert(t.spec_tokens() == seq![t.raw_model()]); } }, None => {} }
        proof {
            assert(field@ =~= match x.in_keyword { Some(t) => seq![t.raw_model()], None => seq![] });
        }
        append_field(&mut contents, field);
    }
    {
        let mut field = TokenStream::new();
        match &x.iterated_collection { Some(e) => emit_expr(e, &mut field), None => {} }
        proof {
            assert(field@ =~= match x.iterated_collection { Some(e) => tk_expr(*e), None => seq![] });
        }
        append_field(&mut contents, field);
    }
    {
        let mut field = TokenStream::new();
        match &x.from_keyword { Some(t) => { t.to_tokens(&mut field); proof { assert(t.spec_tokens() == seq![t.raw_model()]); } }, None => {} }
        proof {
            assert(field@ =~= match x.from_keyword { Some(t) => seq![t.raw_model()], None => seq![] });
        }
        append_field(&mut contents, field);
    }
    {
        let mut field = TokenStream::new();
        match &x.range_start { Some(e) => emit_expr(e, &mut field), None => {} }
        proof {
            assert(field@ =~= match x.range_start { Some(e) => tk_expr(*e), None => seq![] });
        }
        append_field(&mut contents, field);
    }
    {
        let mut field = TokenStream::new();
        match &x.to_keyword { Some(t) => { t.to_tokens(&mut field); proof { assert(t.spec_tokens() == seq![t.raw_model()]); } }, None => {} }
        proof {
            assert(field@ =~= match x.to_keyword { Some(t) => seq![t.raw_model()], None => seq![] });
        }
        append_field(&mut contents, field);
    }
    {
        let mut field = TokenStream::new();
        match &x.range_end { Some(e) => emit_expr(e, &mut field), None => {} }
        proof {
            assert(field@ =~= match x.range_end { Some(e) => tk_expr(*e), None => seq![] });
        }
        append_field(&mut contents, field);
    }
    output.extend(contents);
    proof {
        assert(output@ =~= old(output)@ + tk_iteration_range(*x));
    }
}

pub fn span_of_iteration_range(x: &IterationRange) -> (span: Span)
    ensures
        span == sp_iteration_range(*x),
    decreases x, 0int,
{
    let s0 = match &x.in_keyword { Some(t) => t.span(), None => Span::detached() };
    let s1 = match &x.iterated_collection { Some(e) => span_of_expr(e), None => Span::detached() };
    let s2 = match &x.from_keyword { Some(t) => t.span(), None => Span::detached() };
    let s3 = match &x.range_start { Some(e) => span_of_expr(e), None => Span::detached() };
    let s4 = match &x.to_keyword { Some(t) => t.span(), None => Span::detached() };
    let s5 = match &x.range_end { Some(e) => span_of_expr(e), None => Span::detached() };
    let mut span = s0;
    span = span.cover(s1);
    span = span.cover(s2);
    span = span.cover(s3);
    span = span.cover(s4);
    span = span.cover(s5);
    span
}

impl IterationRange {
    /// Creates this node from its children.
    pub fn new(in_keyword: Option<_InKeyword>, iterated_collection: Option<Expr>, from_keyword: Option<_FromKeyword>, range_start: Option<Expr>, to_keyword: Option<_ToKeyword>, range_end: Option<Expr>) -> (x: Self)
        ensures
            x.in_keyword == in_keyword,
            x.iterated_collection == match iterated_collection { Some(e) => Some(Box::new(e)), None => None },
            x.from_keyword == from_keyword,
            x.range_start == match range_start { Some(e) => Some(Box::new(e)), None => None },
            x.to_keyword == to_keyword,
            x.range_end == match range_end { Some(e) => Some(Box::new(e)), None => None },
    {
        IterationRange { in_keyword, iterated_collection: match iterated_collection { Some(e) => Some(Box::new(e)), None => None }, from_keyword, range_start: match range_start { Some(e) => Some(Box::new(e)), None => None }, to_keyword, range_end: match range_end { Some(e) => Some(Box::new(e)), None => None } }
    }
}

pub fn emit_for_loop(x: &ForLoop, output: &mut TokenStream)
    ensures
        final(output)@ == old(output)@ + tk_for_loop(*x),
    decreases x, 0int,
{
    let mut contents = TokenStream::new();
    let ghost c0 = contents@;
    {
        let mut field = TokenStream::new();
        x.keyword.to_tokens(&mut field);
        proof {
            assert(x.keyword.spec_tokens() == seq![x.keyword.raw_model()]);
            assert(field@ =~= seq![x.keyword.raw_model()]);
        }
        append_field(&mut contents, field);
    }
    {
        let mut field = TokenStream::new();
        emit_symbol(&x.variable, &mut field);
        proof {
            assert(field@ =~= tk_symbol(x.variable));
        }
        append_field(&mut contents, field);
    }
    {
        let mut field = TokenStream::new();
        match &x.range { Some(v) => emit_iteration_range(v, &mut field), None => {} }
        proof {
            assert(field@ =~= match x.range { Some(v) => tk_iteration_range(*v), None => seq![] });
        }
        append_field(&mut contents, field);
    }
    {
        let mut field = TokenStream::new();
        match &x.when_keyword { Some(t) => { t.to_tokens(&mut field); proof { assert(t.spec_tokens() == seq![t.raw_model()]); } }, None => {} }
        proof {
            assert(field@ =~= match x.when_keyword { Some(t) => seq![t.raw_model()], None => seq![] });
        }
        append_field(&mut contents, field);
    }
    {
        let mut field = TokenStream::new();
        match &x.filter { Some(e) => emit_expr(e, &mut field), None => {} }
        proof {
            assert(field@ =~= match x.filter { Some(e) => tk_expr(*e), None => seq![] });
        }
        append_field(&mut contents, field);
    }
    {
        let mut field = TokenStream::new();
        emit_loop_body(&x.body, &mut field);
        proof {
            assert(field@ =~= tk_loop_body(x.body));
        }
        append_field(&mut contents, field);
    }
    output.extend(contents);
    proof {
        assert(output@ =~= old(output)@ + tk_for_loop(*x));
    }
}

pub fn span_of_for_loop(x: &ForLoop) -> (span: Span)
    ensures
        span == sp_for_loop(*x),
    decreases x, 0int,
{
    let s0 = x.keyword.span();
    let s1 = span_of_symbol(&x.variable);
    let s2 = match &x.range { Some(v) => span_of_iteration_range(v), None => Span::detached() };
    let s3 = match &x.when_keyword { Some(t) => t.span(), None => Span::detached() };
    let s4 = match &x.filter { Some(e) => span_of_expr(e), None => Span::detached() };
    let s5 = span_of_loop_body(&x.body);
    let mut span = s0;
    span = span.cover(s1);
    span = span.cover(s2);
    span = span.cover(s3);
    span = span.cover(s4);
    span = span.cover(s5);
    span
}

impl ForLoop {
    /// Creates this node from its children.
    pub fn new(keyword: _ForKeyword, variable: Symbol, range: Option<IterationRange>, when_keyword: Option<_WhenKeyword>, filter: Option<Expr>, body: LoopBody) -> (x: Self)
        ensures
            x.keyword == keyword,
            x.variable == variable,
            x.range == match range { Some(v) => Some(Box::new(v)), None => None },
            x.when_keyword == when_keyword,
            x.filter == match filter { Some(e) => Some(Box::new(e)), None => None },
            x.body == body,
    {
        ForLoop { keyword, variable, range: match range { Some(v) => Some(Box::new(v)), None => None }, when_keyword, filter: match filter { Some(e) => Some(Box::new(e)), None => None }, body }
    }
}

pub fn emit_while_loop(x: &WhileLoop, output: &mut TokenStream)
    ensures
        final(output)@ == old(output)@ + tk_while_loop(*x),
    decreases x, 0int,
{
    let mut contents = TokenStream::new();
    let ghost c0 = contents@;
    {
        let mut field = TokenStream::new();
        x.keyword.to_tokens(&mut field);
        proof {
            assert(x.keyword.spec_tokens() == seq![x.keyword.raw_model()]);
            assert(field@ =~= seq![x.keyword.raw_model()]);
        }
        append_field(&mut contents, field);
    }
    {
        let mut field = TokenStream::new();
        emit_expr(&x.condition, &mut field);
        proof {
            assert(field@ =~= tk_expr(*x.condition));
        }
        append_field(&mut contents, field);
    }
    {
        let mut field = TokenStream::new();
        emit_loop_body(&x.body, &mut field);
        proof {
            assert(field@ =~= tk_loop_body(x.body));
        }
        append_field(&mut contents, field);
    }
    output.extend(contents);
    proof {
        assert(output@ =~= old(output)@ + tk_while_loop(*x));
    }
}

pub fn span_of_while_loop(x: &WhileLoop) -> (span: Span)
    ensures
        span == sp_while_loop(*x),
    decreases x, 0int,
{
    let s0 = x.keyword.span();
    let s1 = span_of_expr(&x.condition);
    let s2 = span_of_loop_body(&x.body);
    let mut span = s0;
    span = span.cover(s1);
    span = span.cover(s2);
    span
}

impl WhileLoop {
    /// Creates this node from its children.
    pub fn new(keyword: _WhileKeyword, condition: Expr, body: LoopBody) -> (x: Self)
        ensures
            x.keyword == keyword,
            *x.condition == condition,
            x.body == body,
    {
        WhileLoop { keyword, condition: Box::new(condition), body }
    }
}

pub fn emit_new_statement(x: &NewStatement, output: &mut TokenStream)
    ensures
        final(output)@ == old(output)@ + tk_new_statement(*x),
    decreases x, 0int,
{
    let mut contents = TokenStream::new();
    let ghost c0 = contents@;
    {
        let mut field = TokenStream::new();
        x.keyword.to_tokens(&mut field);
        proof {
            assert(x.keyword.spec_tokens() == seq![x.keyword.raw_model()]);
            assert(field@ =~= seq![x.keyword.raw_model()]);
        }
        append_field(&mut contents, field);
    }
    {
        let mut field = TokenStream::new();
        emit_expr(&x.class, &mut field);
        proof {
            assert(field@ =~= tk_expr(*x.class));
        }
        append_field(&mut contents, field);
    }
    {
        let mut field = TokenStream::new();
        match &x.of_keyword { Some(t) => { t.to_tokens(&mut field); proof { assert(t.spec_tokens() == seq![t.raw_model()]); } }, None => {} }
        proof {
            assert(field@ =~= match x.of_keyword { Some(t) => seq![t.raw_model()], None => seq![] });
        }
        append_field(&mut contents, field);
    }
    {
        let mut field = TokenStream::new();
        match &x.parent { Some(e) => emit_expr(e, &mut field), None => {} }
        proof {
            assert(field@ =~= match x.parent { Some(e) => tk_expr(*e), None => seq![] });
        }
        append_field(&mut contents, field);
    }
    {
        let mut field = TokenStream::new();
        match &x.from_keyword { Some(t) => { t.to_tokens(&mut field); proof { assert(t.spec_tokens() == seq![t.raw_model()]); } }, None => {} }
        proof {
            assert(field@ =~= match x.from_keyword { Some(t) => seq![t.raw_model()], None => seq![] });
        }
        append_field(&mut contents, field);
    }
    {
        let mut field = TokenStream::new();
        match &x.instance { Some(e) => emit_expr(e, &mut field), None => {} }
        proof {
            assert(field@ =~= match x.instance { Some(e) => tk_expr(*e), None => seq![] });
        }
        append_field(&mut contents, field);
    }
    output.extend(contents);
    proof {
        assert(output@ =~= old(output)@ + tk_new_statement(*x));
    }
}

pub fn span_of_new_statement(x: &NewStatement) -> (span: Span)
    ensures
        span == sp_new_statement(*x),
    decreases x, 0int,
{
    let s0 = x.keyword.span();
    let s1 = span_of_expr(&x.class);
    let s2 = match &x.of_keyword { Some(t) => t.span(), None => Span::detached() };
    let s3 = match &x.parent { Some(e) => span_of_expr(e), None => Span::detached() };
    let s4 = match &x.from_keyword { Some(t) => t.span(), None => Span::detached() };
    let s5 = match &x.instance { Some(e) => span_of_expr(e), None => Span::detached() };
    let mut span = s0;
    span = span.cover(s1);
    span = span.cover(s2);
    span = span.cover(s3);
    span = span.cover(s4);
    span = span.cover(s5);
    span
}

impl NewStatement {
    /// Creates this node from its children.
    pub fn new(keyword: _NewKeyword, class: Expr, of_keyword: Option<_OfKeyword>, parent: Option<Expr>, from_keyword: Option<_FromKeyword>, instance: Option<Expr>) -> (x: Self)
        ensures
            x.keyword == keyword,
            *x.class == class,
            x.of_keyword == of_keyword,
            x.parent == match parent { Some(e) => Some(Box::new(e)), None => None },
            x.from_keyword == from_keyword,
            x.instance == match instance { Some(e) => Some(Box::new(e)), None => None },
    {
        NewStatement { keyword, class: Box::new(class), of_keyword, parent: match parent { Some(e) => Some(Box::new(e)), None => None }, from_keyword, instance: match instance { Some(e) => Some(Box::new(e)), None => None } }
    }
}

pub fn emit_debug_clause(x: &DebugClause, output: &mut TokenStream)
    ensures
        final(output)@ == old(output)@ + tk_debug_clause(*x),
    decreases x, 0int,
{
    let mut contents = TokenStream::new();
    let ghost c0 = contents@;
    {
        let mut field = TokenStream::new();
        emit_debug_keyword(&x.keyword, &mut field);
        proof {
            assert(field@ =~= tk_debug_keyword(x.keyword));
        }
        append_field(&mut contents, field);
    }
    {
        let mut field = TokenStream::new();
        match &x.value { Some(e) => emit_expr(e, &mut field), None => {} }
        proof {
            assert(field@ =~= match x.value { Some(e) => tk_expr(*e), None => seq![] });
        }
        append_field(&mut contents, field);
    }
    output.extend(contents);
    proof {
        assert(output@ =~= old(output)@ + tk_debug_clause(*x));
    }
}

pub fn span_of_debug_clause(x: &DebugClause) -> (span: Span)
    ensures
        span == sp_debug_clause(*x),
    decreases x, 0int,
{
    let s0 = span_of_debug_keyword(&x.keyword);
    let s1 = match &x.value { Some(e) => span_of_expr(e), None => Span::detached() };
    let mut span = s0;
    span = span.cover(s1);
    span
}

impl DebugClause {
    /// Creates this node from its children.
    pub fn new(keyword: DebugKeyword, value: Option<Expr>) -> (x: Self)
        ensures
            x.keyword == keyword,
            x.value == match value { Some(e) => Some(Box::new(e)), None => None },
    {
        DebugClause { keyword, value: match value { Some(e) => Some(Box::new(e)), None => None } }
    }
}

pub fn emit_break_statement(x: &BreakStatement, output: &mut TokenStream)
    ensures
        final(output)@ == old(output)@ + tk_break_statement(*x),
    decreases x, 0int,
{
    let mut contents = TokenStream::new();
    let ghost c0 = contents@;
    {
        let mut field = TokenStream::new();
        x.keyword.to_tokens(&mut field);
        proof {
            assert(x.keyword.spec_tokens() == seq![x.keyword.raw_model()]);
            assert(field@ =~= seq![x.keyword.raw_model()]);
        }
        append_field(&mut contents, field);
    }
    {
        let mut field = TokenStream::new();
        match &x.value { Some(e) => emit_expr(e, &mut field), None => {} }
        proof {
            assert(field@ =~= match x.value { Some(e) => tk_expr(*e), None => seq![] });
        }
        append_field(&mut contents, field);
    }
    output.extend(contents);
    proof {
        assert(output@ =~= old(output)@ + tk_break_statement(*x));
    }
}

pub fn span_of_break_statement(x: &BreakStatement) -> (span: Span)
    ensures
        span == sp_break_statement(*x),
    decreases x, 0int,
{
    let s0 = x.keyword.span();
    let s1 = match &x.value { Some(e) => span_of_expr(e), None => Span::detached() };
    let mut span = s0;
    span = span.cover(s1);
    span
}

impl BreakStatement {
    /// Creates this node from its children.
    pub fn new(keyword: _BreakKeyword, value: Option<Expr>) -> (x: Self)
        ensures
            x.keyword == keyword,
            x.value == match value { Some(e) => Some(Box::new(e)), None => None },
    {
        BreakStatement { keyword, value: match value { Some(e) => Some(Box::new(e)), None => None } }
    }
}

pub fn emit_continue_statement(x: &ContinueStatement, output: &mut TokenStream)
    ensures
        final(output)@ == old(output)@ + tk_continue_statement(*x),
    decreases x, 0int,
{
    let mut contents = TokenStream::new();
    let ghost c0 = contents@;
    {
        let mut field = TokenStream::new();
        x.keyword.to_tokens(&mut field);
        proof {
            assert(x.keyword.spec_tokens() == seq![x.keyword.raw_model()]);
            assert(field@ =~= seq![x.keyword.raw_model()]);
        }
        append_field(&mut contents, field);
    }
    {
        let mut field = TokenStream::new();
        match &x.value { Some(e) => emit_expr(e, &mut field), None => {} }
        proof {
            assert(field@ =~= match x.value { Some(e) => tk_expr(*e), None => seq![] });
        }
        append_field(&mut contents, field);
    }
    output.extend(contents);
    proof {
        assert(output@ =~= old(output)@ + tk_continue_statement(*x));
    }
}

pub fn span_of_continue_statement(x: &ContinueStatement) -> (span: Span)
    ensures
        span == sp_continue_statement(*x),
    decreases x, 0int,
{
    let s0 = x.keyword.span();
    let s1 = match &x.value { Some(e) => span_of_expr(e), None => Span::detached() };
    let mut span = s0;
    span = span.cover(s1);
    span
}

impl ContinueStatement {
    /// Creates this node from its children.
    pub fn new(keyword: _ContinueKeyword, value: Option<Expr>) -> (x: Self)
        ensures
            x.keyword == keyword,
            x.value == match value { Some(e) => Some(Box::new(e)), None => None },
    {
        ContinueStatement { keyword, value: match value { Some(e) => Some(Box::new(e)), None => None } }
    }
}

pub fn emit_return_statement(x: &ReturnStatement, output: &mut TokenStream)
    ensures
        final(output)@ == old(output)@ + tk_return_statement(*x),
    decreases x, 0int,
{
    let mut contents = TokenStream::new();
    let ghost c0 = contents@;
    {
        let mut field = TokenStream::new();
        x.keyword.to_tokens(&mut field);
        proof {
            assert(x.keyword.spec_tokens() == seq![x.keyword.raw_model()]);
            assert(field@ =~= seq![x.keyword.raw_model()]);
        }
        append_field(&mut contents, field);
    }
    {
        let mut field = TokenStream::new();
        match &x.value { Some(e) => emit_expr(e, &mut field), None => {} }
        proof {
            assert(field@ =~= match x.value { Some(e) => tk_expr(*e), None => seq![] });
        }
        append_field(&mut contents, field);
    }
    output.extend(contents);
    proof {
        assert(output@ =~= old(output)@ + tk_return_statement(*x));
    }
}

pub fn span_of_return_statement(x: &ReturnStatement) -> (span: Span)
    ensures
        span == sp_return_statement(*x),
    decreases x, 0int,
{
    let s0 = x.keyword.span();
    let s1 = match &x.value { Some(e) => span_of_expr(e), None => Span::detached() };
    let mut span = s0;
    span = span.cover(s1);
    span
}

impl ReturnStatement {
    /// Creates this node from its children.
    pub fn new(keyword: _ReturnKeyword, value: Option<Expr>) -> (x: Self)
        ensures
            x.keyword == keyword,
            x.value == match value { Some(e) => Some(Box::new(e)), None => None },
    {
        ReturnStatement { keyword, value: match value { Some(e) => Some(Box::new(e)), None => None } }
    }
}

pub fn emit_catch_statement(x: &CatchStatement, output: &mut TokenStream)
    ensures
        final(output)@ == old(output)@ + tk_catch_statement(*x),
    decreases x, 0int,
{
    let mut contents = TokenStream::new();
    let ghost c0 = contents@;
    {
        let mut field = TokenStream::new();
        x.keyword.to_tokens(&mut field);
        proof {
            assert(x.keyword.spec_tokens() == seq![x.keyword.raw_model()]);
            assert(field@ =~= seq![x.keyword.raw_model()]);
        }
        append_field(&mut contents, field);
    }
    {
        let mut field = TokenStream::new();
        emit_expr(&x.value, &mut field);
        proof {
            assert(field@ =~= tk_expr(*x.value));
        }
        append_field(&mut contents, field);
    }
    output.extend(contents);
    proof {
        assert(output@ =~= old(output)@ + tk_catch_statement(*x));
    }
}

pub fn span_of_catch_statement(x: &CatchStatement) -> (span: Span)
    ensures
        span == sp_catch_statement(*x),
    decreases x, 0int,
{
    let s0 = x.keyword.span();
    let s1 = span_of_expr(&x.value);
    let mut span = s0;
    span = span.cover(s1);
    span
}

impl CatchStatement {
    /// Creates this node from its children.
    pub fn new(keyword: _CatchKeyword, value: Expr) -> (x: Self)
        ensures
            x.keyword == keyword,
            *x.value == value,
    {
        CatchStatement { keyword, value: Box::new(value) }
    }
}

pub fn emit_throw_statement(x: &ThrowStatement, output: &mut TokenStream)
    ensures
        final(output)@ == old(output)@ + tk_throw_statement(*x),
    decreases x, 0int,
{
    let mut contents = TokenStream::new();
    let ghost c0 = contents@;
    {
        let mut field = TokenStream::new();
        x.keyword.to_tokens(&mut field);
        proof {
            assert(x.keyword.spec_tokens() == seq![x.keyword.raw_model()]);
            assert(field@ =~= seq![x.keyword.raw_model()]);
        }
        append_field(&mut contents, field);
    }
    {
        let mut field = TokenStream::new();
        emit_expr(&x.value, &mut field);
        proof {
            assert(field@ =~= tk_expr(*x.value));
        }
        append_field(&mut contents, field);
    }
    output.extend(contents);
    proof {
        assert(output@ =~= old(output)@ + tk_throw_statement(*x));
    }
}

pub fn span_of_throw_statement(x: &ThrowStatement) -> (span: Span)
    ensures
        span == sp_throw_statement(*x),
    decreases x, 0int,
{
    let s0 = x.keyword.span();
    let s1 = span_of_expr(&x.value);
    let mut span = s0;
    span = span.cover(s1);
    span
}

impl ThrowStatement {
    /// Creates this node from its children.
    pub fn new(keyword: _ThrowKeyword, value: Expr) -> (x: Self)
        ensures
            x.keyword == keyword,
            *x.value == value,
    {
        ThrowStatement { keyword, value: Box::new(value) }
    }
}

pub fn emit_trap_statement(x: &TrapStatement, output: &mut TokenStream)
    ensures
        final(output)@ == old(output)@ + tk_trap_statement(*x),
    decreases x, 0int,
{
    let mut contents = TokenStream::new();
    let ghost c0 = contents@;
    {
        let mut field = TokenStream::new();
        x.keyword.to_tokens(&mut field);
        proof {
            assert(x.keyword.spec_tokens() == seq![x.keyword.raw_model()]);
            assert(field@ =~= seq![x.keyword.raw_model()]);
        }
        append_field(&mut contents, field);
    }
    {
        let mut field = TokenStream::new();
        emit_expr(&x.value, &mut field);
        proof {
            assert(field@ =~= tk_expr(*x.value));
        }
        append_field(&mut contents, field);
    }
    output.extend(contents);
    proof {
        assert(output@ =~= old(output)@ + tk_trap_statement(*x));
    }
}

pub fn span_of_trap_statement(x: &TrapStatement) -> (span: Span)
    ensures
        span == sp_trap_statement(*x),
    decreases x, 0int,
{
    let s0 = x.keyword.span();
    let s1 = span_of_expr(&x.value);
    let mut span = s0;
    span = span.cover(s1);
    span
}

impl TrapStatement {
    /// Creates this node from its children.
    pub fn new(keyword: _TrapKeyword, value: Expr) -> (x: Self)
        ensures
            x.keyword == keyword,
            *x.value == value,
    {
        TrapStatement { keyword, value: Box::new(value) }
    }
}

pub fn emit_except_clause(x: &ExceptClause, output: &mut TokenStream)
    ensures
        final(output)@ == old(output)@ + tk_except_clause(*x),
    decreases x, 0int,
{
    let mut contents = TokenStream::new();
    let ghost c0 = contents@;
    {
        let mut field = TokenStream::new();
        x.keyword.to_tokens(&mut field);
        proof {
            assert(x.keyword.spec_tokens() == seq![x.keyword.raw_model()]);
            assert(field@ =~= seq![x.keyword.raw_model()]);
        }
        append_field(&mut contents, field);
    }
    {
        let mut field = TokenStream::new();
        emit_symbol(&x.exception, &mut field);
        proof {
            assert(field@ =~= tk_symbol(x.exception));
        }
        append_field(&mut contents, field);
    }
    {
        let mut field = TokenStream::new();
        x.do_keyword.to_tokens(&mut field);
        proof {
            assert(x.do_keyword.spec_tokens() == seq![x.do_keyword.raw_model()]);
            assert(field@ =~= seq![x.do_keyword.raw_model()]);
        }
        append_field(&mut contents, field);
    }
    {
        let mut field = TokenStream::new();
        emit_expr(&x.value, &mut field);
        proof {
            assert(field@ =~= tk_expr(*x.value));
        }
        append_field(&mut contents, field);
    }
    output.extend(contents);
    proof {
        assert(output@ =~= old(output)@ + tk_except_clause(*x));
    }
}

pub fn span_of_except_clause(x: &ExceptClause) -> (span: Span)
    ensures
        span == sp_except_clause(*x),
    decreases x, 0int,
{
    let s0 = x.keyword.span();
    let s1 = span_of_symbol(&x.exception);
    let s2 = x.do_keyword.span();
    let s3 = span_of_expr(&x.value);
    let mut span = s0;
    span = span.cover(s1);
    span = span.cover(s2);
    span = span.cover(s3);
    span
}

impl ExceptClause {
    /// Creates this node from its children.
    pub fn new(keyword: _ExceptKeyword, exception: Symbol, do_keyword: _DoKeyword, value: Expr) -> (x: Self)
        ensures
            x.keyword == keyword,
            x.exception == exception,
            x.do_keyword == do_keyword,
            *x.value == value,
    {
        ExceptClause { keyword, exception, do_keyword, value: Box::new(value) }
    }
}

pub fn emit_try_statement(x: &TryStatement, output: &mut TokenStream)
    ensures
        final(output)@ == old(output)@ + tk_try_statement(*x),
    decreases x, 0int,
{
    let mut contents = TokenStream::new();
    let ghost c0 = contents@;
    {
        let mut field = TokenStream::new();
        x.keyword.to_tokens(&mut field);
        proof {
            assert(x.keyword.spec_tokens() == seq![x.keyword.raw_model()]);
            assert(field@ =~= seq![x.keyword.raw_model()]);
        }
        append_field(&mut contents, field);
    }
    {
        let mut field = TokenStream::new();
        emit_expr(&x.value, &mut field);
        proof {
            assert(field@ =~= tk_expr(*x.value));
        }
        append_field(&mut contents, field);
    }
    {
        let mut field = TokenStream::new();
        match &x.then_clause { Some(v) => emit_then_clause(v, &mut field), None => {} }
        proof {
            assert(field@ =~= match x.then_clause { Some(v) => tk_then_clause(v), None => seq![] });
        }
        append_field(&mut contents, field);
    }
    {
        let mut field = TokenStream::new();
        match &x.fallback { Some(v) => emit_try_fallback(v, &mut field), None => {} }
        proof {
            assert(field@ =~= match x.fallback { Some(v) => tk_try_fallback(*v), None => seq![] });
        }
        append_field(&mut contents, field);
    }
    output.extend(contents);
    proof {
        assert(output@ =~= old(output)@ + tk_try_statement(*x));
    }
}

pub fn span_of_try_statement(x: &TryStatement) -> (span: Span)
    ensures
        span == sp_try_statement(*x),
    decreases x, 0int,
{
    let s0 = x.keyword.span();
    let s1 = span_of_expr(&x.value);
    let s2 = match &x.then_clause { Some(v) => span_of_then_clause(v), None => Span::detached() };
    let s3 = match &x.fallback { Some(v) => span_of_try_fallback(v), None => Span::detached() };
    let mut span = s0;
    span = span.cover(s1);
    span = span.cover(s2);
    span = span.cover(s3);
    span
}

impl TryStatement {
    /// Creates this node from its children.
    pub fn new(keyword: _TryKeyword, value: Expr, then_clause: Option<ThenClause>, fallback: Option<TryFallback>) -> (x: Self)
        ensures
            x.keyword == keyword,
            *x.value == value,
            x.then_clause == then_clause,
            x.fallback == match fallback { Some(v) => Some(Box::new(v)), None => None },
    {
        TryStatement { keyword, value: Box::new(value), then_clause, fallback: match fallback { Some(v) => Some(Box::new(v)), None => None } }
    }
}

pub fn emit_quote_expression(x: &QuoteExpression, output: &mut TokenStream)
    ensures
        final(output)@ == old(output)@ + tk_quote_expression(*x),
{
    let mut contents = TokenStream::new();
    let ghost c0 = contents@;
    {
        let mut field = TokenStream::new();
        emit_quote_specifier(&x.specifier, &mut field);
        proof {
            assert(field@ =~= tk_quote_specifier(x.specifier));
        }
        append_field(&mut contents, field);
    }
    {
        let mut field = TokenStream::new();
        emit_symbol(&x.token, &mut field);
        proof {
            assert(field@ =~= tk_symbol(x.token));
        }
        append_field(&mut contents, field);
    }
    output.extend(contents);
    proof {
        assert(output@ =~= old(output)@ + tk_quote_expression(*x));
    }
}

pub fn span_of_quote_expression(x: &QuoteExpression) -> (span: Span)
    ensures
        span == sp_quote_expression(*x),
{
    let s0 = span_of_quote_specifier(&x.specifier);
    let s1 = span_of_symbol(&x.token);
    let mut span = s0;
    span = span.cover(s1);
    span
}

impl QuoteExpression {
    /// Creates this node from its children.
    pub fn new(specifier: QuoteSpecifier, token: Symbol) -> (x: Self)
        ensures
            x.specifier == specifier,
            x.token == token,
    {
        QuoteExpression { specifier, token }
    }
}

pub fn emit_any_cell(x: &AnyCell, output: &mut TokenStream)
    ensures
        final(output)@ == old(output)@ + tk_any_cell(*x),
{
    match x {
        AnyCell::ExpressionCell(v) => emit_expression_cell(v, output),
        AnyCell::SequenceCell(v) => emit_sequence_cell(v, output),
        AnyCell::MutedCell(v) => emit_muted_cell(v, output),
    }
}

pub fn span_of_any_cell(x: &AnyCell) -> (span: Span)
    ensures
        span == sp_any_cell(*x),
{
    match x {
        AnyCell::ExpressionCell(v) => span_of_expression_cell(v),
        AnyCell::SequenceCell(v) => span_of_sequence_cell(v),
        AnyCell::MutedCell(v) => span_of_muted_cell(v),
    }
}

pub fn emit_component(x: &Component, output: &mut TokenStream)
    ensures
        final(output)@ == old(output)@ + tk_component(*x),
    decreases x, 0int,
{
    match x {
        Component::EmptyComponent(v) => emit_empty_component(v, output),
        Component::Expr(v) => emit_expr(v, output),
    }
}

pub fn span_of_component(x: &Component) -> (span: Span)
    ensures
        span == sp_component(*x),
    decreases x, 0int,
{
    match x {
        Component::EmptyComponent(v) => span_of_empty_component(v),
        Component::Expr(v) => span_of_expr(v),
    }
}

pub fn emit_sequence_element(x: &SequenceElement, output: &mut TokenStream)
    ensures
        final(output)@ == old(output)@ + tk_sequence_element(*x),
{
    match x {
        SequenceElement::Component(v) => emit_component(v, output),
        SequenceElement::MutedGroup(v) => emit_muted_group(v, output),
    }
}

pub fn span_of_sequence_element(x: &SequenceElement) -> (span: Span)
    ensures
        span == sp_sequence_element(*x),
{
    match x {
        SequenceElement::Component(v) => span_of_component(v),
        SequenceElement::MutedGroup(v) => span_of_muted_group(v),
    }
}

pub fn emit_string_element(x: &StringElement, output: &mut TokenStream)
    ensures
        final(output)@ == old(output)@ + tk_string_element(*x),
{
    match x {
        StringElement::EscapeSequence(v) => emit_escape_sequence(v, output),
        StringElement::StringContent(v) => emit_string_content(v, output),
    }
}

pub fn span_of_string_element(x: &StringElement) -> (span: Span)
    ensures
        span == sp_string_element(*x),
{
    match x {
        StringElement::EscapeSequence(v) => span_of_escape_sequence(v),
        StringElement::StringContent(v) => span_of_string_content(v),
    }
}

pub fn emit_raw_string_element(x: &RawStringElement, output: &mut TokenStream)
    ensures
        final(output)@ == old(output)@ + tk_raw_string_element(*x),
{
    match x {
        RawStringElement::EscapeSequence(v) => emit_escape_sequence(v, output),
        RawStringElement::RawStringContent(v) => emit_raw_string_content(v, output),
    }
}

pub fn span_of_raw_string_element(x: &RawStringElement) -> (span: Span)
    ensures
        span == sp_raw_string_element(*x),
{
    match x {
        RawStringElement::EscapeSequence(v) => span_of_escape_sequence(v),
        RawStringElement::RawStringContent(v) => span_of_raw_string_content(v),
    }
}

pub fn emit_collection(x: &Collection, output: &mut TokenStream)
    ensures
        final(output)@ == old(output)@ + tk_collection(*x),
    decreases x, 0int,
{
    match x {
        Collection::ParenthesizedExpression(v) => emit_parenthesized_expression(v, output),
        Collection::Sequence(v) => emit_sequence(v, output),
        Collection::List(v) => emit_list(v, output),
        Collection::Array(v) => emit_array(v, output),
        Collection::AngleBarList(v) => emit_angle_bar_list(v, output),
    }
}

pub fn span_of_collection(x: &Collection) -> (span: Span)
    ensures
        span == sp_collection(*x),
    decreases x, 0int,
{
    match x {
        Collection::ParenthesizedExpression(v) => span_of_parenthesized_expression(v),
        Collection::Sequence(v) => span_of_sequence(v),
        Collection::List(v) => span_of_list(v),
        Collection::Array(v) => span_of_array(v),
        Collection::AngleBarList(v) => span_of_angle_bar_list(v),
    }
}

pub fn emit_binding_pack(x: &BindingPack, output: &mut TokenStream)
    ensures
        final(output)@ == old(output)@ + tk_binding_pack(*x),
    decreases x, 0int,
{
    match x {
        BindingPack::ParenthesizedExpression(v) => emit_parenthesized_expression(v, output),
        BindingPack::Sequence(v) => emit_sequence(v, output),
        BindingPack::List(v) => emit_list(v, output),
        BindingPack::Array(v) => emit_array(v, output),
        BindingPack::AngleBarList(v) => emit_angle_bar_list(v, output),
    }
}

pub fn span_of_binding_pack(x: &BindingPack) -> (span: Span)
    ensures
        span == sp_binding_pack(*x),
    decreases x, 0int,
{
    match x {
        BindingPack::ParenthesizedExpression(v) => span_of_parenthesized_expression(v),
        BindingPack::Sequence(v) => span_of_sequence(v),
        BindingPack::List(v) => span_of_list(v),
        BindingPack::Array(v) => span_of_array(v),
        BindingPack::AngleBarList(v) => span_of_angle_bar_list(v),
    }
}

pub fn emit_lambda_parameters(x: &LambdaParameters, output: &mut TokenStream)
    ensures
        final(output)@ == old(output)@ + tk_lambda_parameters(*x),
    decreases x, 0int,
{
    match x {
        LambdaParameters::Symbol(v) => emit_symbol(v, output),
        LambdaParameters::ParenthesizedExpression(v) => emit_parenthesized_expression(v, output),
        LambdaParameters::Sequence(v) => emit_sequence(v, output),
        LambdaParameters::List(v) => emit_list(v, output),
        LambdaParameters::Array(v) => emit_array(v, output),
        LambdaParameters::AngleBarList(v) => emit_angle_bar_list(v, output),
    }
}

pub fn span_of_lambda_parameters(x: &LambdaParameters) -> (span: Span)
    ensures
        span == sp_lambda_parameters(*x),
    decreases x, 0int,
{
    match x {
        LambdaParameters::Symbol(v) => span_of_symbol(v),
        LambdaParameters::ParenthesizedExpression(v) => span_of_parenthesized_expression(v),
        LambdaParameters::Sequence(v) => span_of_sequence(v),
        LambdaParameters::List(v) => span_of_list(v),
        LambdaParameters::Array(v) => span_of_array(v),
        LambdaParameters::AngleBarList(v) => span_of_angle_bar_list(v),
    }
}

pub fn emit_try_fallback(x: &TryFallback, output: &mut TokenStream)
    ensures
        final(output)@ == old(output)@ + tk_try_fallback(*x),
    decreases x, 0int,
{
    match x {
        TryFallback::ExceptClause(v) => emit_except_clause(v, output),
        TryFallback::ElseClause(v) => emit_else_clause(v, output),
    }
}

pub fn span_of_try_fallback(x: &TryFallback) -> (span: Span)
    ensures
        span == sp_try_fallback(*x),
    decreases x, 0int,
{
    match x {
        TryFallback::ExceptClause(v) => span_of_except_clause(v),
        TryFallback::ElseClause(v) => span_of_else_clause(v),
    }
}

pub fn emit_operator_expr(x: &OperatorExpr, output: &mut TokenStream)
    ensures
        final(output)@ == old(output)@ + tk_operator_expr(*x),
    decreases x, 0int,
{
    match x {
        OperatorExpr::AdjacentExpression(v) => emit_adjacent_expression(v, output),
        OperatorExpr::BinaryExpression(v) => emit_binary_expression(v, output),
        OperatorExpr::PrefixExpression(v) => emit_prefix_expression(v, output),
        OperatorExpr::PostfixExpression(v) => emit_postfix_expression(v, output),
    }
}

pub fn span_of_operator_expr(x: &OperatorExpr) -> (span: Span)
    ensures
        span == sp_operator_expr(*x),
    decreases x, 0int,
{
    match x {
        OperatorExpr::AdjacentExpression(v) => span_of_adjacent_expression(v),
        OperatorExpr::BinaryExpression(v) => span_of_binary_expression(v),
        OperatorExpr::PrefixExpression(v) => span_of_prefix_expression(v),
        OperatorExpr::PostfixExpression(v) => span_of_postfix_expression(v),
    }
}

pub fn emit_assignment_expr(x: &AssignmentExpr, output: &mut TokenStream)
    ensures
        final(output)@ == old(output)@ + tk_assignment_expr(*x),
    decreases x, 0int,
{
    match x {
        AssignmentExpr::Assignment(v) => emit_assignment(v, output),
        AssignmentExpr::LocalAssignment(v) => emit_local_assignment(v, output),
        AssignmentExpr::BinaryAssignment(v) => emit_binary_assignment(v, output),
        AssignmentExpr::BinaryInstallation(v) => emit_binary_installation(v, output),
        AssignmentExpr::PrefixAssignment(v) => emit_prefix_assignment(v, output),
        AssignmentExpr::PrefixInstallation(v) => emit_prefix_installation(v, output),
        AssignmentExpr::PostfixAssignment(v) => emit_postfix_assignment(v, output),
        AssignmentExpr::PostfixInstallation(v) => emit_postfix_installation(v, output),
        AssignmentExpr::StructuredBinding(v) => emit_structured_binding(v, output),
        AssignmentExpr::LocalStructuredBinding(v) => emit_local_structured_binding(v, output),
        AssignmentExpr::EvaluatedAssignment(v) => emit_evaluated_assignment(v, output),
    }
}

pub fn span_of_assignment_expr(x: &AssignmentExpr) -> (span: Span)
    ensures
        span == sp_assignment_expr(*x),
    decreases x, 0int,
{
    match x {
        AssignmentExpr::Assignment(v) => span_of_assignment(v),
        AssignmentExpr::LocalAssignment(v) => span_of_local_assignment(v),
        AssignmentExpr::BinaryAssignment(v) => span_of_binary_assignment(v),
        AssignmentExpr::BinaryInstallation(v) => span_of_binary_installation(v),
        AssignmentExpr::PrefixAssignment(v) => span_of_prefix_assignment(v),
        AssignmentExpr::PrefixInstallation(v) => span_of_prefix_installation(v),
        AssignmentExpr::PostfixAssignment(v) => span_of_postfix_assignment(v),
        AssignmentExpr::PostfixInstallation(v) => span_of_postfix_installation(v),
        AssignmentExpr::StructuredBinding(v) => span_of_structured_binding(v),
        AssignmentExpr::LocalStructuredBinding(v) => span_of_local_structured_binding(v),
        AssignmentExpr::EvaluatedAssignment(v) => span_of_evaluated_assignment(v),
    }
}

pub fn emit_expr(x: &Expr, output: &mut TokenStream)
    ensures
        final(output)@ == old(output)@ + tk_expr(*x),
    decreases x, 0int,
{
    match x {
        Expr::Collection(v) => emit_collection(v, output),
        Expr::OperatorExpr(v) => emit_operator_expr(v, output),
        Expr::AssignmentExpr(v) => emit_assignment_expr(v, output),
        Expr::OptionExpression(v) => emit_option_expression(v, output),
        Expr::LambdaExpression(v) => emit_lambda_expression(v, output),
        Expr::IfStatement(v) => emit_if_statement(v, output),
        Expr::ForLoop(v) => emit_for_loop(v, output),
        Expr::WhileLoop(v) => emit_while_loop(v, output),
        Expr::TryStatement(v) => emit_try_statement(v, output),
        Expr::QuoteExpression(v) => emit_quote_expression(v, output),
        Expr::NewStatement(v) => emit_new_statement(v, output),
        Expr::BreakStatement(v) => emit_break_statement(v, output),
        Expr::ContinueStatement(v) => emit_continue_statement(v, output),
        Expr::ReturnStatement(v) => emit_return_statement(v, output),
        Expr::CatchStatement(v) => emit_catch_statement(v, output),
        Expr::ThrowStatement(v) => emit_throw_statement(v, output),
        Expr::TrapStatement(v) => emit_trap_statement(v, output),
        Expr::DebugClause(v) => emit_debug_clause(v, output),
        Expr::FloatLiteral(v) => emit_float_literal(v, output),
        Expr::IntegerLiteral(v) => emit_integer_literal(v, output),
        Expr::RawStringLiteral(v) => emit_raw_string_literal(v, output),
        Expr::StringLiteral(v) => emit_string_literal(v, output),
        Expr::Symbol(v) => emit_symbol(v, output),
    }
}

pub fn span_of_expr(x: &Expr) -> (span: Span)
    ensures
        span == sp_expr(*x),
    decreases x, 0int,
{
    match x {
        Expr::Collection(v) => span_of_collection(v),
        Expr::OperatorExpr(v) => span_of_operator_expr(v),
        Expr::AssignmentExpr(v) => span_of_assignment_expr(v),
        Expr::OptionExpression(v) => span_of_option_expression(v),
        Expr::LambdaExpression(v) => span_of_lambda_expression(v),
        Expr::IfStatement(v) => span_of_if_statement(v),
        Expr::ForLoop(v) => span_of_for_loop(v),
        Expr::WhileLoop(v) => span_of_while_loop(v),
        Expr::TryStatement(v) => span_of_try_statement(v),
        Expr::QuoteExpression(v) => span_of_quote_expression(v),
        Expr::NewStatement(v) => span_of_new_statement(v),
        Expr::BreakStatement(v) => span_of_break_statement(v),
        Expr::ContinueStatement(v) => span_of_continue_statement(v),
        Expr::ReturnStatement(v) => span_of_return_statement(v),
        Expr::CatchStatement(v) => span_of_catch_statement(v),
        Expr::ThrowStatement(v) => span_of_throw_statement(v),
        Expr::TrapStatement(v) => span_of_trap_statement(v),
        Expr::DebugClause(v) => span_of_debug_clause(v),
        Expr::FloatLiteral(v) => span_of_float_literal(v),
        Expr::IntegerLiteral(v) => span_of_integer_literal(v),
        Expr::RawStringLiteral(v) => span_of_raw_string_literal(v),
        Expr::StringLiteral(v) => span_of_string_literal(v),
        Expr::Symbol(v) => span_of_symbol(v),
    }
}

pub fn emit_syntax_node(x: &SyntaxNode, output: &mut TokenStream)
    ensures
        final(output)@ == old(output)@ + tk_syntax_node(*x),
{
    match x {
        SyntaxNode::SourceFile(v) => emit_source_file(v, output),
        SyntaxNode::AnyCell(v) => emit_any_cell(v, output),
        SyntaxNode::Expr(v) => emit_expr(v, output),
    }
}

pub fn span_of_syntax_node(x: &SyntaxNode) -> (span: Span)
    ensures
        span == sp_syntax_node(*x),
{
    match x {
        SyntaxNode::SourceFile(v) => span_of_source_file(v),
        SyntaxNode::AnyCell(v) => span_of_any_cell(v),
        SyntaxNode::Expr(v) => span_of_expr(v),
    }
}

pub fn span_of_list_any_cell(s: &Vec<AnyCell>) -> (span: Span)
    ensures
        span == span_cover_all(sp_list_any_cell(s@, s@.len() as int)),

{
    let mut spans: Vec<Span> = Vec::new();
    let mut i: usize = 0;
    while i < s.len()
        invariant
            i <= s@.len(),
            spans@ == sp_list_any_cell(s@, i as int),
        decreases s@.len() - i,
    {
        spans.push(span_of_any_cell(&s[i]));
        i = i + 1;
    }
    Span::cover_all(spans.as_slice())
}

pub fn span_of_list_muted_group(s: &Vec<MutedGroup>) -> (span: Span)
    ensures
        span == span_cover_all(sp_list_muted_group(s@, s@.len() as int)),
    decreases s, 0int,
{
    let mut spans: Vec<Span> = Vec::new();
    let mut i: usize = 0;
    while i < s.len()
        invariant
            i <= s@.len(),
            spans@ == sp_list_muted_group(s@, i as int),
        decreases s@.len() - i,
    {
        proof {
            assert(decreases_to!(s => s@));
            assert(decreases_to!(s@ => s@[i as int]));
        }
        spans.push(span_of_muted_group(&s[i]));
        i = i + 1;
    }
    Span::cover_all(spans.as_slice())
}

pub fn span_of_list_string_element(s: &Vec<StringElement>) -> (span: Span)
    ensures
        span == span_cover_all(sp_list_string_element(s@, s@.len() as int)),

{
    let mut spans: Vec<Span> = Vec::new();
    let mut i: usize = 0;
    while i < s.len()
        invariant
            i <= s@.len(),
            spans@ == sp_list_string_element(s@, i as int),
        decreases s@.len() - i,
    {
        spans.push(span_of_string_element(&s[i]));
        i = i + 1;
    }
    Span::cover_all(spans.as_slice())
}

pub fn span_of_list_raw_string_element(s: &Vec<RawStringElement>) -> (span: Span)
    ensures
        span == span_cover_all(sp_list_raw_string_element(s@, s@.len() as int)),

{
    let mut spans: Vec<Span> = Vec::new();
    let mut i: usize = 0;
    while i < s.len()
        invariant
            i <= s@.len(),
            spans@ == sp_list_raw_string_element(s@, i as int),
        decreases s@.len() - i,
    {
        spans.push(span_of_raw_string_element(&s[i]));
        i = i + 1;
    }
    Span::cover_all(spans.as_slice())
}

impl ToTokens for Symbol {
    open spec fn spec_tokens(&self) -> Seq<TokenModel> {
        tk_symbol(*self)
    }

    fn to_tokens(&self, output: &mut TokenStream) {
        emit_symbol(self, output);
        proof {
            assert(self.spec_tokens() == tk_symbol(*self));
        }
    }
}

impl Spanned for Symbol {
    open spec fn spec_span(&self) -> Span {
        sp_symbol(*self)
    }

    fn span(&self) -> (span: Span) {
        let span = span_of_symbol(self);
        proof {
            assert(self.spec_span() == sp_symbol(*self));
        }
        span
    }
}

impl ToTokens for BlockComment {
    open spec fn spec_tokens(&self) -> Seq<TokenModel> {
        tk_block_comment(*self)
    }

    fn to_tokens(&self, output: &mut TokenStream) {
        emit_block_comment(self, output);
        proof {
            assert(self.spec_tokens() == tk_block_comment(*self));
        }
    }
}

impl Spanned for BlockComment {
    open spec fn spec_span(&self) -> Span {
        sp_block_comment(*self)
    }

    fn span(&self) -> (span: Span) {
        let span = span_of_block_comment(self);
        proof {
            assert(self.spec_span() == sp_block_comment(*self));
        }
        span
    }
}

impl ToTokens for LineComment {
    open spec fn spec_tokens(&self) -> Seq<TokenModel> {
        tk_line_comment(*self)
    }

    fn to_tokens(&self, output: &mut TokenStream) {
        emit_line_comment(self, output);
        proof {
            assert(self.spec_tokens() == tk_line_comment(*self));
        }
    }
}

impl Spanned for LineComment {
    open spec fn spec_span(&self) -> Span {
        sp_line_comment(*self)
    }

    fn span(&self) -> (span: Span) {
        let span = span_of_line_comment(self);
        proof {
            assert(self.spec_span() == sp_line_comment(*self));
        }
        span
    }
}

impl ToTokens for EmptyComponent {
    open spec fn spec_tokens(&self) -> Seq<TokenModel> {
        tk_empty_component(*self)
    }

    fn to_tokens(&self, output: &mut TokenStream) {
        emit_empty_component(self, output);
        proof {
            assert(self.spec_tokens() == tk_empty_component(*self));
        }
    }
}

impl Spanned for EmptyComponent {
    open spec fn spec_span(&self) -> Span {
        sp_empty_component(*self)
    }

    fn span(&self) -> (span: Span) {
        let span = span_of_empty_component(self);
        proof {
            assert(self.spec_span() == sp_empty_component(*self));
        }
        span
    }
}

impl ToTokens for EscapeSequence {
    open spec fn spec_tokens(&self) -> Seq<TokenModel> {
        tk_escape_sequence(*self)
    }

    fn to_tokens(&self, output: &mut TokenStream) {
        emit_escape_sequence(self, output);
        proof {
            assert(self.spec_tokens() == tk_escape_sequence(*self));
        }
    }
}

impl Spanned for EscapeSequence {
    open spec fn spec_span(&self) -> Span {
        sp_escape_sequence(*self)
    }

    fn span(&self) -> (span: Span) {
        let span = span_of_escape_sequence(self);
        proof {
            assert(self.spec_span() == sp_escape_sequence(*self));
        }
        span
    }
}

impl ToTokens for FloatLiteral {
    open spec fn spec_tokens(&self) -> Seq<TokenModel> {
        tk_float_literal(*self)
    }

    fn to_tokens(&self, output: &mut TokenStream) {
        emit_float_literal(self, output);
        proof {
            assert(self.spec_tokens() == tk_float_literal(*self));
        }
    }
}

impl Spanned for FloatLiteral {
    open spec fn spec_span(&self) -> Span {
        sp_float_literal(*self)
    }

    fn span(&self) -> (span: Span) {
        let span = span_of_float_literal(self);
        proof {
            assert(self.spec_span() == sp_float_literal(*self));
        }
        span
    }
}

impl ToTokens for IntegerLiteral {
    open spec fn spec_tokens(&self) -> Seq<TokenModel> {
        tk_integer_literal(*self)
    }

    fn to_tokens(&self, output: &mut TokenStream) {
        emit_integer_literal(self, output);
        proof {
            assert(self.spec_tokens() == tk_integer_literal(*self));
        }
    }
}

impl Spanned for IntegerLiteral {
    open spec fn spec_span(&self) -> Span {
        sp_integer_literal(*self)
    }

    fn span(&self) -> (span: Span) {
        let span = span_of_integer_literal(self);
        proof {
            assert(self.spec_span() == sp_integer_literal(*self));
        }
        span
    }
}

impl ToTokens for RawStringContent {
    open spec fn spec_tokens(&self) -> Seq<TokenModel> {
        tk_raw_string_content(*self)
    }

    fn to_tokens(&self, output: &mut TokenStream) {
        emit_raw_string_content(self, output);
        proof {
            assert(self.spec_tokens() == tk_raw_string_content(*self));
        }
    }
}

impl Spanned for RawStringContent {
    open spec fn spec_span(&self) -> Span {
        sp_raw_string_content(*self)
    }

    fn span(&self) -> (span: Span) {
        let span = span_of_raw_string_content(self);
        proof {
            assert(self.spec_span() == sp_raw_string_content(*self));
        }
        span
    }
}

impl ToTokens for StringContent {
    open spec fn spec_tokens(&self) -> Seq<TokenModel> {
        tk_string_content(*self)
    }

    fn to_tokens(&self, output: &mut TokenStream) {
        emit_string_content(self, output);
        proof {
            assert(self.spec_tokens() == tk_string_content(*self));
        }
    }
}

impl Spanned for StringContent {
    open spec fn spec_span(&self) -> Span {
        sp_string_content(*self)
    }

    fn span(&self) -> (span: Span) {
        let span = span_of_string_content(self);
        proof {
            assert(self.spec_span() == sp_string_content(*self));
        }
        span
    }
}

impl ToTokens for DebugKeyword {
    open spec fn spec_tokens(&self) -> Seq<TokenModel> {
        tk_debug_keyword(*self)
    }

    fn to_tokens(&self, output: &mut TokenStream) {
        emit_debug_keyword(self, output);
        proof {
            assert(self.spec_tokens() == tk_debug_keyword(*self));
        }
    }
}

impl Spanned for DebugKeyword {
    open spec fn spec_span(&self) -> Span {
        sp_debug_keyword(*self)
    }

    fn span(&self) -> (span: Span) {
        let span = span_of_debug_keyword(self);
        proof {
            assert(self.spec_span() == sp_debug_keyword(*self));
        }
        span
    }
}

impl ToTokens for QuoteSpecifier {
    open spec fn spec_tokens(&self) -> Seq<TokenModel> {
        tk_quote_specifier(*self)
    }

    fn to_tokens(&self, output: &mut TokenStream) {
        emit_quote_specifier(self, output);
        proof {
            assert(self.spec_tokens() == tk_quote_specifier(*self));
        }
    }
}

impl Spanned for QuoteSpecifier {
    open spec fn spec_span(&self) -> Span {
        sp_quote_specifier(*self)
    }

    fn span(&self) -> (span: Span) {
        let span = span_of_quote_specifier(self);
        proof {
            assert(self.spec_span() == sp_quote_specifier(*self));
        }
        span
    }
}

impl ToTokens for SourceFile {
    open spec fn spec_tokens(&self) -> Seq<TokenModel> {
        tk_source_file(*self)
    }

    fn to_tokens(&self, output: &mut TokenStream) {
        emit_source_file(self, output);
        proof {
            assert(self.spec_tokens() == tk_source_file(*self));
        }
    }
}

impl Spanned for SourceFile {
    open spec fn spec_span(&self) -> Span {
        sp_source_file(*self)
    }

    fn span(&self) -> (span: Span) {
        let span = span_of_source_file(self);
        proof {
            assert(self.spec_span() == sp_source_file(*self));
        }
        span
    }
}

impl ToTokens for ExpressionCell {
    open spec fn spec_tokens(&self) -> Seq<TokenModel> {
        tk_expression_cell(*self)
    }

    fn to_tokens(&self, output: &mut TokenStream) {
        emit_expression_cell(self, output);
        proof {
            assert(self.spec_tokens() == tk_expression_cell(*self));
        }
    }
}

impl Spanned for ExpressionCell {
    open spec fn spec_span(&self) -> Span {
        sp_expression_cell(*self)
    }

    fn span(&self) -> (span: Span) {
        let span = span_of_expression_cell(self);
        proof {
            assert(self.spec_span() == sp_expression_cell(*self));
        }
        span
    }
}

impl ToTokens for SequenceCell {
    open spec fn spec_tokens(&self) -> Seq<TokenModel> {
        tk_sequence_cell(*self)
    }

    fn to_tokens(&self, output: &mut TokenStream) {
        emit_sequence_cell(self, output);
        proof {
            assert(self.spec_tokens() == tk_sequence_cell(*self));
        }
    }
}

impl Spanned for SequenceCell {
    open spec fn spec_span(&self) -> Span {
        sp_sequence_cell(*self)
    }

    fn span(&self) -> (span: Span) {
        let span = span_of_sequence_cell(self);
        proof {
            assert(self.spec_span() == sp_sequence_cell(*self));
        }
        span
    }
}

impl ToTokens for NakedSequence {
    open spec fn spec_tokens(&self) -> Seq<TokenModel> {
        tk_naked_sequence(*self)
    }

    fn to_tokens(&self, output: &mut TokenStream) {
        emit_naked_sequence(self, output);
        proof {
            assert(self.spec_tokens() == tk_naked_sequence(*self));
        }
    }
}

impl Spanned for NakedSequence {
    open spec fn spec_span(&self) -> Span {
        sp_naked_sequence(*self)
    }

    fn span(&self) -> (span: Span) {
        let span = span_of_naked_sequence(self);
        proof {
            assert(self.spec_span() == sp_naked_sequence(*self));
        }
        span
    }
}

impl ToTokens for MutedCell {
    open spec fn spec_tokens(&self) -> Seq<TokenModel> {
        tk_muted_cell(*self)
    }

    fn to_tokens(&self, output: &mut TokenStream) {
        emit_muted_cell(self, output);
        proof {
            assert(self.spec_tokens() == tk_muted_cell(*self));
        }
    }
}

impl Spanned for MutedCell {
    open spec fn spec_span(&self) -> Span {
        sp_muted_cell(*self)
    }

    fn span(&self) -> (span: Span) {
        let span = span_of_muted_cell(self);
        proof {
            assert(self.spec_span() == sp_muted_cell(*self));
        }
        span
    }
}

impl ToTokens for MutedGroup {
    open spec fn spec_tokens(&self) -> Seq<TokenModel> {
        tk_muted_group(*self)
    }

    fn to_tokens(&self, output: &mut TokenStream) {
        emit_muted_group(self, output);
        proof {
            assert(self.spec_tokens() == tk_muted_group(*self));
        }
    }
}

impl Spanned for MutedGroup {
    open spec fn spec_span(&self) -> Span {
        sp_muted_group(*self)
    }

    fn span(&self) -> (span: Span) {
        let span = span_of_muted_group(self);
        proof {
            assert(self.spec_span() == sp_muted_group(*self));
        }
        span
    }
}

impl ToTokens for Array {
    open spec fn spec_tokens(&self) -> Seq<TokenModel> {
        tk_array(*self)
    }

    fn to_tokens(&self, output: &mut TokenStream) {
        emit_array(self, output);
        proof {
            assert(self.spec_tokens() == tk_array(*self));
        }
    }
}

impl Spanned for Array {
    open spec fn spec_span(&self) -> Span {
        sp_array(*self)
    }

    fn span(&self) -> (span: Span) {
        let span = span_of_array(self);
        proof {
            assert(self.spec_span() == sp_array(*self));
        }
        span
    }
}

impl ToTokens for List {
    open spec fn spec_tokens(&self) -> Seq<TokenModel> {
        tk_list(*self)
    }

    fn to_tokens(&self, output: &mut TokenStream) {
        emit_list(self, output);
        proof {
            assert(self.spec_tokens() == tk_list(*self));
        }
    }
}

impl Spanned for List {
    open spec fn spec_span(&self) -> Span {
        sp_list(*self)
    }

    fn span(&self) -> (span: Span) {
        let span = span_of_list(self);
        proof {
            assert(self.spec_span() == sp_list(*self));
        }
        span
    }
}

impl ToTokens for AngleBarList {
    open spec fn spec_tokens(&self) -> Seq<TokenModel> {
        tk_angle_bar_list(*self)
    }

    fn to_tokens(&self, output: &mut TokenStream) {
        emit_angle_bar_list(self, output);
        proof {
            assert(self.spec_tokens() == tk_angle_bar_list(*self));
        }
    }
}

impl Spanned for AngleBarList {
    open spec fn spec_span(&self) -> Span {
        sp_angle_bar_list(*self)
    }

    fn span(&self) -> (span: Span) {
        let span = span_of_angle_bar_list(self);
        proof {
            assert(self.spec_span() == sp_angle_bar_list(*self));
        }
        span
    }
}

impl ToTokens for Sequence {
    open spec fn spec_tokens(&self) -> Seq<TokenModel> {
        tk_sequence(*self)
    }

    fn to_tokens(&self, output: &mut TokenStream) {
        emit_sequence(self, output);
        proof {
            assert(self.spec_tokens() == tk_sequence(*self));
        }
    }
}

impl Spanned for Sequence {
    open spec fn spec_span(&self) -> Span {
        sp_sequence(*self)
    }

    fn span(&self) -> (span: Span) {
        let span = span_of_sequence(self);
        proof {
            assert(self.spec_span() == sp_sequence(*self));
        }
        span
    }
}

impl ToTokens for ParenthesizedExpression {
    open spec fn spec_tokens(&self) -> Seq<TokenModel> {
        tk_parenthesized_expression(*self)
    }

    fn to_tokens(&self, output: &mut TokenStream) {
        emit_parenthesized_expression(self, output);
        proof {
            assert(self.spec_tokens() == tk_parenthesized_expression(*self));
        }
    }
}

impl Spanned for ParenthesizedExpression {
    open spec fn spec_span(&self) -> Span {
        sp_parenthesized_expression(*self)
    }

    fn span(&self) -> (span: Span) {
        let span = span_of_parenthesized_expression(self);
        proof {
            assert(self.spec_span() == sp_parenthesized_expression(*self));
        }
        span
    }
}

impl ToTokens for StringLiteral {
    open spec fn spec_tokens(&self) -> Seq<TokenModel> {
        tk_string_literal(*self)
    }

    fn to_tokens(&self, output: &mut TokenStream) {
        emit_string_literal(self, output);
        proof {
            assert(self.spec_tokens() == tk_string_literal(*self));
        }
    }
}

impl Spanned for StringLiteral {
    open spec fn spec_span(&self) -> Span {
        sp_string_literal(*self)
    }

    fn span(&self) -> (span: Span) {
        let span = span_of_string_literal(self);
        proof {
            assert(self.spec_span() == sp_string_literal(*self));
        }
        span
    }
}

impl ToTokens for RawStringLiteral {
    open spec fn spec_tokens(&self) -> Seq<TokenModel> {
        tk_raw_string_literal(*self)
    }

    fn to_tokens(&self, output: &mut TokenStream) {
        emit_raw_string_literal(self, output);
        proof {
            assert(self.spec_tokens() == tk_raw_string_literal(*self));
        }
    }
}

impl Spanned for RawStringLiteral {
    open spec fn spec_span(&self) -> Span {
        sp_raw_string_literal(*self)
    }

    fn span(&self) -> (span: Span) {
        let span = span_of_raw_string_literal(self);
        proof {
            assert(self.spec_span() == sp_raw_string_literal(*self));
        }
        span
    }
}

impl ToTokens for BinaryExpression {
    open spec fn spec_tokens(&self) -> Seq<TokenModel> {
        tk_binary_expression(*self)
    }

    fn to_tokens(&self, output: &mut TokenStream) {
        emit_binary_expression(self, output);
        proof {
            assert(self.spec_tokens() == tk_binary_expression(*self));
        }
    }
}

impl Spanned for BinaryExpression {
    open spec fn spec_span(&self) -> Span {
        sp_binary_expression(*self)
    }

    fn span(&self) -> (span: Span) {
        let span = span_of_binary_expression(self);
        proof {
            assert(self.spec_span() == sp_binary_expression(*self));
        }
        span
    }
}

impl ToTokens for AdjacentExpression {
    open spec fn spec_tokens(&self) -> Seq<TokenModel> {
        tk_adjacent_expression(*self)
    }

    fn to_tokens(&self, output: &mut TokenStream) {
        emit_adjacent_expression(self, output);
        proof {
            assert(self.spec_tokens() == tk_adjacent_expression(*self));
        }
    }
}

impl Spanned for AdjacentExpression {
    open spec fn spec_span(&self) -> Span {
        sp_adjacent_expression(*self)
    }

    fn span(&self) -> (span: Span) {
        let span = span_of_adjacent_expression(self);
        proof {
            assert(self.spec_span() == sp_adjacent_expression(*self));
        }
        span
    }
}

impl ToTokens for PrefixExpression {
    open spec fn spec_tokens(&self) -> Seq<TokenModel> {
        tk_prefix_expression(*self)
    }

    fn to_tokens(&self, output: &mut TokenStream) {
        emit_prefix_expression(self, output);
        proof {
            assert(self.spec_tokens() == tk_prefix_expression(*self));
        }
    }
}

impl Spanned for PrefixExpression {
    open spec fn spec_span(&self) -> Span {
        sp_prefix_expression(*self)
    }

    fn span(&self) -> (span: Span) {
        let span = span_of_prefix_expression(self);
        proof {
            assert(self.spec_span() == sp_prefix_expression(*self));
        }
        span
    }
}

impl ToTokens for PostfixExpression {
    open spec fn spec_tokens(&self) -> Seq<TokenModel> {
        tk_postfix_expression(*self)
    }

    fn to_tokens(&self, output: &mut TokenStream) {
        emit_postfix_expression(self, output);
        proof {
            assert(self.spec_tokens() == tk_postfix_expression(*self));
        }
    }
}

impl Spanned for PostfixExpression {
    open spec fn spec_span(&self) -> Span {
        sp_postfix_expression(*self)
    }

    fn span(&self) -> (span: Span) {
        let span = span_of_postfix_expression(self);
        proof {
            assert(self.spec_span() == sp_postfix_expression(*self));
        }
        span
    }
}

impl ToTokens for LambdaExpression {
    open spec fn spec_tokens(&self) -> Seq<TokenModel> {
        tk_lambda_expression(*self)
    }

    fn to_tokens(&self, output: &mut TokenStream) {
        emit_lambda_expression(self, output);
        proof {
            assert(self.spec_tokens() == tk_lambda_expression(*self));
        }
    }
}

impl Spanned for LambdaExpression {
    open spec fn spec_span(&self) -> Span {
        sp_lambda_expression(*self)
    }

    fn span(&self) -> (span: Span) {
        let span = span_of_lambda_expression(self);
        proof {
            assert(self.spec_span() == sp_lambda_expression(*self));
        }
        span
    }
}

impl ToTokens for Assignment {
    open spec fn spec_tokens(&self) -> Seq<TokenModel> {
        tk_assignment(*self)
    }

    fn to_tokens(&self, output: &mut TokenStream) {
        emit_assignment(self, output);
        proof {
            assert(self.spec_tokens() == tk_assignment(*self));
        }
    }
}

impl Spanned for Assignment {
    open spec fn spec_span(&self) -> Span {
        sp_assignment(*self)
    }

    fn span(&self) -> (span: Span) {
        let span = span_of_assignment(self);
        proof {
            assert(self.spec_span() == sp_assignment(*self));
        }
        span
    }
}

impl ToTokens for LocalAssignment {
    open spec fn spec_tokens(&self) -> Seq<TokenModel> {
        tk_local_assignment(*self)
    }

    fn to_tokens(&self, output: &mut TokenStream) {
        emit_local_assignment(self, output);
        proof {
            assert(self.spec_tokens() == tk_local_assignment(*self));
        }
    }
}

impl Spanned for LocalAssignment {
    open spec fn spec_span(&self) -> Span {
        sp_local_assignment(*self)
    }

    fn span(&self) -> (span: Span) {
        let span = span_of_local_assignment(self);
        proof {
            assert(self.spec_span() == sp_local_assignment(*self));
        }
        span
    }
}

impl ToTokens for BinaryAssignment {
    open spec fn spec_tokens(&self) -> Seq<TokenModel> {
        tk_binary_assignment(*self)
    }

    fn to_tokens(&self, output: &mut TokenStream) {
        emit_binary_assignment(self, output);
        proof {
            assert(self.spec_tokens() == tk_binary_assignment(*self));
        }
    }
}

impl Spanned for BinaryAssignment {
    open spec fn spec_span(&self) -> Span {
        sp_binary_assignment(*self)
    }

    fn span(&self) -> (span: Span) {
        let span = span_of_binary_assignment(self);
        proof {
            assert(self.spec_span() == sp_binary_assignment(*self));
        }
        span
    }
}

impl ToTokens for BinaryInstallation {
    open spec fn spec_tokens(&self) -> Seq<TokenModel> {
        tk_binary_installation(*self)
    }

    fn to_tokens(&self, output: &mut TokenStream) {
        emit_binary_installation(self, output);
        proof {
            assert(self.spec_tokens() == tk_binary_installation(*self));
        }
    }
}

impl Spanned for BinaryInstallation {
    open spec fn spec_span(&self) -> Span {
        sp_binary_installation(*self)
    }

    fn span(&self) -> (span: Span) {
        let span = span_of_binary_installation(self);
        proof {
            assert(self.spec_span() == sp_binary_installation(*self));
        }
        span
    }
}

impl ToTokens for PrefixAssignment {
    open spec fn spec_tokens(&self) -> Seq<TokenModel> {
        tk_prefix_assignment(*self)
    }

    fn to_tokens(&self, output: &mut TokenStream) {
        emit_prefix_assignment(self, output);
        proof {
            assert(self.spec_tokens() == tk_prefix_assignment(*self));
        }
    }
}

impl Spanned for PrefixAssignment {
    open spec fn spec_span(&self) -> Span {
        sp_prefix_assignment(*self)
    }

    fn span(&self) -> (span: Span) {
        let span = span_of_prefix_assignment(self);
        proof {
            assert(self.spec_span() == sp_prefix_assignment(*self));
        }
        span
    }
}

impl ToTokens for PrefixInstallation {
    open spec fn spec_tokens(&self) -> Seq<TokenModel> {
        tk_prefix_installation(*self)
    }

    fn to_tokens(&self, output: &mut TokenStream) {
        emit_prefix_installation(self, output);
        proof {
            assert(self.spec_tokens() == tk_prefix_installation(*self));
        }
    }
}

impl Spanned for PrefixInstallation {
    open spec fn spec_span(&self) -> Span {
        sp_prefix_installation(*self)
    }

    fn span(&self) -> (span: Span) {
        let span = span_of_prefix_installation(self);
        proof {
            assert(self.spec_span() == sp_prefix_installation(*self));
        }
        span
    }
}

impl ToTokens for PostfixAssignment {
    open spec fn spec_tokens(&self) -> Seq<TokenModel> {
        tk_postfix_assignment(*self)
    }

    fn to_tokens(&self, output: &mut TokenStream) {
        emit_postfix_assignment(self, output);
        proof {
            assert(self.spec_tokens() == tk_postfix_assignment(*self));
        }
    }
}

impl Spanned for PostfixAssignment {
    open spec fn spec_span(&self) -> Span {
        sp_postfix_assignment(*self)
    }

    fn span(&self) -> (span: Span) {
        let span = span_of_postfix_assignment(self);
        proof {
            assert(self.spec_span() == sp_postfix_assignment(*self));
        }
        span
    }
}

impl ToTokens for PostfixInstallation {
    open spec fn spec_tokens(&self) -> Seq<TokenModel> {
        tk_postfix_installation(*self)
    }

    fn to_tokens(&self, output: &mut TokenStream) {
        emit_postfix_installation(self, output);
        proof {
            assert(self.spec_tokens() == tk_postfix_installation(*self));
        }
    }
}

impl Spanned for PostfixInstallation {
    open spec fn spec_span(&self) -> Span {
        sp_postfix_installation(*self)
    }

    fn span(&self) -> (span: Span) {
        let span = span_of_postfix_installation(self);
        proof {
            assert(self.spec_span() == sp_postfix_installation(*self));
        }
        span
    }
}

impl ToTokens for StructuredBinding {
    open spec fn spec_tokens(&self) -> Seq<TokenModel> {
        tk_structured_binding(*self)
    }

    fn to_tokens(&self, output: &mut TokenStream) {
        emit_structured_binding(self, output);
        proof {
            assert(self.spec_tokens() == tk_structured_binding(*self));
        }
    }
}

impl Spanned for StructuredBinding {
    open spec fn spec_span(&self) -> Span {
        sp_structured_binding(*self)
    }

    fn span(&self) -> (span: Span) {
        let span = span_of_structured_binding(self);
        proof {
            assert(self.spec_span() == sp_structured_binding(*self));
        }
        span
    }
}

impl ToTokens for LocalStructuredBinding {
    open spec fn spec_tokens(&self) -> Seq<TokenModel> {
        tk_local_structured_binding(*self)
    }

    fn to_tokens(&self, output: &mut TokenStream) {
        emit_local_structured_binding(self, output);
        proof {
            assert(self.spec_tokens() == tk_local_structured_binding(*self));
        }
    }
}

impl Spanned for LocalStructuredBinding {
    open spec fn spec_span(&self) -> Span {
        sp_local_structured_binding(*self)
    }

    fn span(&self) -> (span: Span) {
        let span = span_of_local_structured_binding(self);
        proof {
            assert(self.spec_span() == sp_local_structured_binding(*self));
        }
        span
    }
}

impl ToTokens for EvaluatedAssignment {
    open spec fn spec_tokens(&self) -> Seq<TokenModel> {
        tk_evaluated_assignment(*self)
    }

    fn to_tokens(&self, output: &mut TokenStream) {
        emit_evaluated_assignment(self, output);
        proof {
            assert(self.spec_tokens() == tk_evaluated_assignment(*self));
        }
    }
}

impl Spanned for EvaluatedAssignment {
    open spec fn spec_span(&self) -> Span {
        sp_evaluated_assignment(*self)
    }

    fn span(&self) -> (span: Span) {
        let span = span_of_evaluated_assignment(self);
        proof {
            assert(self.spec_span() == sp_evaluated_assignment(*self));
        }
        span
    }
}

impl ToTokens for OptionExpression {
    open spec fn spec_tokens(&self) -> Seq<TokenModel> {
        tk_option_expression(*self)
    }

    fn to_tokens(&self, output: &mut TokenStream) {
        emit_option_expression(self, output);
        proof {
            assert(self.spec_tokens() == tk_option_expression(*self));
        }
    }
}

impl Spanned for OptionExpression {
    open spec fn spec_span(&self) -> Span {
        sp_option_expression(*self)
    }

    fn span(&self) -> (span: Span) {
        let span = span_of_option_expression(self);
        proof {
            assert(self.spec_span() == sp_option_expression(*self));
        }
        span
    }
}

impl ToTokens for ThenClause {
    open spec fn spec_tokens(&self) -> Seq<TokenModel> {
        tk_then_clause(*self)
    }

    fn to_tokens(&self, output: &mut TokenStream) {
        emit_then_clause(self, output);
        proof {
            assert(self.spec_tokens() == tk_then_clause(*self));
        }
    }
}

impl Spanned for ThenClause {
    open spec fn spec_span(&self) -> Span {
        sp_then_clause(*self)
    }

    fn span(&self) -> (span: Span) {
        let span = span_of_then_clause(self);
        proof {
            assert(self.spec_span() == sp_then_clause(*self));
        }
        span
    }
}

impl ToTokens for ElseClause {
    open spec fn spec_tokens(&self) -> Seq<TokenModel> {
        tk_else_clause(*self)
    }

    fn to_tokens(&self, output: &mut TokenStream) {
        emit_else_clause(self, output);
        proof {
            assert(self.spec_tokens() == tk_else_clause(*self));
        }
    }
}

impl Spanned for ElseClause {
    open spec fn spec_span(&self) -> Span {
        sp_else_clause(*self)
    }

    fn span(&self) -> (span: Span) {
        let span = span_of_else_clause(self);
        proof {
            assert(self.spec_span() == sp_else_clause(*self));
        }
        span
    }
}

impl ToTokens for IfStatement {
    open spec fn spec_tokens(&self) -> Seq<TokenModel> {
        tk_if_statement(*self)
    }

    fn to_tokens(&self, output: &mut TokenStream) {
        emit_if_statement(self, output);
        proof {
            assert(self.spec_tokens() == tk_if_statement(*self));
        }
    }
}

impl Spanned for IfStatement {
    open spec fn spec_span(&self) -> Span {
        sp_if_statement(*self)
    }

    fn span(&self) -> (span: Span) {
        let span = span_of_if_statement(self);
        proof {
            assert(self.spec_span() == sp_if_statement(*self));
        }
        span
    }
}

impl ToTokens for LoopBody {
    open spec fn spec_tokens(&self) -> Seq<TokenModel> {
        tk_loop_body(*self)
    }

    fn to_tokens(&self, output: &mut TokenStream) {
        emit_loop_body(self, output);
        proof {
            assert(self.spec_tokens() == tk_loop_body(*self));
        }
    }
}

impl Spanned for LoopBody {
    open spec fn spec_span(&self) -> Span {
        sp_loop_body(*self)
    }

    fn span(&self) -> (span: Span) {
        let span = span_of_loop_body(self);
        proof {
            assert(self.spec_span() == sp_loop_body(*self));
        }
        span
    }
}

impl ToTokens for IterationRange {
    open spec fn spec_tokens(&self) -> Seq<TokenModel> {
        tk_iteration_range(*self)
    }

    fn to_tokens(&self, output: &mut TokenStream) {
        emit_iteration_range(self, output);
        proof {
            assert(self.spec_tokens() == tk_iteration_range(*self));
        }
    }
}

impl Spanned for IterationRange {
    open spec fn spec_span(&self) -> Span {
        sp_iteration_range(*self)
    }

    fn span(&self) -> (span: Span) {
        let span = span_of_iteration_range(self);
        proof {
            assert(self.spec_span() == sp_iteration_range(*self));
        }
        span
    }
}

impl ToTokens for ForLoop {
    open spec fn spec_tokens(&self) -> Seq<TokenModel> {
        tk_for_loop(*self)
    }

    fn to_tokens(&self, output: &mut TokenStream) {
        emit_for_loop(self, output);
        proof {
            assert(self.spec_tokens() == tk_for_loop(*self));
        }
    }
}

impl Spanned for ForLoop {
    open spec fn spec_span(&self) -> Span {
        sp_for_loop(*self)
    }

    fn span(&self) -> (span: Span) {
        let span = span_of_for_loop(self);
        proof {
            assert(self.spec_span() == sp_for_loop(*self));
        }
        span
    }
}

impl ToTokens for WhileLoop {
    open spec fn spec_tokens(&self) -> Seq<TokenModel> {
        tk_while_loop(*self)
    }

    fn to_tokens(&self, output: &mut TokenStream) {
        emit_while_loop(self, output);
        proof {
            assert(self.spec_tokens() == tk_while_loop(*self));
        }
    }
}

impl Spanned for WhileLoop {
    open spec fn spec_span(&self) -> Span {
        sp_while_loop(*self)
    }

    fn span(&self) -> (span: Span) {
        let span = span_of_while_loop(self);
        proof {
            assert(self.spec_span() == sp_while_loop(*self));
        }
        span
    }
}

impl ToTokens for NewStatement {
    open spec fn spec_tokens(&self) -> Seq<TokenModel> {
        tk_new_statement(*self)
    }

    fn to_tokens(&self, output: &mut TokenStream) {
        emit_new_statement(self, output);
        proof {
            assert(self.spec_tokens() == tk_new_statement(*self));
        }
    }
}

impl Spanned for NewStatement {
    open spec fn spec_span(&self) -> Span {
        sp_new_statement(*self)
    }

    fn span(&self) -> (span: Span) {
        let span = span_of_new_statement(self);
        proof {
            assert(self.spec_span() == sp_new_statement(*self));
        }
        span
    }
}

impl ToTokens for DebugClause {
    open spec fn spec_tokens(&self) -> Seq<TokenModel> {
        tk_debug_clause(*self)
    }

    fn to_tokens(&self, output: &mut TokenStream) {
        emit_debug_clause(self, output);
        proof {
            assert(self.spec_tokens() == tk_debug_clause(*self));
        }
    }
}

impl Spanned for DebugClause {
    open spec fn spec_span(&self) -> Span {
        sp_debug_clause(*self)
    }

    fn span(&self) -> (span: Span) {
        let span = span_of_debug_clause(self);
        proof {
            assert(self.spec_span() == sp_debug_clause(*self));
        }
        span
    }
}

impl ToTokens for BreakStatement {
    open spec fn spec_tokens(&self) -> Seq<TokenModel> {
        tk_break_statement(*self)
    }

    fn to_tokens(&self, output: &mut TokenStream) {
        emit_break_statement(self, output);
        proof {
            assert(self.spec_tokens() == tk_break_statement(*self));
        }
    }
}

impl Spanned for BreakStatement {
    open spec fn spec_span(&self) -> Span {
        sp_break_statement(*self)
    }

    fn span(&self) -> (span: Span) {
        let span = span_of_break_statement(self);
        proof {
            assert(self.spec_span() == sp_break_statement(*self));
        }
        span
    }
}

impl ToTokens for ContinueStatement {
    open spec fn spec_tokens(&self) -> Seq<TokenModel> {
        tk_continue_statement(*self)
    }

    fn to_tokens(&self, output: &mut TokenStream) {
        emit_continue_statement(self, output);
        proof {
            assert(self.spec_tokens() == tk_continue_statement(*self));
        }
    }
}

impl Spanned for ContinueStatement {
    open spec fn spec_span(&self) -> Span {
        sp_continue_statement(*self)
    }

    fn span(&self) -> (span: Span) {
        let span = span_of_continue_statement(self);
        proof {
            assert(self.spec_span() == sp_continue_statement(*self));
        }
        span
    }
}

impl ToTokens for ReturnStatement {
    open spec fn spec_tokens(&self) -> Seq<TokenModel> {
        tk_return_statement(*self)
    }

    fn to_tokens(&self, output: &mut TokenStream) {
        emit_return_statement(self, output);
        proof {
            assert(self.spec_tokens() == tk_return_statement(*self));
        }
    }
}

impl Spanned for ReturnStatement {
    open spec fn spec_span(&self) -> Span {
        sp_return_statement(*self)
    }

    fn span(&self) -> (span: Span) {
        let span = span_of_return_statement(self);
        proof {
            assert(self.spec_span() == sp_return_statement(*self));
        }
        span
    }
}

impl ToTokens for CatchStatement {
    open spec fn spec_tokens(&self) -> Seq<TokenModel> {
        tk_catch_statement(*self)
    }

    fn to_tokens(&self, output: &mut TokenStream) {
        emit_catch_statement(self, output);
        proof {
            assert(self.spec_tokens() == tk_catch_statement(*self));
        }
    }
}

impl Spanned for CatchStatement {
    open spec fn spec_span(&self) -> Span {
        sp_catch_statement(*self)
    }

    fn span(&self) -> (span: Span) {
        let span = span_of_catch_statement(self);
        proof {
            assert(self.spec_span() == sp_catch_statement(*self));
        }
        span
    }
}

impl ToTokens for ThrowStatement {
    open spec fn spec_tokens(&self) -> Seq<TokenModel> {
        tk_throw_statement(*self)
    }

    fn to_tokens(&self, output: &mut TokenStream) {
        emit_throw_statement(self, output);
        proof {
            assert(self.spec_tokens() == tk_throw_statement(*self));
        }
    }
}

impl Spanned for ThrowStatement {
    open spec fn spec_span(&self) -> Span {
        sp_throw_statement(*self)
    }

    fn span(&self) -> (span: Span) {
        let span = span_of_throw_statement(self);
        proof {
            assert(self.spec_span() == sp_throw_statement(*self));
        }
        span
    }
}

impl ToTokens for TrapStatement {
    open spec fn spec_tokens(&self) -> Seq<TokenModel> {
        tk_trap_statement(*self)
    }

    fn to_tokens(&self, output: &mut TokenStream) {
        emit_trap_statement(self, output);
        proof {
            assert(self.spec_tokens() == tk_trap_statement(*self));
        }
    }
}

impl Spanned for TrapStatement {
    open spec fn spec_span(&self) -> Span {
        sp_trap_statement(*self)
    }

    fn span(&self) -> (span: Span) {
        let span = span_of_trap_statement(self);
        proof {
            assert(self.spec_span() == sp_trap_statement(*self));
        }
        span
    }
}

impl ToTokens for ExceptClause {
    open spec fn spec_tokens(&self) -> Seq<TokenModel> {
        tk_except_clause(*self)
    }

    fn to_tokens(&self, output: &mut TokenStream) {
        emit_except_clause(self, output);
        proof {
            assert(self.spec_tokens() == tk_except_clause(*self));
        }
    }
}

impl Spanned for ExceptClause {
    open spec fn spec_span(&self) -> Span {
        sp_except_clause(*self)
    }

    fn span(&self) -> (span: Span) {
        let span = span_of_except_clause(self);
        proof {
            assert(self.spec_span() == sp_except_clause(*self));
        }
        span
    }
}

impl ToTokens for TryStatement {
    open spec fn spec_tokens(&self) -> Seq<TokenModel> {
        tk_try_statement(*self)
    }

    fn to_tokens(&self, output: &mut TokenStream) {
        emit_try_statement(self, output);
        proof {
            assert(self.spec_tokens() == tk_try_statement(*self));
        }
    }
}

impl Spanned for TryStatement {
    open spec fn spec_span(&self) -> Span {
        sp_try_statement(*self)
    }

    fn span(&self) -> (span: Span) {
        let span = span_of_try_statement(self);
        proof {
            assert(self.spec_span() == sp_try_statement(*self));
        }
        span
    }
}

impl ToTokens for QuoteExpression {
    open spec fn spec_tokens(&self) -> Seq<TokenModel> {
        tk_quote_expression(*self)
    }

    fn to_tokens(&self, output: &mut TokenStream) {
        emit_quote_expression(self, output);
        proof {
            assert(self.spec_tokens() == tk_quote_expression(*self));
        }
    }
}

impl Spanned for QuoteExpression {
    open spec fn spec_span(&self) -> Span {
        sp_quote_expression(*self)
    }

    fn span(&self) -> (span: Span) {
        let span = span_of_quote_expression(self);
        proof {
            assert(self.spec_span() == sp_quote_expression(*self));
        }
        span
    }
}

impl ToTokens for AnyCell {
    open spec fn spec_tokens(&self) -> Seq<TokenModel> {
        tk_any_cell(*self)
    }

    fn to_tokens(&self, output: &mut TokenStream) {
        emit_any_cell(self, output);
        proof {
            assert(self.spec_tokens() == tk_any_cell(*self));
        }
    }
}

impl Spanned for AnyCell {
    open spec fn spec_span(&self) -> Span {
        sp_any_cell(*self)
    }

    fn span(&self) -> (span: Span) {
        let span = span_of_any_cell(self);
        proof {
            assert(self.spec_span() == sp_any_cell(*self));
        }
        span
    }
}

impl ToTokens for Component {
    open spec fn spec_tokens(&self) -> Seq<TokenModel> {
        tk_component(*self)
    }

    fn to_tokens(&self, output: &mut TokenStream) {
        emit_component(self, output);
        proof {
            assert(self.spec_tokens() == tk_component(*self));
        }
    }
}

impl Spanned for Component {
    open spec fn spec_span(&self) -> Span {
        sp_component(*self)
    }

    fn span(&self) -> (span: Span) {
        let span = span_of_component(self);
        proof {
            assert(self.spec_span() == sp_component(*self));
        }
        span
    }
}

impl ToTokens for SequenceElement {
    open spec fn spec_tokens(&self) -> Seq<TokenModel> {
        tk_sequence_element(*self)
    }

    fn to_tokens(&self, output: &mut TokenStream) {
        emit_sequence_element(self, output);
        proof {
            assert(self.spec_tokens() == tk_sequence_element(*self));
        }
    }
}

impl Spanned for SequenceElement {
    open spec fn spec_span(&self) -> Span {
        sp_sequence_element(*self)
    }

    fn span(&self) -> (span: Span) {
        let span = span_of_sequence_element(self);
        proof {
            assert(self.spec_span() == sp_sequence_element(*self));
        }
        span
    }
}

impl ToTokens for StringElement {
    open spec fn spec_tokens(&self) -> Seq<TokenModel> {
        tk_string_element(*self)
    }

    fn to_tokens(&self, output: &mut TokenStream) {
        emit_string_element(self, output);
        proof {
            assert(self.spec_tokens() == tk_string_element(*self));
        }
    }
}

impl Spanned for StringElement {
    open spec fn spec_span(&self) -> Span {
        sp_string_element(*self)
    }

    fn span(&self) -> (span: Span) {
        let span = span_of_string_element(self);
        proof {
            assert(self.spec_span() == sp_string_element(*self));
        }
        span
    }
}

impl ToTokens for RawStringElement {
    open spec fn spec_tokens(&self) -> Seq<TokenModel> {
        tk_raw_string_element(*self)
    }

    fn to_tokens(&self, output: &mut TokenStream) {
        emit_raw_string_element(self, output);
        proof {
            assert(self.spec_tokens() == tk_raw_string_element(*self));
        }
    }
}

impl Spanned for RawStringElement {
    open spec fn spec_span(&self) -> Span {
        sp_raw_string_element(*self)
    }

    fn span(&self) -> (span: Span) {
        let span = span_of_raw_string_element(self);
        proof {
            assert(self.spec_span() == sp_raw_string_element(*self));
        }
        span
    }
}

impl ToTokens for Collection {
    open spec fn spec_tokens(&self) -> Seq<TokenModel> {
        tk_collection(*self)
    }

    fn to_tokens(&self, output: &mut TokenStream) {
        emit_collection(self, output);
        proof {
            assert(self.spec_tokens() == tk_collection(*self));
        }
    }
}

impl Spanned for Collection {
    open spec fn spec_span(&self) -> Span {
        sp_collection(*self)
    }

    fn span(&self) -> (span: Span) {
        let span = span_of_collection(self);
        proof {
            assert(self.spec_span() == sp_collection(*self));
        }
        span
    }
}

impl ToTokens for BindingPack {
    open spec fn spec_tokens(&self) -> Seq<TokenModel> {
        tk_binding_pack(*self)
    }

    fn to_tokens(&self, output: &mut TokenStream) {
        emit_binding_pack(self, output);
        proof {
            assert(self.spec_tokens() == tk_binding_pack(*self));
        }
    }
}

impl Spanned for BindingPack {
    open spec fn spec_span(&self) -> Span {
        sp_binding_pack(*self)
    }

    fn span(&self) -> (span: Span) {
        let span = span_of_binding_pack(self);
        proof {
            assert(self.spec_span() == sp_binding_pack(*self));
        }
        span
    }
}

impl ToTokens for LambdaParameters {
    open spec fn spec_tokens(&self) -> Seq<TokenModel> {
        tk_lambda_parameters(*self)
    }

    fn to_tokens(&self, output: &mut TokenStream) {
        emit_lambda_parameters(self, output);
        proof {
            assert(self.spec_tokens() == tk_lambda_parameters(*self));
        }
    }
}

impl Spanned for LambdaParameters {
    open spec fn spec_span(&self) -> Span {
        sp_lambda_parameters(*self)
    }

    fn span(&self) -> (span: Span) {
        let span = span_of_lambda_parameters(self);
        proof {
            assert(self.spec_span() == sp_lambda_parameters(*self));
        }
        span
    }
}

impl ToTokens for TryFallback {
    open spec fn spec_tokens(&self) -> Seq<TokenModel> {
        tk_try_fallback(*self)
    }

    fn to_tokens(&self, output: &mut TokenStream) {
        emit_try_fallback(self, output);
        proof {
            assert(self.spec_tokens() == tk_try_fallback(*self));
        }
    }
}

impl Spanned for TryFallback {
    open spec fn spec_span(&self) -> Span {
        sp_try_fallback(*self)
    }

    fn span(&self) -> (span: Span) {
        let span = span_of_try_fallback(self);
        proof {
            assert(self.spec_span() == sp_try_fallback(*self));
        }
        span
    }
}

impl ToTokens for OperatorExpr {
    open spec fn spec_tokens(&self) -> Seq<TokenModel> {
        tk_operator_expr(*self)
    }

    fn to_tokens(&self, output: &mut TokenStream) {
        emit_operator_expr(self, output);
        proof {
            assert(self.spec_tokens() == tk_operator_expr(*self));
        }
    }
}

impl Spanned for OperatorExpr {
    open spec fn spec_span(&self) -> Span {
        sp_operator_expr(*self)
    }

    fn span(&self) -> (span: Span) {
        let span = span_of_operator_expr(self);
        proof {
            assert(self.spec_span() == sp_operator_expr(*self));
        }
        span
    }
}

impl ToTokens for AssignmentExpr {
    open spec fn spec_tokens(&self) -> Seq<TokenModel> {
        tk_assignment_expr(*self)
    }

    fn to_tokens(&self, output: &mut TokenStream) {
        emit_assignment_expr(self, output);
        proof {
            assert(self.spec_tokens() == tk_assignment_expr(*self));
        }
    }
}

impl Spanned for AssignmentExpr {
    open spec fn spec_span(&self) -> Span {
        sp_assignment_expr(*self)
    }

    fn span(&self) -> (span: Span) {
        let span = span_of_assignment_expr(self);
        proof {
            assert(self.spec_span() == sp_assignment_expr(*self));
        }
        span
    }
}

impl ToTokens for Expr {
    open spec fn spec_tokens(&self) -> Seq<TokenModel> {
        tk_expr(*self)
    }

    fn to_tokens(&self, output: &mut TokenStream) {
        emit_expr(self, output);
        proof {
            assert(self.spec_tokens() == tk_expr(*self));
        }
    }
}

impl Spanned for Expr {
    open spec fn spec_span(&self) -> Span {
        sp_expr(*self)
    }

    fn span(&self) -> (span: Span) {
        let span = span_of_expr(self);
        proof {
            assert(self.spec_span() == sp_expr(*self));
        }
        span
    }
}

impl ToTokens for SyntaxNode {
    open spec fn spec_tokens(&self) -> Seq<TokenModel> {
        tk_syntax_node(*self)
    }

    fn to_tokens(&self, output: &mut TokenStream) {
        emit_syntax_node(self, output);
        proof {
            assert(self.spec_tokens() == tk_syntax_node(*self));
        }
    }
}

impl Spanned for SyntaxNode {
    open spec fn spec_span(&self) -> Span {
        sp_syntax_node(*self)
    }

    fn span(&self) -> (span: Span) {
        let span = span_of_syntax_node(self);
        proof {
            assert(self.spec_span() == sp_syntax_node(*self));
        }
        span
    }
}

// ---------------------------------------------------------------------------
// Presentation trees
// ---------------------------------------------------------------------------
/// The presentation of a comma sequence of components.
fn pretty_punct(p: &Punctuated<Component>) -> (node: PrettyNode)
    ensures
        node.name@ == item_count_text("Punctuated"@, p.values().len()),
        node.role == NodeRole::Collection,
    decreases p, 0int,
{
    proof {
        lemma_punctuated_decreases(*p);
        crate::punct::lemma_values(*p);
    }
    let pairs = p.pairs();
    let n = pairs.len();
    let mut values: Vec<PrettyNode> = Vec::new();
    let mut commas: Vec<Option<PrettyNode>> = Vec::new();
    let mut i: usize = 0;
    while i < n
        invariant
            n == pairs@.len(),
            n == p.values().len(),
            i <= n,
            values@.len() == i,
            commas@.len() == i,
            forall|j: int|
                0 <= j < p.spec_pairs().len() ==> ((#[trigger] pairs@[j]) matches Pair::Punctuated(v, c) && *v
                    == p.spec_pairs()[j].0 && *c == p.spec_pairs()[j].1),
            p.spec_last() matches Some(v) ==> (pairs@.last() matches Pair::End(u) && *u == v),
            p.values() == crate::punct::punctuated_values(p.spec_pairs(), p.spec_last()),
            forall|j: int|
                0 <= j < p.spec_pairs().len() ==> decreases_to!(*p => #[trigger] p.spec_pairs()[j].0),
            p.spec_last() matches Some(v) ==> decreases_to!(*p => v),
        decreases n - i,
    {
        match &pairs[i] {
            Pair::Punctuated(v, c) => {
                proof {
                    if i as int >= p.spec_pairs().len() {
                        assert(pairs@[i as int] == pairs@.last());
                    }
                }
                values.push(pretty_component(*v));
                commas.push(Some(c.pretty_tree()));
            },
            Pair::End(v) => {
                proof {
                    if (i as int) < p.spec_pairs().len() {
                        assert(pairs@[i as int] matches Pair::Punctuated(_, _));
                    }
                    assert(p.values().len() == p.spec_pairs().len() + 1);
                    assert(i == p.spec_pairs().len());
                }
                values.push(pretty_component(*v));
                commas.push(None);
            },
        }
        i = i + 1;
    }
    punctuated_node(span_of_punct(p), values, commas)
}

/// The label of the `i`-th item of a list: the index in brackets.
fn index_label(i: usize) -> (label: String) {
    let mut label = String::new();
    append_str(&mut label, "[");
    push_decimal(&mut label, i as u64);
    append_str(&mut label, "]");
    label
}

fn pretty_list_any_cell(s: &Vec<AnyCell>) -> (node: PrettyNode)
    ensures
        node.name@ == item_count_text("List"@, s@.len() as nat),
        node.role == NodeRole::Collection,
        node.children@.len() == s@.len(),

{
    let name = item_count("List", s.len());
    proof {
        reveal_strlit("List");
    }
    let mut node = PrettyNode::collection(name.as_str(), span_of_list_any_cell(s));
    let mut i: usize = 0;
    while i < s.len()
        invariant
            i <= s@.len(),
            node.name@ == item_count_text("List"@, s@.len() as nat),
            node.role == NodeRole::Collection,
            node.children@.len() == i,
        decreases s@.len() - i,
    {
        let child = pretty_any_cell(&s[i]);
        node.push_node(index_label(i).as_str(), child);
        i = i + 1;
    }
    node
}

fn pretty_list_muted_group(s: &Vec<MutedGroup>) -> (node: PrettyNode)
    ensures
        node.name@ == item_count_text("List"@, s@.len() as nat),
        node.role == NodeRole::Collection,
        node.children@.len() == s@.len(),
    decreases s, 0int,
{
    let name = item_count("List", s.len());
    proof {
        reveal_strlit("List");
    }
    let mut node = PrettyNode::collection(name.as_str(), span_of_list_muted_group(s));
    let mut i: usize = 0;
    while i < s.len()
        invariant
            i <= s@.len(),
            node.name@ == item_count_text("List"@, s@.len() as nat),
            node.role == NodeRole::Collection,
            node.children@.len() == i,
        decreases s@.len() - i,
    {
        proof {
            assert(decreases_to!(s => s@));
            assert(decreases_to!(s@ => s@[i as int]));
        }
        let child = pretty_muted_group(&s[i]);
        node.push_node(index_label(i).as_str(), child);
        i = i + 1;
    }
    node
}

fn pretty_list_string_element(s: &Vec<StringElement>) -> (node: PrettyNode)
    ensures
        node.name@ == item_count_text("List"@, s@.len() as nat),
        node.role == NodeRole::Collection,
        node.children@.len() == s@.len(),

{
    let name = item_count("List", s.len());
    proof {
        reveal_strlit("List");
    }
    let mut node = PrettyNode::collection(name.as_str(), span_of_list_string_element(s));
    let mut i: usize = 0;
    while i < s.len()
        invariant
            i <= s@.len(),
            node.name@ == item_count_text("List"@, s@.len() as nat),
            node.role == NodeRole::Collection,
            node.children@.len() == i,
        decreases s@.len() - i,
    {
        let child = pretty_string_element(&s[i]);
        node.push_node(index_label(i).as_str(), child);
        i = i + 1;
    }
    node
}

fn pretty_list_raw_string_element(s: &Vec<RawStringElement>) -> (node: PrettyNode)
    ensures
        node.name@ == item_count_text("List"@, s@.len() as nat),
        node.role == NodeRole::Collection,
        node.children@.len() == s@.len(),

{
    let name = item_count("List", s.len());
    proof {
        reveal_strlit("List");
    }
    let mut node = PrettyNode::collection(name.as_str(), span_of_list_raw_string_element(s));
    let mut i: usize = 0;
    while i < s.len()
        invariant
            i <= s@.len(),
            node.name@ == item_count_text("List"@, s@.len() as nat),
            node.role == NodeRole::Collection,
            node.children@.len() == i,
        decreases s@.len() - i,
    {
        let child = pretty_raw_string_element(&s[i]);
        node.push_node(index_label(i).as_str(), child);
        i = i + 1;
    }
    node
}

fn pretty_symbol(x: &Symbol) -> (node: PrettyNode)
    ensures
        node.name@ == "Symbol"@,
        node.detail matches Some(d) && d@ == x.text@,
        node.span == x.span,
        node.role == NodeRole::Token,
{
    proof {
        reveal_strlit("Symbol");
        reveal_strlit("Delimiter");
        assert("Symbol"@[0] != "Delimiter"@[0] || "Symbol"@.len() != "Delimiter"@.len());
    }
    PrettyNode::token("Symbol", x.text.as_str(), x.span)
}

fn pretty_block_comment(x: &BlockComment) -> (node: PrettyNode)
    ensures
        node.name@ == "BlockComment"@,
        node.detail matches Some(d) && d@ == x.text@,
        node.span == x.span,
        node.role == NodeRole::Token,
{
    proof {
        reveal_strlit("BlockComment");
        reveal_strlit("Delimiter");
        assert("BlockComment"@[0] != "Delimiter"@[0] || "BlockComment"@.len() != "Delimiter"@.len());
    }
    PrettyNode::token("BlockComment", x.text.as_str(), x.span)
}

fn pretty_line_comment(x: &LineComment) -> (node: PrettyNode)
    ensures
        node.name@ == "LineComment"@,
        node.detail matches Some(d) && d@ == x.text@,
        node.span == x.span,
        node.role == NodeRole::Token,
{
    proof {
        reveal_strlit("LineComment");
        reveal_strlit("Delimiter");
        assert("LineComment"@[0] != "Delimiter"@[0] || "LineComment"@.len() != "Delimiter"@.len());
    }
    PrettyNode::token("LineComment", x.text.as_str(), x.span)
}

fn pretty_empty_component(x: &EmptyComponent) -> (node: PrettyNode)
    ensures
        node.name@ == "EmptyComponent"@,
        node.detail matches Some(d) && d@ == x.text@,
        node.span == x.span,
        node.role == NodeRole::Token,
{
    proof {
        reveal_strlit("EmptyComponent");
        reveal_strlit("Delimiter");
        assert("EmptyComponent"@[0] != "Delimiter"@[0] || "EmptyComponent"@.len() != "Delimiter"@.len());
    }
    PrettyNode::token("EmptyComponent", x.text.as_str(), x.span)
}

fn pretty_escape_sequence(x: &EscapeSequence) -> (node: PrettyNode)
    ensures
        node.name@ == "EscapeSequence"@,
        node.detail matches Some(d) && d@ == x.text@,
        node.span == x.span,
        node.role == NodeRole::Token,
{
    proof {
        reveal_strlit("EscapeSequence");
        reveal_strlit("Delimiter");
        assert("EscapeSequence"@[0] != "Delimiter"@[0] || "EscapeSequence"@.len() != "Delimiter"@.len());
    }
    PrettyNode::token("EscapeSequence", x.text.as_str(), x.span)
}

fn pretty_float_literal(x: &FloatLiteral) -> (node: PrettyNode)
    ensures
        node.name@ == "FloatLiteral"@,
        node.detail matches Some(d) && d@ == x.text@,
        node.span == x.span,
        node.role == NodeRole::Token,
{
    proof {
        reveal_strlit("FloatLiteral");
        reveal_strlit("Delimiter");
        assert("FloatLiteral"@[0] != "Delimiter"@[0] || "FloatLiteral"@.len() != "Delimiter"@.len());
    }
    PrettyNode::token("FloatLiteral", x.text.as_str(), x.span)
}

fn pretty_integer_literal(x: &IntegerLiteral) -> (node: PrettyNode)
    ensures
        node.name@ == "IntegerLiteral"@,
        node.detail matches Some(d) && d@ == x.text@,
        node.span == x.span,
        node.role == NodeRole::Token,
{
    proof {
        reveal_strlit("IntegerLiteral");
        reveal_strlit("Delimiter");
        assert("IntegerLiteral"@[0] != "Delimiter"@[0] || "IntegerLiteral"@.len() != "Delimiter"@.len());
    }
    PrettyNode::token("IntegerLiteral", x.text.as_str(), x.span)
}

fn pretty_raw_string_content(x: &RawStringContent) -> (node: PrettyNode)
    ensures
        node.name@ == "RawStringContent"@,
        node.detail matches Some(d) && d@ == x.text@,
        node.span == x.span,
        node.role == NodeRole::Token,
{
    proof {
        reveal_strlit("RawStringContent");
        reveal_strlit("Delimiter");
        assert("RawStringContent"@[0] != "Delimiter"@[0] || "RawStringContent"@.len() != "Delimiter"@.len());
    }
    PrettyNode::token("RawStringContent", x.text.as_str(), x.span)
}

fn pretty_string_content(x: &StringContent) -> (node: PrettyNode)
    ensures
        node.name@ == "StringContent"@,
        node.detail matches Some(d) && d@ == x.text@,
        node.span == x.span,
        node.role == NodeRole::Token,
{
    proof {
        reveal_strlit("StringContent");
        reveal_strlit("Delimiter");
        assert("StringContent"@[0] != "Delimiter"@[0] || "StringContent"@.len() != "Delimiter"@.len());
    }
    PrettyNode::token("StringContent", x.text.as_str(), x.span)
}

fn pretty_debug_keyword(x: &DebugKeyword) -> (node: PrettyNode)
    ensures
        node.span == sp_debug_keyword(*x),
{
    match x {
        DebugKeyword::Step(t) => PrettyNode::variant("DebugKeyword", "Step", t.span(), t.pretty_tree()),
        DebugKeyword::Finish(t) => PrettyNode::variant("DebugKeyword", "Finish", t.span(), t.pretty_tree()),
        DebugKeyword::Shield(t) => PrettyNode::variant("DebugKeyword", "Shield", t.span(), t.pretty_tree()),
        DebugKeyword::Test(t) => PrettyNode::variant("DebugKeyword", "Test", t.span(), t.pretty_tree()),
        DebugKeyword::Time(t) => PrettyNode::variant("DebugKeyword", "Time", t.span(), t.pretty_tree()),
        DebugKeyword::Timing(t) => PrettyNode::variant("DebugKeyword", "Timing", t.span(), t.pretty_tree()),
        DebugKeyword::Breakpoint(t) => PrettyNode::variant("DebugKeyword", "Breakpoint", t.span(), t.pretty_tree()),
        DebugKeyword::ElapsedTime(t) => PrettyNode::variant("DebugKeyword", "ElapsedTime", t.span(), t.pretty_tree()),
        DebugKeyword::ElapsedTiming(t) => PrettyNode::variant("DebugKeyword", "ElapsedTiming", t.span(), t.pretty_tree()),
        DebugKeyword::Profile(t) => PrettyNode::variant("DebugKeyword", "Profile", t.span(), t.pretty_tree()),
    }
}

fn pretty_quote_specifier(x: &QuoteSpecifier) -> (node: PrettyNode)
    ensures
        node.span == sp_quote_specifier(*x),
{
    match x {
        QuoteSpecifier::Symbol(t) => PrettyNode::variant("QuoteSpecifier", "Symbol", t.span(), t.pretty_tree()),
        QuoteSpecifier::Local(t) => PrettyNode::variant("QuoteSpecifier", "Local", t.span(), t.pretty_tree()),
        QuoteSpecifier::Global(t) => PrettyNode::variant("QuoteSpecifier", "Global", t.span(), t.pretty_tree()),
        QuoteSpecifier::ThreadVariable(t) => PrettyNode::variant("QuoteSpecifier", "ThreadVariable", t.span(), t.pretty_tree()),
        QuoteSpecifier::ThreadLocal(t) => PrettyNode::variant("QuoteSpecifier", "ThreadLocal", t.span(), t.pretty_tree()),
    }
}

fn pretty_source_file(x: &SourceFile) -> (node: PrettyNode)
    ensures
        node.name@ == "SourceFile"@,
        node.role == NodeRole::Syntax,
        node.span == sp_source_file(*x),
        node.children@.len() == 1,
{
    proof {
        reveal_strlit("SourceFile");
    }
    let mut node = PrettyNode::syntax("SourceFile", span_of_source_file(x));
    let child = pretty_list_any_cell(&x.elements);
    node.push_node("elements", child);
    node
}

fn pretty_expression_cell(x: &ExpressionCell) -> (node: PrettyNode)
    ensures
        node.name@ == "ExpressionCell"@,
        node.role == NodeRole::Syntax,
        node.span == sp_expression_cell(*x),
        node.children@.len() == 1,
        node.children@[0].label@ == "value"@,
        node.children@[0].node.span == (if sp_expr(*x.value) is Detached {
            sp_expression_cell(*x)
        } else {
            sp_expr(*x.value)
        }),
{
    proof {
        reveal_strlit("ExpressionCell");
    }
    let mut node = PrettyNode::syntax("ExpressionCell", span_of_expression_cell(x));
    let child = pretty_expr(&x.value);
    node.push_node("value", child);
    node
}

fn pretty_sequence_cell(x: &SequenceCell) -> (node: PrettyNode)
    ensures
        node.name@ == "SequenceCell"@,
        node.role == NodeRole::Syntax,
        node.span == sp_sequence_cell(*x),
        node.children@.len() == 1,
        node.children@[0].label@ == "value"@,
        node.children@[0].node.span == (if sp_naked_sequence(x.value) is Detached {
            sp_sequence_cell(*x)
        } else {
            sp_naked_sequence(x.value)
        }),
{
    proof {
        reveal_strlit("SequenceCell");
    }
    let mut node = PrettyNode::syntax("SequenceCell", span_of_sequence_cell(x));
    let child = pretty_naked_sequence(&x.value);
    node.push_node("value", child);
    node
}

fn pretty_naked_sequence(x: &NakedSequence) -> (node: PrettyNode)
    ensures
        node.name@ == "NakedSequence"@,
        node.role == NodeRole::Syntax,
        node.span == sp_naked_sequence(*x),
        node.children@.len() == 1,
        node.children@[0].label@ == "elements"@,
{
    proof {
        reveal_strlit("NakedSequence");
    }
    let mut node = PrettyNode::syntax("NakedSequence", span_of_naked_sequence(x));
    let child = pretty_punct(&x.elements);
    node.push_node("elements", child);
    node
}

fn pretty_muted_cell(x: &MutedCell) -> (node: PrettyNode)
    ensures
        node.name@ == "MutedCell"@,
        node.role == NodeRole::Syntax,
        node.span == sp_muted_cell(*x),
        node.children@.len() == 2,
        node.children@[0].label@ == "elements"@,
        node.children@[1].label@ == "semicolon"@,
        node.children@[1].node.span == (if x.semicolon.spec_span() is Detached {
            sp_muted_cell(*x)
        } else {
            x.semicolon.spec_span()
        }),
{
    proof {
        reveal_strlit("MutedCell");
    }
    let mut node = PrettyNode::syntax("MutedCell", span_of_muted_cell(x));
    let child = pretty_punct(&x.elements);
    node.push_node("elements", child);
    let child = x.semicolon.pretty_tree();
    node.push_node("semicolon", child);
    node
}

fn pretty_muted_group(x: &MutedGroup) -> (node: PrettyNode)
    ensures
        node.name@ == "MutedGroup"@,
        node.role == NodeRole::Syntax,
        node.span == sp_muted_group(*x),
        node.children@.len() == 2,
        node.children@[0].label@ == "elements"@,
        node.children@[1].label@ == "semicolon"@,
        node.children@[1].node.span == (if x.semicolon.spec_span() is Detached {
            sp_muted_group(*x)
        } else {
            x.semicolon.spec_span()
        }),
    decreases x, 0int,
{
    proof {
        reveal_strlit("MutedGroup");
    }
    let mut node = PrettyNode::syntax("MutedGroup", span_of_muted_group(x));
    let child = pretty_punct(&x.elements);
    node.push_node("elements", child);
    let child = x.semicolon.pretty_tree();
    node.push_node("semicolon", child);
    node
}

fn pretty_array(x: &Array) -> (node: PrettyNode)
    ensures
        node.name@ == "Array"@,
        node.role == NodeRole::Syntax,
        node.span == sp_array(*x),
        node.children@.len() == 3,
        node.children@[0].label@ == "muted"@,
        node.children@[1].label@ == "elements"@,
    decreases x, 0int,
{
    proof {
        reveal_strlit("Array");
    }
    let mut node = PrettyNode::syntax("Array", span_of_array(x));
    let child = pretty_list_muted_group(&x.muted);
    node.push_node("muted", child);
    let child = pretty_punct(&x.elements);
    node.push_node("elements", child);
    node.push_node("delimiter", x.delimiter.pretty_tree());
    node
}

fn pretty_list(x: &List) -> (node: PrettyNode)
    ensures
        node.name@ == "List"@,
        node.role == NodeRole::Syntax,
        node.span == sp_list(*x),
        node.children@.len() == 3,
        node.children@[0].label@ == "muted"@,
        node.children@[1].label@ == "elements"@,
    decreases x, 0int,
{
    proof {
        reveal_strlit("List");
    }
    let mut node = PrettyNode::syntax("List", span_of_list(x));
    let child = pretty_list_muted_group(&x.muted);
    node.push_node("muted", child);
    let child = pretty_punct(&x.elements);
    node.push_node("elements", child);
    node.push_node("delimiter", x.delimiter.pretty_tree());
    node
}

fn pretty_angle_bar_list(x: &AngleBarList) -> (node: PrettyNode)
    ensures
        node.name@ == "AngleBarList"@,
        node.role == NodeRole::Syntax,
        node.span == sp_angle_bar_list(*x),
        node.children@.len() == 3,
        node.children@[0].label@ == "muted"@,
        node.children@[1].label@ == "elements"@,
    decreases x, 0int,
{
    proof {
        reveal_strlit("AngleBarList");
    }
    let mut node = PrettyNode::syntax("AngleBarList", span_of_angle_bar_list(x));
    let child = pretty_list_muted_group(&x.muted);
    node.push_node("muted", child);
    let child = pretty_punct(&x.elements);
    node.push_node("elements", child);
    node.push_node("delimiter", x.delimiter.pretty_tree());
    node
}

fn pretty_sequence(x: &Sequence) -> (node: PrettyNode)
    ensures
        node.name@ == "Sequence"@,
        node.role == NodeRole::Syntax,
        node.span == sp_sequence(*x),
        node.children@.len() == 3,
        node.children@[0].label@ == "muted"@,
        node.children@[1].label@ == "elements"@,
    decreases x, 0int,
{
    proof {
        reveal_strlit("Sequence");
    }
    let mut node = PrettyNode::syntax("Sequence", span_of_sequence(x));
    let child = pretty_list_muted_group(&x.muted);
    node.push_node("muted", child);
    let child = pretty_punct(&x.elements);
    node.push_node("elements", child);
    node.push_node("delimiter", x.delimiter.pretty_tree());
    node
}

fn pretty_parenthesized_expression(x: &ParenthesizedExpression) -> (node: PrettyNode)
    ensures
        node.name@ == "ParenthesizedExpression"@,
        node.role == NodeRole::Syntax,
        node.span == sp_parenthesized_expression(*x),
        node.children@.len() == 3,
        node.children@[0].label@ == "muted"@,
        node.children@[1].label@ == "value"@,
        node.children@[1].node.span == (if match x.value { Some(e) => sp_expr(*e), None => Span::Detached } is Detached {
            sp_parenthesized_expression(*x)
        } else {
            match x.value { Some(e) => sp_expr(*e), None => Span::Detached }
        }),
    decreases x, 0int,
{
    proof {
        reveal_strlit("ParenthesizedExpression");
    }
    let mut node = PrettyNode::syntax("ParenthesizedExpression", span_of_parenthesized_expression(x));
    let child = pretty_list_muted_group(&x.muted);
    node.push_node("muted", child);
    let child = match &x.value { Some(e) => pretty_expr(e), None => PrettyNode::absent() };
    node.push_node("value", child);
    node.push_node("delimiter", x.delimiter.pretty_tree());
    node
}

fn pretty_string_literal(x: &StringLiteral) -> (node: PrettyNode)
    ensures
        node.name@ == "StringLiteral"@,
        node.role == NodeRole::Syntax,
        node.span == sp_string_literal(*x),
        node.children@.len() == 1,
        node.children@[0].label@ == "elements"@,
{
    proof {
        reveal_strlit("StringLiteral");
    }
    let mut node = PrettyNode::syntax("StringLiteral", span_of_string_literal(x));
    let child = pretty_list_string_element(&x.elements);
    node.push_node("elements", child);
    node
}

fn pretty_raw_string_literal(x: &RawStringLiteral) -> (node: PrettyNode)
    ensures
        node.name@ == "RawStringLiteral"@,
        node.role == NodeRole::Syntax,
        node.span == sp_raw_string_literal(*x),
        node.children@.len() == 1,
        node.children@[0].label@ == "elements"@,
{
    proof {
        reveal_strlit("RawStringLiteral");
    }
    let mut node = PrettyNode::syntax("RawStringLiteral", span_of_raw_string_literal(x));
    let child = pretty_list_raw_string_element(&x.elements);
    node.push_node("elements", child);
    node
}

fn pretty_binary_expression(x: &BinaryExpression) -> (node: PrettyNode)
    ensures
        node.name@ == "BinaryExpression"@,
        node.role == NodeRole::Syntax,
        node.span == sp_binary_expression(*x),
        node.children@.len() == 3,
        node.children@[0].label@ == "left"@,
        node.children@[0].node.span == (if sp_expr(*x.left) is Detached {
            sp_binary_expression(*x)
        } else {
            sp_expr(*x.left)
        }),
        node.children@[1].label@ == "operator"@,
        node.children@[1].node.span == (if x.operator.spec_span() is Detached {
            sp_binary_expression(*x)
        } else {
            x.operator.spec_span()
        }),
        node.children@[2].label@ == "right"@,
        node.children@[2].node.span == (if sp_expr(*x.right) is Detached {
            sp_binary_expression(*x)
        } else {
            sp_expr(*x.right)
        }),
    decreases x, 0int,
{
    proof {
        reveal_strlit("BinaryExpression");
    }
    let mut node = PrettyNode::syntax("BinaryExpression", span_of_binary_expression(x));
    let child = pretty_expr(&x.left);
    node.push_node("left", child);
    let child = x.operator.pretty_tree();
    node.push_node("operator", child);
    let child = pretty_expr(&x.right);
    node.push_node("right", child);
    node
}

fn pretty_adjacent_expression(x: &AdjacentExpression) -> (node: PrettyNode)
    ensures
        node.name@ == "AdjacentExpression"@,
        node.role == NodeRole::Syntax,
        node.span == sp_adjacent_expression(*x),
        node.children@.len() == 2,
        node.children@[0].label@ == "left"@,
        node.children@[0].node.span == (if sp_expr(*x.left) is Detached {
            sp_adjacent_expression(*x)
        } else {
            sp_expr(*x.left)
        }),
        node.children@[1].label@ == "right"@,
        node.children@[1].node.span == (if sp_expr(*x.right) is Detached {
            sp_adjacent_expression(*x)
        } else {
            sp_expr(*x.right)
        }),
    decreases x, 0int,
{
    proof {
        reveal_strlit("AdjacentExpression");
    }
    let mut node = PrettyNode::syntax("AdjacentExpression", span_of_adjacent_expression(x));
    let child = pretty_expr(&x.left);
    node.push_node("left", child);
    let child = pretty_expr(&x.right);
    node.push_node("right", child);
    node
}

fn pretty_prefix_expression(x: &PrefixExpression) -> (node: PrettyNode)
    ensures
        node.name@ == "PrefixExpression"@,
        node.role == NodeRole::Syntax,
        node.span == sp_prefix_expression(*x),
        node.children@.len() == 2,
        node.children@[0].label@ == "operator"@,
        node.children@[0].node.span == (if x.operator.spec_span() is Detached {
            sp_prefix_expression(*x)
        } else {
            x.operator.spec_span()
        }),
        node.children@[1].label@ == "operand"@,
        node.children@[1].node.span == (if sp_expr(*x.operand) is Detached {
            sp_prefix_expression(*x)
        } else {
            sp_expr(*x.operand)
        }),
    decreases x, 0int,
{
    proof {
        reveal_strlit("PrefixExpression");
    }
    let mut node = PrettyNode::syntax("PrefixExpression", span_of_prefix_expression(x));
    let child = x.operator.pretty_tree();
    node.push_node("operator", child);
    let child = pretty_expr(&x.operand);
    node.push_node("operand", child);
    node
}

fn pretty_postfix_expression(x: &PostfixExpression) -> (node: PrettyNode)
    ensures
        node.name@ == "PostfixExpression"@,
        node.role == NodeRole::Syntax,
        node.span == sp_postfix_expression(*x),
        node.children@.len() == 2,
        node.children@[0].label@ == "operand"@,
        node.children@[0].node.span == (if sp_expr(*x.operand) is Detached {
            sp_postfix_expression(*x)
        } else {
            sp_expr(*x.operand)
        }),
        node.children@[1].label@ == "operator"@,
        node.children@[1].node.span == (if x.operator.spec_span() is Detached {
            sp_postfix_expression(*x)
        } else {
            x.operator.spec_span()
        }),
    decreases x, 0int,
{
    proof {
        reveal_strlit("PostfixExpression");
    }
    let mut node = PrettyNode::syntax("PostfixExpression", span_of_postfix_expression(x));
    let child = pretty_expr(&x.operand);
    node.push_node("operand", child);
    let child = x.operator.pretty_tree();
    node.push_node("operator", child);
    node
}

fn pretty_lambda_expression(x: &LambdaExpression) -> (node: PrettyNode)
    ensures
        node.name@ == "LambdaExpression"@,
        node.role == NodeRole::Syntax,
        node.span == sp_lambda_expression(*x),
        node.children@.len() == 3,
        node.children@[0].label@ == "parameters"@,
        node.children@[0].node.span == (if sp_lambda_parameters(x.parameters) is Detached {
            sp_lambda_expression(*x)
        } else {
            sp_lambda_parameters(x.parameters)
        }),
        node.children@[1].label@ == "operator"@,
        node.children@[1].node.span == (if x.operator.spec_span() is Detached {
            sp_lambda_expression(*x)
        } else {
            x.operator.spec_span()
        }),
        node.children@[2].label@ == "body"@,
        node.children@[2].node.span == (if sp_expr(*x.body) is Detached {
            sp_lambda_expression(*x)
        } else {
            sp_expr(*x.body)
        }),
    decreases x, 0int,
{
    proof {
        reveal_strlit("LambdaExpression");
    }
    let mut node = PrettyNode::syntax("LambdaExpression", span_of_lambda_expression(x));
    let child = pretty_lambda_parameters(&x.parameters);
    node.push_node("parameters", child);
    let child = x.operator.pretty_tree();
    node.push_node("operator", child);
    let child = pretty_expr(&x.body);
    node.push_node("body", child);
    node
}

fn pretty_assignment(x: &Assignment) -> (node: PrettyNode)
    ensures
        node.name@ == "Assignment"@,
        node.role == NodeRole::Syntax,
        node.span == sp_assignment(*x),
        node.children@.len() == 3,
        node.children@[0].label@ == "left"@,
        node.children@[1].label@ == "operator"@,
        node.children@[1].node.span == (if x.operator.spec_span() is Detached {
            sp_assignment(*x)
        } else {
            x.operator.spec_span()
        }),
        node.children@[2].label@ == "right"@,
        node.children@[2].node.span == (if sp_expr(*x.right) is Detached {
            sp_assignment(*x)
        } else {
            sp_expr(*x.right)
        }),
    decreases x, 0int,
{
    proof {
        reveal_strlit("Assignment");
    }
    let mut node = PrettyNode::syntax("Assignment", span_of_assignment(x));
    let child = pretty_symbol(&x.left);
    node.push_node("left", child);
    let child = x.operator.pretty_tree();
    node.push_node("operator", child);
    let child = pretty_expr(&x.right);
    node.push_node("right", child);
    node
}

fn pretty_local_assignment(x: &LocalAssignment) -> (node: PrettyNode)
    ensures
        node.name@ == "LocalAssignment"@,
        node.role == NodeRole::Syntax,
        node.span == sp_local_assignment(*x),
        node.children@.len() == 3,
        node.children@[0].label@ == "left"@,
        node.children@[1].label@ == "operator"@,
        node.children@[1].node.span == (if x.operator.spec_span() is Detached {
            sp_local_assignment(*x)
        } else {
            x.operator.spec_span()
        }),
        node.children@[2].label@ == "right"@,
        node.children@[2].node.span == (if sp_expr(*x.right) is Detached {
            sp_local_assignment(*x)
        } else {
            sp_expr(*x.right)
        }),
    decreases x, 0int,
{
    proof {
        reveal_strlit("LocalAssignment");
    }
    let mut node = PrettyNode::syntax("LocalAssignment", span_of_local_assignment(x));
    let child = pretty_symbol(&x.left);
    node.push_node("left", child);
    let child = x.operator.pretty_tree();
    node.push_node("operator", child);
    let child = pretty_expr(&x.right);
    node.push_node("right", child);
    node
}

fn pretty_binary_assignment(x: &BinaryAssignment) -> (node: PrettyNode)
    ensures
        node.name@ == "BinaryAssignment"@,
        node.role == NodeRole::Syntax,
        node.span == sp_binary_assignment(*x),
        node.children@.len() == 3,
        node.children@[0].label@ == "left"@,
        node.children@[0].node.span == (if sp_binary_expression(x.left) is Detached {
            sp_binary_assignment(*x)
        } else {
            sp_binary_expression(x.left)
        }),
        node.children@[1].label@ == "operator"@,
        node.children@[1].node.span == (if x.operator.spec_span() is Detached {
            sp_binary_assignment(*x)
        } else {
            x.operator.spec_span()
        }),
        node.children@[2].label@ == "right"@,
        node.children@[2].node.span == (if sp_expr(*x.right) is Detached {
            sp_binary_assignment(*x)
        } else {
            sp_expr(*x.right)
        }),
    decreases x, 0int,
{
    proof {
        reveal_strlit("BinaryAssignment");
    }
    let mut node = PrettyNode::syntax("BinaryAssignment", span_of_binary_assignment(x));
    let child = pretty_binary_expression(&x.left);
    node.push_node("left", child);
    let child = x.operator.pretty_tree();
    node.push_node("operator", child);
    let child = pretty_expr(&x.right);
    node.push_node("right", child);
    node
}

fn pretty_binary_installation(x: &BinaryInstallation) -> (node: PrettyNode)
    ensures
        node.name@ == "BinaryInstallation"@,
        node.role == NodeRole::Syntax,
        node.span == sp_binary_installation(*x),
        node.children@.len() == 3,
        node.children@[0].label@ == "left"@,
        node.children@[0].node.span == (if sp_binary_expression(x.left) is Detached {
            sp_binary_installation(*x)
        } else {
            sp_binary_expression(x.left)
        }),
        node.children@[1].label@ == "operator"@,
        node.children@[1].node.span == (if x.operator.spec_span() is Detached {
            sp_binary_installation(*x)
        } else {
            x.operator.spec_span()
        }),
        node.children@[2].label@ == "right"@,
        node.children@[2].node.span == (if sp_expr(*x.right) is Detached {
            sp_binary_installation(*x)
        } else {
            sp_expr(*x.right)
        }),
    decreases x, 0int,
{
    proof {
        reveal_strlit("BinaryInstallation");
    }
    let mut node = PrettyNode::syntax("BinaryInstallation", span_of_binary_installation(x));
    let child = pretty_binary_expression(&x.left);
    node.push_node("left", child);
    let child = x.operator.pretty_tree();
    node.push_node("operator", child);
    let child = pretty_expr(&x.right);
    node.push_node("right", child);
    node
}

fn pretty_prefix_assignment(x: &PrefixAssignment) -> (node: PrettyNode)
    ensures
        node.name@ == "PrefixAssignment"@,
        node.role == NodeRole::Syntax,
        node.span == sp_prefix_assignment(*x),
        node.children@.len() == 3,
        node.children@[0].label@ == "left"@,
        node.children@[0].node.span == (if sp_prefix_expression(x.left) is Detached {
            sp_prefix_assignment(*x)
        } else {
            sp_prefix_expression(x.left)
        }),
        node.children@[1].label@ == "operator"@,
        node.children@[1].node.span == (if x.operator.spec_span() is Detached {
            sp_prefix_assignment(*x)
        } else {
            x.operator.spec_span()
        }),
        node.children@[2].label@ == "right"@,
        node.children@[2].node.span == (if sp_expr(*x.right) is Detached {
            sp_prefix_assignment(*x)
        } else {
            sp_expr(*x.right)
        }),
    decreases x, 0int,
{
    proof {
        reveal_strlit("PrefixAssignment");
    }
    let mut node = PrettyNode::syntax("PrefixAssignment", span_of_prefix_assignment(x));
    let child = pretty_prefix_expression(&x.left);
    node.push_node("left", child);
    let child = x.operator.pretty_tree();
    node.push_node("operator", child);
    let child = pretty_expr(&x.right);
    node.push_node("right", child);
    node
}

fn pretty_prefix_installation(x: &PrefixInstallation) -> (node: PrettyNode)
    ensures
        node.name@ == "PrefixInstallation"@,
        node.role == NodeRole::Syntax,
        node.span == sp_prefix_installation(*x),
        node.children@.len() == 3,
        node.children@[0].label@ == "left"@,
        node.children@[0].node.span == (if sp_prefix_expression(x.left) is Detached {
            sp_prefix_installation(*x)
        } else {
            sp_prefix_expression(x.left)
        }),
        node.children@[1].label@ == "operator"@,
        node.children@[1].node.span == (if x.operator.spec_span() is Detached {
            sp_prefix_installation(*x)
        } else {
            x.operator.spec_span()
        }),
        node.children@[2].label@ == "right"@,
        node.children@[2].node.span == (if sp_expr(*x.right) is Detached {
            sp_prefix_installation(*x)
        } else {
            sp_expr(*x.right)
        }),
    decreases x, 0int,
{
    proof {
        reveal_strlit("PrefixInstallation");
    }
    let mut node = PrettyNode::syntax("PrefixInstallation", span_of_prefix_installation(x));
    let child = pretty_prefix_expression(&x.left);
    node.push_node("left", child);
    let child = x.operator.pretty_tree();
    node.push_node("operator", child);
    let child = pretty_expr(&x.right);
    node.push_node("right", child);
    node
}

fn pretty_postfix_assignment(x: &PostfixAssignment) -> (node: PrettyNode)
    ensures
        node.name@ == "PostfixAssignment"@,
        node.role == NodeRole::Syntax,
        node.span == sp_postfix_assignment(*x),
        node.children@.len() == 3,
        node.children@[0].label@ == "left"@,
        node.children@[0].node.span == (if sp_postfix_expression(x.left) is Detached {
            sp_postfix_assignment(*x)
        } else {
            sp_postfix_expression(x.left)
        }),
        node.children@[1].label@ == "operator"@,
        node.children@[1].node.span == (if x.operator.spec_span() is Detached {
            sp_postfix_assignment(*x)
        } else {
            x.operator.spec_span()
        }),
        node.children@[2].label@ == "right"@,
        node.children@[2].node.span == (if sp_expr(*x.right) is Detached {
            sp_postfix_assignment(*x)
        } else {
            sp_expr(*x.right)
        }),
    decreases x, 0int,
{
    proof {
        reveal_strlit("PostfixAssignment");
    }
    let mut node = PrettyNode::syntax("PostfixAssignment", span_of_postfix_assignment(x));
    let child = pretty_postfix_expression(&x.left);
    node.push_node("left", child);
    let child = x.operator.pretty_tree();
    node.push_node("operator", child);
    let child = pretty_expr(&x.right);
    node.push_node("right", child);
    node
}

fn pretty_postfix_installation(x: &PostfixInstallation) -> (node: PrettyNode)
    ensures
        node.name@ == "PostfixInstallation"@,
        node.role == NodeRole::Syntax,
        node.span == sp_postfix_installation(*x),
        node.children@.len() == 3,
        node.children@[0].label@ == "left"@,
        node.children@[0].node.span == (if sp_postfix_expression(x.left) is Detached {
            sp_postfix_installation(*x)
        } else {
            sp_postfix_expression(x.left)
        }),
        node.children@[1].label@ == "operator"@,
        node.children@[1].node.span == (if x.operator.spec_span() is Detached {
            sp_postfix_installation(*x)
        } else {
            x.operator.spec_span()
        }),
        node.children@[2].label@ == "right"@,
        node.children@[2].node.span == (if sp_expr(*x.right) is Detached {
            sp_postfix_installation(*x)
        } else {
            sp_expr(*x.right)
        }),
    decreases x, 0int,
{
    proof {
        reveal_strlit("PostfixInstallation");
    }
    let mut node = PrettyNode::syntax("PostfixInstallation", span_of_postfix_installation(x));
    let child = pretty_postfix_expression(&x.left);
    node.push_node("left", child);
    let child = x.operator.pretty_tree();
    node.push_node("operator", child);
    let child = pretty_expr(&x.right);
    node.push_node("right", child);
    node
}

fn pretty_structured_binding(x: &StructuredBinding) -> (node: PrettyNode)
    ensures
        node.name@ == "StructuredBinding"@,
        node.role == NodeRole::Syntax,
        node.span == sp_structured_binding(*x),
        node.children@.len() == 3,
        node.children@[0].label@ == "binding_pack"@,
        node.children@[0].node.span == (if sp_binding_pack(x.binding_pack) is Detached {
            sp_structured_binding(*x)
        } else {
            sp_binding_pack(x.binding_pack)
        }),
        node.children@[1].label@ == "operator"@,
        node.children@[1].node.span == (if x.operator.spec_span() is Detached {
            sp_structured_binding(*x)
        } else {
            x.operator.spec_span()
        }),
        node.children@[2].label@ == "right"@,
        node.children@[2].node.span == (if sp_expr(*x.right) is Detached {
            sp_structured_binding(*x)
        } else {
            sp_expr(*x.right)
        }),
    decreases x, 0int,
{
    proof {
        reveal_strlit("StructuredBinding");
    }
    let mut node = PrettyNode::syntax("StructuredBinding", span_of_structured_binding(x));
    let child = pretty_binding_pack(&x.binding_pack);
    node.push_node("binding_pack", child);
    let child = x.operator.pretty_tree();
    node.push_node("operator", child);
    let child = pretty_expr(&x.right);
    node.push_node("right", child);
    node
}

fn pretty_local_structured_binding(x: &LocalStructuredBinding) -> (node: PrettyNode)
    ensures
        node.name@ == "LocalStructuredBinding"@,
        node.role == NodeRole::Syntax,
        node.span == sp_local_structured_binding(*x),
        node.children@.len() == 3,
        node.children@[0].label@ == "binding_pack"@,
        node.children@[0].node.span == (if sp_binding_pack(x.binding_pack) is Detached {
            sp_local_structured_binding(*x)
        } else {
            sp_binding_pack(x.binding_pack)
        }),
        node.children@[1].label@ == "operator"@,
        node.children@[1].node.span == (if x.operator.spec_span() is Detached {
            sp_local_structured_binding(*x)
        } else {
            x.operator.spec_span()
        }),
        node.children@[2].label@ == "right"@,
        node.children@[2].node.span == (if sp_expr(*x.right) is Detached {
            sp_local_structured_binding(*x)
        } else {
            sp_expr(*x.right)
        }),
    decreases x, 0int,
{
    proof {
        reveal_strlit("LocalStructuredBinding");
    }
    let mut node = PrettyNode::syntax("LocalStructuredBinding", span_of_local_structured_binding(x));
    let child = pretty_binding_pack(&x.binding_pack);
    node.push_node("binding_pack", child);
    let child = x.operator.pretty_tree();
    node.push_node("operator", child);
    let child = pretty_expr(&x.right);
    node.push_node("right", child);
    node
}

fn pretty_evaluated_assignment(x: &EvaluatedAssignment) -> (node: PrettyNode)
    ensures
        node.name@ == "EvaluatedAssignment"@,
        node.role == NodeRole::Syntax,
        node.span == sp_evaluated_assignment(*x),
        node.children@.len() == 3,
        node.children@[0].label@ == "left"@,
        node.children@[0].node.span == (if sp_expr(*x.left) is Detached {
            sp_evaluated_assignment(*x)
        } else {
            sp_expr(*x.left)
        }),
        node.children@[1].label@ == "operator"@,
        node.children@[1].node.span == (if x.operator.spec_span() is Detached {
            sp_evaluated_assignment(*x)
        } else {
            x.operator.spec_span()
        }),
        node.children@[2].label@ == "right"@,
        node.children@[2].node.span == (if sp_expr(*x.right) is Detached {
            sp_evaluated_assignment(*x)
        } else {
            sp_expr(*x.right)
        }),
    decreases x, 0int,
{
    proof {
        reveal_strlit("EvaluatedAssignment");
    }
    let mut node = PrettyNode::syntax("EvaluatedAssignment", span_of_evaluated_assignment(x));
    let child = pretty_expr(&x.left);
    node.push_node("left", child);
    let child = x.operator.pretty_tree();
    node.push_node("operator", child);
    let child = pretty_expr(&x.right);
    node.push_node("right", child);
    node
}

fn pretty_option_expression(x: &OptionExpression) -> (node: PrettyNode)
    ensures
        node.name@ == "OptionExpression"@,
        node.role == NodeRole::Syntax,
        node.span == sp_option_expression(*x),
        node.children@.len() == 3,
        node.children@[0].label@ == "left"@,
        node.children@[0].node.span == (if sp_expr(*x.left) is Detached {
            sp_option_expression(*x)
        } else {
            sp_expr(*x.left)
        }),
        node.children@[1].label@ == "operator"@,
        node.children@[1].node.span == (if x.operator.spec_span() is Detached {
            sp_option_expression(*x)
        } else {
            x.operator.spec_span()
        }),
        node.children@[2].label@ == "right"@,
        node.children@[2].node.span == (if sp_expr(*x.right) is Detached {
            sp_option_expression(*x)
        } else {
            sp_expr(*x.right)
        }),
    decreases x, 0int,
{
    proof {
        reveal_strlit("OptionExpression");
    }
    let mut node = PrettyNode::syntax("OptionExpression", span_of_option_expression(x));
    let child = pretty_expr(&x.left);
    node.push_node("left", child);
    let child = x.operator.pretty_tree();
    node.push_node("operator", child);
    let child = pretty_expr(&x.right);
    node.push_node("right", child);
    node
}

fn pretty_then_clause(x: &ThenClause) -> (node: PrettyNode)
    ensures
        node.name@ == "ThenClause"@,
        node.role == NodeRole::Syntax,
        node.span == sp_then_clause(*x),
        node.children@.len() == 2,
        node.children@[0].label@ == "keyword"@,
        node.children@[0].node.span == (if x.keyword.spec_span() is Detached {
            sp_then_clause(*x)
        } else {
            x.keyword.spec_span()
        }),
        node.children@[1].label@ == "value"@,
        node.children@[1].node.span == (if sp_expr(*x.value) is Detached {
            sp_then_clause(*x)
        } else {
            sp_expr(*x.value)
        }),
    decreases x, 0int,
{
    proof {
        reveal_strlit("ThenClause");
    }
    let mut node = PrettyNode::syntax("ThenClause", span_of_then_clause(x));
    let child = x.keyword.pretty_tree();
    node.push_node("keyword", child);
    let child = pretty_expr(&x.value);
    node.push_node("value", child);
    node
}

fn pretty_else_clause(x: &ElseClause) -> (node: PrettyNode)
    ensures
        node.name@ == "ElseClause"@,
        node.role == NodeRole::Syntax,
        node.span == sp_else_clause(*x),
        node.children@.len() == 2,
        node.children@[0].label@ == "keyword"@,
        node.children@[0].node.span == (if x.keyword.spec_span() is Detached {
            sp_else_clause(*x)
        } else {
            x.keyword.spec_span()
        }),
        node.children@[1].label@ == "value"@,
        node.children@[1].node.span == (if sp_expr(*x.value) is Detached {
            sp_else_clause(*x)
        } else {
            sp_expr(*x.value)
        }),
    decreases x, 0int,
{
    proof {
        reveal_strlit("ElseClause");
    }
    let mut node = PrettyNode::syntax("ElseClause", span_of_else_clause(x));
    let child = x.keyword.pretty_tree();
    node.push_node("keyword", child);
    let child = pretty_expr(&x.value);
    node.push_node("value", child);
    node
}

fn pretty_if_statement(x: &IfStatement) -> (node: PrettyNode)
    ensures
        node.name@ == "IfStatement"@,
        node.role == NodeRole::Syntax,
        node.span == sp_if_statement(*x),
        node.children@.len() == 4,
        node.children@[0].label@ == "keyword"@,
        node.children@[0].node.span == (if x.keyword.spec_span() is Detached {
            sp_if_statement(*x)
        } else {
            x.keyword.spec_span()
        }),
        node.children@[1].label@ == "condition"@,
        node.children@[1].node.span == (if sp_expr(*x.condition) is Detached {
            sp_if_statement(*x)
        } else {
            sp_expr(*x.condition)
        }),
        node.children@[2].label@ == "then_clause"@,
        node.children@[2].node.span == (if sp_then_clause(x.then_clause) is Detached {
            sp_if_statement(*x)
        } else {
            sp_then_clause(x.then_clause)
        }),
        node.children@[3].label@ == "else_clause"@,
        node.children@[3].node.span == (if match x.else_clause { Some(v) => sp_else_clause(v), None => Span::Detached } is Detached {
            sp_if_statement(*x)
        } else {
            match x.else_clause { Some(v) => sp_else_clause(v), None => Span::Detached }
        }),
    decreases x, 0int,
{
    proof {
        reveal_strlit("IfStatement");
    }
    let mut node = PrettyNode::syntax("IfStatement", span_of_if_statement(x));
    let child = x.keyword.pretty_tree();
    node.push_node("keyword", child);
    let child = pretty_expr(&x.condition);
    node.push_node("condition", child);
    let child = pretty_then_clause(&x.then_clause);
    node.push_node("then_clause", child);
    let child = match &x.else_clause { Some(v) => pretty_else_clause(v), None => PrettyNode::absent() };
    node.push_node("else_clause", child);
    node
}

fn pretty_loop_body(x: &LoopBody) -> (node: PrettyNode)
    ensures
        node.name@ == "LoopBody"@,
        node.role == NodeRole::Syntax,
        node.span == sp_loop_body(*x),
        node.children@.len() == 4,
        node.children@[0].label@ == "list_keyword"@,
        node.children@[0].node.span == (if match x.list_keyword { Some(t) => t.spec_span(), None => Span::Detached } is Detached {
            sp_loop_body(*x)
        } else {
            match x.list_keyword { Some(t) => t.spec_span(), None => Span::Detached }
        }),
        node.children@[1].label@ == "listed_value"@,
        node.children@[1].node.span == (if match x.listed_value { Some(e) => sp_expr(*e), None => Span::Detached } is Detached {
            sp_loop_body(*x)
        } else {
            match x.listed_value { Some(e) => sp_expr(*e), None => Span::Detached }
        }),
        node.children@[2].label@ == "do_keyword"@,
        node.children@[2].node.span == (if match x.do_keyword { Some(t) => t.spec_span(), None => Span::Detached } is Detached {
            sp_loop_body(*x)
        } else {
            match x.do_keyword { Some(t) => t.spec_span(), None => Span::Detached }
        }),
        node.children@[3].label@ == "ignored_value"@,
        node.children@[3].node.span == (if match x.ignored_value { Some(e) => sp_expr(*e), None => Span::Detached } is Detached {
            sp_loop_body(*x)
        } else {
            match x.ignored_value { Some(e) => sp_expr(*e), None => Span::Detached }
        }),
    decreases x, 0int,
{
    proof {
        reveal_strlit("LoopBody");
    }
    let mut node = PrettyNode::syntax("LoopBody", span_of_loop_body(x));
    let child = match &x.list_keyword { Some(t) => t.pretty_tree(), None => PrettyNode::absent() };
    node.push_node("list_keyword", child);
    let child = match &x.listed_value { Some(e) => pretty_expr(e), None => PrettyNode::absent() };
    node.push_node("listed_value", child);
    let child = match &x.do_keyword { Some(t) => t.pretty_tree(), None => PrettyNode::absent() };
    node.push_node("do_keyword", child);
    let child = match &x.ignored_value { Some(e) => pretty_expr(e), None => PrettyNode::absent() };
    node.push_node("ignored_value", child);
    node
}

fn pretty_iteration_range(x: &IterationRange) -> (node: PrettyNode)
    ensures
        node.name@ == "IterationRange"@,
        node.role == NodeRole::Syntax,
        node.span == sp_iteration_range(*x),
        node.children@.len() == 6,
        node.children@[0].label@ == "in_keyword"@,
        node.children@[0].node.span == (if match x.in_keyword { Some(t) => t.spec_span(), None => Span::Detached } is Detached {
            sp_iteration_range(*x)
        } else {
            match x.in_keyword { Some(t) => t.spec_span(), None => Span::Detached }
        }),
        node.children@[1].label@ == "iterated_collection"@,
        node.children@[1].node.span == (if match x.iterated_collection { Some(e) => sp_expr(*e), None => Span::Detached } is Detached {
            sp_iteration_range(*x)
        } else {
            match x.iterated_collection { Some(e) => sp_expr(*e), None => Span::Detached }
        }),
        node.children@[2].label@ == "from_keyword"@,
        node.children@[2].node.span == (if match x.from_keyword { Some(t) => t.spec_span(), None => Span::Detached } is Detached {
            sp_iteration_range(*x)
        } else {
            match x.from_keyword { Some(t) => t.spec_span(), None => Span::Detached }
        }),
        node.children@[3].label@ == "range_start"@,
        node.children@[3].node.span == (if match x.range_start { Some(e) => sp_expr(*e), None => Span::Detached } is Detached {
            sp_iteration_range(*x)
        } else {
            match x.range_start { Some(e) => sp_expr(*e), None => Span::Detached }
        }),
        node.children@[4].label@ == "to_keyword"@,
        node.children@[4].node.span == (if match x.to_keyword { Some(t) => t.spec_span(), None => Span::Detached } is Detached {
            sp_iteration_range(*x)
        } else {
            match x.to_keyword { Some(t) => t.spec_span(), None => Span::Detached }
        }),
        node.children@[5].label@ == "range_end"@,
        node.children@[5].node.span == (if match x.range_end { Some(e) => sp_expr(*e), None => Span::Detached } is Detached {
            sp_iteration_range(*x)
        } else {
            match x.range_end { Some(e) => sp_expr(*e), None => Span::Detached }
        }),
    decreases x, 0int,
{
    proof {
        reveal_strlit("IterationRange");
    }
    let mut node = PrettyNode::syntax("IterationRange", span_of_iteration_range(x));
    let child = match &x.in_keyword { Some(t) => t.pretty_tree(), None => PrettyNode::absent() };
    node.push_node("in_keyword", child);
    let child = match &x.iterated_collection { Some(e) => pretty_expr(e), None => PrettyNode::absent() };
    node.push_node("iterated_collection", child);
    let child = match &x.from_keyword { Some(t) => t.pretty_tree(), None => PrettyNode::absent() };
    node.push_node("from_keyword", child);
    let child = match &x.range_start { Some(e) => pretty_expr(e), None => PrettyNode::absent() };
    node.push_node("range_start", child);
    let child = match &x.to_keyword { Some(t) => t.pretty_tree(), None => PrettyNode::absent() };
    node.push_node("to_keyword", child);
    let child = match &x.range_end { Some(e) => pretty_expr(e), None => PrettyNode::absent() };
    node.push_node("range_end", child);
    node
}

fn pretty_for_loop(x: &ForLoop) -> (node: PrettyNode)
    ensures
        node.name@ == "ForLoop"@,
        node.role == NodeRole::Syntax,
        node.span == sp_for_loop(*x),
        node.children@.len() == 6,
        node.children@[0].label@ == "keyword"@,
        node.children@[0].node.span == (if x.keyword.spec_span() is Detached {
            sp_for_loop(*x)
        } else {
            x.keyword.spec_span()
        }),
        node.children@[1].label@ == "variable"@,
        node.children@[2].label@ == "range"@,
        node.children@[2].node.span == (if match x.range { Some(v) => sp_iteration_range(*v), None => Span::Detached } is Detached {
            sp_for_loop(*x)
        } else {
            match x.range { Some(v) => sp_iteration_range(*v), None => Span::Detached }
        }),
        node.children@[3].label@ == "when_keyword"@,
        node.children@[3].node.span == (if match x.when_keyword { Some(t) => t.spec_span(), None => Span::Detached } is Detached {
            sp_for_loop(*x)
        } else {
            match x.when_keyword { Some(t) => t.spec_span(), None => Span::Detached }
        }),
        node.children@[4].label@ == "filter"@,
        node.children@[4].node.span == (if match x.filter { Some(e) => sp_expr(*e), None => Span::Detached } is Detached {
            sp_for_loop(*x)
        } else {
            match x.filter { Some(e) => sp_expr(*e), None => Span::Detached }
        }),
        node.children@[5].label@ == "body"@,
        node.children@[5].node.span == (if sp_loop_body(x.body) is Detached {
            sp_for_loop(*x)
        } else {
            sp_loop_body(x.body)
        }),
    decreases x, 0int,
{
    proof {
        reveal_strlit("ForLoop");
    }
    let mut node = PrettyNode::syntax("ForLoop", span_of_for_loop(x));
    let child = x.keyword.pretty_tree();
    node.push_node("keyword", child);
    let child = pretty_symbol(&x.variable);
    node.push_node("variable", child);
    let child = match &x.range { Some(v) => pretty_iteration_range(v), None => PrettyNode::absent() };
    node.push_node("range", child);
    let child = match &x.when_keyword { Some(t) => t.pretty_tree(), None => PrettyNode::absent() };
    node.push_node("when_keyword", child);
    let child = match &x.filter { Some(e) => pretty_expr(e), None => PrettyNode::absent() };
    node.push_node("filter", child);
    let child = pretty_loop_body(&x.body);
    node.push_node("body", child);
    node
}

fn pretty_while_loop(x: &WhileLoop) -> (node: PrettyNode)
    ensures
        node.name@ == "WhileLoop"@,
        node.role == NodeRole::Syntax,
        node.span == sp_while_loop(*x),
        node.children@.len() == 3,
        node.children@[0].label@ == "keyword"@,
        node.children@[0].node.span == (if x.keyword.spec_span() is Detached {
            sp_while_loop(*x)
        } else {
            x.keyword.spec_span()
        }),
        node.children@[1].label@ == "condition"@,
        node.children@[1].node.span == (if sp_expr(*x.condition) is Detached {
            sp_while_loop(*x)
        } else {
            sp_expr(*x.condition)
        }),
        node.children@[2].label@ == "body"@,
        node.children@[2].node.span == (if sp_loop_body(x.body) is Detached {
            sp_while_loop(*x)
        } else {
            sp_loop_body(x.body)
        }),
    decreases x, 0int,
{
    proof {
        reveal_strlit("WhileLoop");
    }
    let mut node = PrettyNode::syntax("WhileLoop", span_of_while_loop(x));
    let child = x.keyword.pretty_tree();
    node.push_node("keyword", child);
    let child = pretty_expr(&x.condition);
    node.push_node("condition", child);
    let child = pretty_loop_body(&x.body);
    node.push_node("body", child);
    node
}

fn pretty_new_statement(x: &NewStatement) -> (node: PrettyNode)
    ensures
        node.name@ == "NewStatement"@,
        node.role == NodeRole::Syntax,
        node.span == sp_new_statement(*x),
        node.children@.len() == 6,
        node.children@[0].label@ == "keyword"@,
        node.children@[0].node.span == (if x.keyword.spec_span() is Detached {
            sp_new_statement(*x)
        } else {
            x.keyword.spec_span()
        }),
        node.children@[1].label@ == "class"@,
        node.children@[1].node.span == (if sp_expr(*x.class) is Detached {
            sp_new_statement(*x)
        } else {
            sp_expr(*x.class)
        }),
        node.children@[2].label@ == "of_keyword"@,
        node.children@[2].node.span == (if match x.of_keyword { Some(t) => t.spec_span(), None => Span::Detached } is Detached {
            sp_new_statement(*x)
        } else {
            match x.of_keyword { Some(t) => t.spec_span(), None => Span::Detached }
        }),
        node.children@[3].label@ == "parent"@,
        node.children@[3].node.span == (if match x.parent { Some(e) => sp_expr(*e), None => Span::Detached } is Detached {
            sp_new_statement(*x)
        } else {
            match x.parent { Some(e) => sp_expr(*e), None => Span::Detached }
        }),
        node.children@[4].label@ == "from_keyword"@,
        node.children@[4].node.span == (if match x.from_keyword { Some(t) => t.spec_span(), None => Span::Detached } is Detached {
            sp_new_statement(*x)
        } else {
            match x.from_keyword { Some(t) => t.spec_span(), None => Span::Detached }
        }),
        node.children@[5].label@ == "instance"@,
        node.children@[5].node.span == (if match x.instance { Some(e) => sp_expr(*e), None => Span::Detached } is Detached {
            sp_new_statement(*x)
        } else {
            match x.instance { Some(e) => sp_expr(*e), None => Span::Detached }
        }),
    decreases x, 0int,
{
    proof {
        reveal_strlit("NewStatement");
    }
    let mut node = PrettyNode::syntax("NewStatement", span_of_new_statement(x));
    let child = x.keyword.pretty_tree();
    node.push_node("keyword", child);
    let child = pretty_expr(&x.class);
    node.push_node("class", child);
    let child = match &x.of_keyword { Some(t) => t.pretty_tree(), None => PrettyNode::absent() };
    node.push_node("of_keyword", child);
    let child = match &x.parent { Some(e) => pretty_expr(e), None => PrettyNode::absent() };
    node.push_node("parent", child);
    let child = match &x.from_keyword { Some(t) => t.pretty_tree(), None => PrettyNode::absent() };
    node.push_node("from_keyword", child);
    let child = match &x.instance { Some(e) => pretty_expr(e), None => PrettyNode::absent() };
    node.push_node("instance", child);
    node
}

fn pretty_debug_clause(x: &DebugClause) -> (node: PrettyNode)
    ensures
        node.name@ == "DebugClause"@,
        node.role == NodeRole::Syntax,
        node.span == sp_debug_clause(*x),
        node.children@.len() == 2,
        node.children@[0].label@ == "keyword"@,
        node.children@[0].node.span == (if sp_debug_keyword(x.keyword) is Detached {
            sp_debug_clause(*x)
        } else {
            sp_debug_keyword(x.keyword)
        }),
        node.children@[1].label@ == "value"@,
        node.children@[1].node.span == (if match x.value { Some(e) => sp_expr(*e), None => Span::Detached } is Detached {
            sp_debug_clause(*x)
        } else {
            match x.value { Some(e) => sp_expr(*e), None => Span::Detached }
        }),
    decreases x, 0int,
{
    proof {
        reveal_strlit("DebugClause");
    }
    let mut node = PrettyNode::syntax("DebugClause", span_of_debug_clause(x));
    let child = pretty_debug_keyword(&x.keyword);
    node.push_node("keyword", child);
    let child = match &x.value { Some(e) => pretty_expr(e), None => PrettyNode::absent() };
    node.push_node("value", child);
    node
}

fn pretty_break_statement(x: &BreakStatement) -> (node: PrettyNode)
    ensures
        node.name@ == "BreakStatement"@,
        node.role == NodeRole::Syntax,
        node.span == sp_break_statement(*x),
        node.children@.len() == 2,
        node.children@[0].label@ == "keyword"@,
        node.children@[0].node.span == (if x.keyword.spec_span() is Detached {
            sp_break_statement(*x)
        } else {
            x.keyword.spec_span()
        }),
        node.children@[1].label@ == "value"@,
        node.children@[1].node.span == (if match x.value { Some(e) => sp_expr(*e), None => Span::Detached } is Detached {
            sp_break_statement(*x)
        } else {
            match x.value { Some(e) => sp_expr(*e), None => Span::Detached }
        }),
    decreases x, 0int,
{
    proof {
        reveal_strlit("BreakStatement");
    }
    let mut node = PrettyNode::syntax("BreakStatement", span_of_break_statement(x));
    let child = x.keyword.pretty_tree();
    node.push_node("keyword", child);
    let child = match &x.value { Some(e) => pretty_expr(e), None => PrettyNode::absent() };
    node.push_node("value", child);
    node
}

fn pretty_continue_statement(x: &ContinueStatement) -> (node: PrettyNode)
    ensures
        node.name@ == "ContinueStatement"@,
        node.role == NodeRole::Syntax,
        node.span == sp_continue_statement(*x),
        node.children@.len() == 2,
        node.children@[0].label@ == "keyword"@,
        node.children@[0].node.span == (if x.keyword.spec_span() is Detached {
            sp_continue_statement(*x)
        } else {
            x.keyword.spec_span()
        }),
        node.children@[1].label@ == "value"@,
        node.children@[1].node.span == (if match x.value { Some(e) => sp_expr(*e), None => Span::Detached } is Detached {
            sp_continue_statement(*x)
        } else {
            match x.value { Some(e) => sp_expr(*e), None => Span::Detached }
        }),
    decreases x, 0int,
{
    proof {
        reveal_strlit("ContinueStatement");
    }
    let mut node = PrettyNode::syntax("ContinueStatement", span_of_continue_statement(x));
    let child = x.keyword.pretty_tree();
    node.push_node("keyword", child);
    let child = match &x.value { Some(e) => pretty_expr(e), None => PrettyNode::absent() };
    node.push_node("value", child);
    node
}

fn pretty_return_statement(x: &ReturnStatement) -> (node: PrettyNode)
    ensures
        node.name@ == "ReturnStatement"@,
        node.role == NodeRole::Syntax,
        node.span == sp_return_statement(*x),
        node.children@.len() == 2,
        node.children@[0].label@ == "keyword"@,
        node.children@[0].node.span == (if x.keyword.spec_span() is Detached {
            sp_return_statement(*x)
        } else {
            x.keyword.spec_span()
        }),
        node.children@[1].label@ == "value"@,
        node.children@[1].node.span == (if match x.value { Some(e) => sp_expr(*e), None => Span::Detached } is Detached {
            sp_return_statement(*x)
        } else {
            match x.value { Some(e) => sp_expr(*e), None => Span::Detached }
        }),
    decreases x, 0int,
{
    proof {
        reveal_strlit("ReturnStatement");
    }
    let mut node = PrettyNode::syntax("ReturnStatement", span_of_return_statement(x));
    let child = x.keyword.pretty_tree();
    node.push_node("keyword", child);
    let child = match &x.value { Some(e) => pretty_expr(e), None => PrettyNode::absent() };
    node.push_node("value", child);
    node
}

fn pretty_catch_statement(x: &CatchStatement) -> (node: PrettyNode)
    ensures
        node.name@ == "CatchStatement"@,
        node.role == NodeRole::Syntax,
        node.span == sp_catch_statement(*x),
        node.children@.len() == 2,
        node.children@[0].label@ == "keyword"@,
        node.children@[0].node.span == (if x.keyword.spec_span() is Detached {
            sp_catch_statement(*x)
        } else {
            x.keyword.spec_span()
        }),
        node.children@[1].label@ == "value"@,
        node.children@[1].node.span == (if sp_expr(*x.value) is Detached {
            sp_catch_statement(*x)
        } else {
            sp_expr(*x.value)
        }),
    decreases x, 0int,
{
    proof {
        reveal_strlit("CatchStatement");
    }
    let mut node = PrettyNode::syntax("CatchStatement", span_of_catch_statement(x));
    let child = x.keyword.pretty_tree();
    node.push_node("keyword", child);
    let child = pretty_expr(&x.value);
    node.push_node("value", child);
    node
}

fn pretty_throw_statement(x: &ThrowStatement) -> (node: PrettyNode)
    ensures
        node.name@ == "ThrowStatement"@,
        node.role == NodeRole::Syntax,
        node.span == sp_throw_statement(*x),
        node.children@.len() == 2,
        node.children@[0].label@ == "keyword"@,
        node.children@[0].node.span == (if x.keyword.spec_span() is Detached {
            sp_throw_statement(*x)
        } else {
            x.keyword.spec_span()
        }),
        node.children@[1].label@ == "value"@,
        node.children@[1].node.span == (if sp_expr(*x.value) is Detached {
            sp_throw_statement(*x)
        } else {
            sp_expr(*x.value)
        }),
    decreases x, 0int,
{
    proof {
        reveal_strlit("ThrowStatement");
    }
    let mut node = PrettyNode::syntax("ThrowStatement", span_of_throw_statement(x));
    let child = x.keyword.pretty_tree();
    node.push_node("keyword", child);
    let child = pretty_expr(&x.value);
    node.push_node("value", child);
    node
}

fn pretty_trap_statement(x: &TrapStatement) -> (node: PrettyNode)
    ensures
        node.name@ == "TrapStatement"@,
        node.role == NodeRole::Syntax,
        node.span == sp_trap_statement(*x),
        node.children@.len() == 2,
        node.children@[0].label@ == "keyword"@,
        node.children@[0].node.span == (if x.keyword.spec_span() is Detached {
            sp_trap_statement(*x)
        } else {
            x.keyword.spec_span()
        }),
        node.children@[1].label@ == "value"@,
        node.children@[1].node.span == (if sp_expr(*x.value) is Detached {
            sp_trap_statement(*x)
        } else {
            sp_expr(*x.value)
        }),
    decreases x, 0int,
{
    proof {
        reveal_strlit("TrapStatement");
    }
    let mut node = PrettyNode::syntax("TrapStatement", span_of_trap_statement(x));
    let child = x.keyword.pretty_tree();
    node.push_node("keyword", child);
    let child = pretty_expr(&x.value);
    node.push_node("value", child);
    node
}

fn pretty_except_clause(x: &ExceptClause) -> (node: PrettyNode)
    ensures
        node.name@ == "ExceptClause"@,
        node.role == NodeRole::Syntax,
        node.span == sp_except_clause(*x),
        node.children@.len() == 4,
        node.children@[0].label@ == "keyword"@,
        node.children@[0].node.span == (if x.keyword.spec_span() is Detached {
            sp_except_clause(*x)
        } else {
            x.keyword.spec_span()
        }),
        node.children@[1].label@ == "exception"@,
        node.children@[2].label@ == "do_keyword"@,
        node.children@[2].node.span == (if x.do_keyword.spec_span() is Detached {
            sp_except_clause(*x)
        } else {
            x.do_keyword.spec_span()
        }),
        node.children@[3].label@ == "value"@,
        node.children@[3].node.span == (if sp_expr(*x.value) is Detached {
            sp_except_clause(*x)
        } else {
            sp_expr(*x.value)
        }),
    decreases x, 0int,
{
    proof {
        reveal_strlit("ExceptClause");
    }
    let mut node = PrettyNode::syntax("ExceptClause", span_of_except_clause(x));
    let child = x.keyword.pretty_tree();
    node.push_node("keyword", child);
    let child = pretty_symbol(&x.exception);
    node.push_node("exception", child);
    let child = x.do_keyword.pretty_tree();
    node.push_node("do_keyword", child);
    let child = pretty_expr(&x.value);
    node.push_node("value", child);
    node
}

fn pretty_try_statement(x: &TryStatement) -> (node: PrettyNode)
    ensures
        node.name@ == "TryStatement"@,
        node.role == NodeRole::Syntax,
        node.span == sp_try_statement(*x),
        node.children@.len() == 4,
        node.children@[0].label@ == "keyword"@,
        node.children@[0].node.span == (if x.keyword.spec_span() is Detached {
            sp_try_statement(*x)
        } else {
            x.keyword.spec_span()
        }),
        node.children@[1].label@ == "value"@,
        node.children@[1].node.span == (if sp_expr(*x.value) is Detached {
            sp_try_statement(*x)
        } else {
            sp_expr(*x.value)
        }),
        node.children@[2].label@ == "then_clause"@,
        node.children@[2].node.span == (if match x.then_clause { Some(v) => sp_then_clause(v), None => Span::Detached } is Detached {
            sp_try_statement(*x)
        } else {
            match x.then_clause { Some(v) => sp_then_clause(v), None => Span::Detached }
        }),
        node.children@[3].label@ == "fallback"@,
        node.children@[3].node.span == (if match x.fallback { Some(v) => sp_try_fallback(*v), None => Span::Detached } is Detached {
            sp_try_statement(*x)
        } else {
            match x.fallback { Some(v) => sp_try_fallback(*v), None => Span::Detached }
        }),
    decreases x, 0int,
{
    proof {
        reveal_strlit("TryStatement");
    }
    let mut node = PrettyNode::syntax("TryStatement", span_of_try_statement(x));
    let child = x.keyword.pretty_tree();
    node.push_node("keyword", child);
    let child = pretty_expr(&x.value);
    node.push_node("value", child);
    let child = match &x.then_clause { Some(v) => pretty_then_clause(v), None => PrettyNode::absent() };
    node.push_node("then_clause", child);
    let child = match &x.fallback { Some(v) => pretty_try_fallback(v), None => PrettyNode::absent() };
    node.push_node("fallback", child);
    node
}

fn pretty_quote_expression(x: &QuoteExpression) -> (node: PrettyNode)
    ensures
        node.name@ == "QuoteExpression"@,
        node.role == NodeRole::Syntax,
        node.span == sp_quote_expression(*x),
        node.children@.len() == 2,
        node.children@[0].label@ == "specifier"@,
        node.children@[0].node.span == (if sp_quote_specifier(x.specifier) is Detached {
            sp_quote_expression(*x)
        } else {
            sp_quote_specifier(x.specifier)
        }),
        node.children@[1].label@ == "token"@,
{
    proof {
        reveal_strlit("QuoteExpression");
    }
    let mut node = PrettyNode::syntax("QuoteExpression", span_of_quote_expression(x));
    let child = pretty_quote_specifier(&x.specifier);
    node.push_node("specifier", child);
    let child = pretty_symbol(&x.token);
    node.push_node("token", child);
    node
}

fn pretty_any_cell(x: &AnyCell) -> (node: PrettyNode)
    ensures
        node.span == sp_any_cell(*x),
{
    match x {
        AnyCell::ExpressionCell(v) => PrettyNode::variant("AnyCell", "ExpressionCell", span_of_expression_cell(v), pretty_expression_cell(v)),
        AnyCell::SequenceCell(v) => PrettyNode::variant("AnyCell", "SequenceCell", span_of_sequence_cell(v), pretty_sequence_cell(v)),
        AnyCell::MutedCell(v) => PrettyNode::variant("AnyCell", "MutedCell", span_of_muted_cell(v), pretty_muted_cell(v)),
    }
}

fn pretty_component(x: &Component) -> (node: PrettyNode)
    ensures
        node.span == sp_component(*x),
    decreases x, 0int,
{
    match x {
        Component::EmptyComponent(v) => PrettyNode::variant("Component", "EmptyComponent", span_of_empty_component(v), pretty_empty_component(v)),
        Component::Expr(v) => PrettyNode::variant("Component", "Expr", span_of_expr(v), pretty_expr(v)),
    }
}

fn pretty_sequence_element(x: &SequenceElement) -> (node: PrettyNode)
    ensures
        node.span == sp_sequence_element(*x),
{
    match x {
        SequenceElement::Component(v) => PrettyNode::variant("SequenceElement", "Component", span_of_component(v), pretty_component(v)),
        SequenceElement::MutedGroup(v) => PrettyNode::variant("SequenceElement", "MutedGroup", span_of_muted_group(v), pretty_muted_group(v)),
    }
}

fn pretty_string_element(x: &StringElement) -> (node: PrettyNode)
    ensures
        node.span == sp_string_element(*x),
{
    match x {
        StringElement::EscapeSequence(v) => PrettyNode::variant("StringElement", "EscapeSequence", span_of_escape_sequence(v), pretty_escape_sequence(v)),
        StringElement::StringContent(v) => PrettyNode::variant("StringElement", "StringContent", span_of_string_content(v), pretty_string_content(v)),
    }
}

fn pretty_raw_string_element(x: &RawStringElement) -> (node: PrettyNode)
    ensures
        node.span == sp_raw_string_element(*x),
{
    match x {
        RawStringElement::EscapeSequence(v) => PrettyNode::variant("RawStringElement", "EscapeSequence", span_of_escape_sequence(v), pretty_escape_sequence(v)),
        RawStringElement::RawStringContent(v) => PrettyNode::variant("RawStringElement", "RawStringContent", span_of_raw_string_content(v), pretty_raw_string_content(v)),
    }
}

fn pretty_collection(x: &Collection) -> (node: PrettyNode)
    ensures
        node.span == sp_collection(*x),
    decreases x, 0int,
{
    match x {
        Collection::ParenthesizedExpression(v) => PrettyNode::variant("Collection", "ParenthesizedExpression", span_of_parenthesized_expression(v), pretty_parenthesized_expression(v)),
        Collection::Sequence(v) => PrettyNode::variant("Collection", "Sequence", span_of_sequence(v), pretty_sequence(v)),
        Collection::List(v) => PrettyNode::variant("Collection", "List", span_of_list(v), pretty_list(v)),
        Collection::Array(v) => PrettyNode::variant("Collection", "Array", span_of_array(v), pretty_array(v)),
        Collection::AngleBarList(v) => PrettyNode::variant("Collection", "AngleBarList", span_of_angle_bar_list(v), pretty_angle_bar_list(v)),
    }
}

fn pretty_binding_pack(x: &BindingPack) -> (node: PrettyNode)
    ensures
        node.span == sp_binding_pack(*x),
    decreases x, 0int,
{
    match x {
        BindingPack::ParenthesizedExpression(v) => PrettyNode::variant("BindingPack", "ParenthesizedExpression", span_of_parenthesized_expression(v), pretty_parenthesized_expression(v)),
        BindingPack::Sequence(v) => PrettyNode::variant("BindingPack", "Sequence", span_of_sequence(v), pretty_sequence(v)),
        BindingPack::List(v) => PrettyNode::variant("BindingPack", "List", span_of_list(v), pretty_list(v)),
        BindingPack::Array(v) => PrettyNode::variant("BindingPack", "Array", span_of_array(v), pretty_array(v)),
        BindingPack::AngleBarList(v) => PrettyNode::variant("BindingPack", "AngleBarList", span_of_angle_bar_list(v), pretty_angle_bar_list(v)),
    }
}

fn pretty_lambda_parameters(x: &LambdaParameters) -> (node: PrettyNode)
    ensures
        node.span == sp_lambda_parameters(*x),
    decreases x, 0int,
{
    match x {
        LambdaParameters::Symbol(v) => PrettyNode::variant("LambdaParameters", "Symbol", span_of_symbol(v), pretty_symbol(v)),
        LambdaParameters::ParenthesizedExpression(v) => PrettyNode::variant("LambdaParameters", "ParenthesizedExpression", span_of_parenthesized_expression(v), pretty_parenthesized_expression(v)),
        LambdaParameters::Sequence(v) => PrettyNode::variant("LambdaParameters", "Sequence", span_of_sequence(v), pretty_sequence(v)),
        LambdaParameters::List(v) => PrettyNode::variant("LambdaParameters", "List", span_of_list(v), pretty_list(v)),
        LambdaParameters::Array(v) => PrettyNode::variant("LambdaParameters", "Array", span_of_array(v), pretty_array(v)),
        LambdaParameters::AngleBarList(v) => PrettyNode::variant("LambdaParameters", "AngleBarList", span_of_angle_bar_list(v), pretty_angle_bar_list(v)),
    }
}

fn pretty_try_fallback(x: &TryFallback) -> (node: PrettyNode)
    ensures
        node.span == sp_try_fallback(*x),
    decreases x, 0int,
{
    match x {
        TryFallback::ExceptClause(v) => PrettyNode::variant("TryFallback", "ExceptClause", span_of_except_clause(v), pretty_except_clause(v)),
        TryFallback::ElseClause(v) => PrettyNode::variant("TryFallback", "ElseClause", span_of_else_clause(v), pretty_else_clause(v)),
    }
}

fn pretty_operator_expr(x: &OperatorExpr) -> (node: PrettyNode)
    ensures
        node.span == sp_operator_expr(*x),
    decreases x, 0int,
{
    match x {
        OperatorExpr::AdjacentExpression(v) => PrettyNode::variant("OperatorExpr", "AdjacentExpression", span_of_adjacent_expression(v), pretty_adjacent_expression(v)),
        OperatorExpr::BinaryExpression(v) => PrettyNode::variant("OperatorExpr", "BinaryExpression", span_of_binary_expression(v), pretty_binary_expression(v)),
        OperatorExpr::PrefixExpression(v) => PrettyNode::variant("OperatorExpr", "PrefixExpression", span_of_prefix_expression(v), pretty_prefix_expression(v)),
        OperatorExpr::PostfixExpression(v) => PrettyNode::variant("OperatorExpr", "PostfixExpression", span_of_postfix_expression(v), pretty_postfix_expression(v)),
    }
}

fn pretty_assignment_expr(x: &AssignmentExpr) -> (node: PrettyNode)
    ensures
        node.span == sp_assignment_expr(*x),
    decreases x, 0int,
{
    match x {
        AssignmentExpr::Assignment(v) => PrettyNode::variant("AssignmentExpr", "Assignment", span_of_assignment(v), pretty_assignment(v)),
        AssignmentExpr::LocalAssignment(v) => PrettyNode::variant("AssignmentExpr", "LocalAssignment", span_of_local_assignment(v), pretty_local_assignment(v)),
        AssignmentExpr::BinaryAssignment(v) => PrettyNode::variant("AssignmentExpr", "BinaryAssignment", span_of_binary_assignment(v), pretty_binary_assignment(v)),
        AssignmentExpr::BinaryInstallation(v) => PrettyNode::variant("AssignmentExpr", "BinaryInstallation", span_of_binary_installation(v), pretty_binary_installation(v)),
        AssignmentExpr::PrefixAssignment(v) => PrettyNode::variant("AssignmentExpr", "PrefixAssignment", span_of_prefix_assignment(v), pretty_prefix_assignment(v)),
        AssignmentExpr::PrefixInstallation(v) => PrettyNode::variant("AssignmentExpr", "PrefixInstallation", span_of_prefix_installation(v), pretty_prefix_installation(v)),
        AssignmentExpr::PostfixAssignment(v) => PrettyNode::variant("AssignmentExpr", "PostfixAssignment", span_of_postfix_assignment(v), pretty_postfix_assignment(v)),
        AssignmentExpr::PostfixInstallation(v) => PrettyNode::variant("AssignmentExpr", "PostfixInstallation", span_of_postfix_installation(v), pretty_postfix_installation(v)),
        AssignmentExpr::StructuredBinding(v) => PrettyNode::variant("AssignmentExpr", "StructuredBinding", span_of_structured_binding(v), pretty_structured_binding(v)),
        AssignmentExpr::LocalStructuredBinding(v) => PrettyNode::variant("AssignmentExpr", "LocalStructuredBinding", span_of_local_structured_binding(v), pretty_local_structured_binding(v)),
        AssignmentExpr::EvaluatedAssignment(v) => PrettyNode::variant("AssignmentExpr", "EvaluatedAssignment", span_of_evaluated_assignment(v), pretty_evaluated_assignment(v)),
    }
}

fn pretty_expr(x: &Expr) -> (node: PrettyNode)
    ensures
        node.span == sp_expr(*x),
    decreases x, 0int,
{
    match x {
        Expr::Collection(v) => PrettyNode::variant("Expr", "Collection", span_of_collection(v), pretty_collection(v)),
        Expr::OperatorExpr(v) => PrettyNode::variant("Expr", "OperatorExpr", span_of_operator_expr(v), pretty_operator_expr(v)),
        Expr::AssignmentExpr(v) => PrettyNode::variant("Expr", "AssignmentExpr", span_of_assignment_expr(v), pretty_assignment_expr(v)),
        Expr::OptionExpression(v) => PrettyNode::variant("Expr", "OptionExpression", span_of_option_expression(v), pretty_option_expression(v)),
        Expr::LambdaExpression(v) => PrettyNode::variant("Expr", "LambdaExpression", span_of_lambda_expression(v), pretty_lambda_expression(v)),
        Expr::IfStatement(v) => PrettyNode::variant("Expr", "IfStatement", span_of_if_statement(v), pretty_if_statement(v)),
        Expr::ForLoop(v) => PrettyNode::variant("Expr", "ForLoop", span_of_for_loop(v), pretty_for_loop(v)),
        Expr::WhileLoop(v) => PrettyNode::variant("Expr", "WhileLoop", span_of_while_loop(v), pretty_while_loop(v)),
        Expr::TryStatement(v) => PrettyNode::variant("Expr", "TryStatement", span_of_try_statement(v), pretty_try_statement(v)),
        Expr::QuoteExpression(v) => PrettyNode::variant("Expr", "QuoteExpression", span_of_quote_expression(v), pretty_quote_expression(v)),
        Expr::NewStatement(v) => PrettyNode::variant("Expr", "NewStatement", span_of_new_statement(v), pretty_new_statement(v)),
        Expr::BreakStatement(v) => PrettyNode::variant("Expr", "BreakStatement", span_of_break_statement(v), pretty_break_statement(v)),
        Expr::ContinueStatement(v) => PrettyNode::variant("Expr", "ContinueStatement", span_of_continue_statement(v), pretty_continue_statement(v)),
        Expr::ReturnStatement(v) => PrettyNode::variant("Expr", "ReturnStatement", span_of_return_statement(v), pretty_return_statement(v)),
        Expr::CatchStatement(v) => PrettyNode::variant("Expr", "CatchStatement", span_of_catch_statement(v), pretty_catch_statement(v)),
        Expr::ThrowStatement(v) => PrettyNode::variant("Expr", "ThrowStatement", span_of_throw_statement(v), pretty_throw_statement(v)),
        Expr::TrapStatement(v) => PrettyNode::variant("Expr", "TrapStatement", span_of_trap_statement(v), pretty_trap_statement(v)),
        Expr::DebugClause(v) => PrettyNode::variant("Expr", "DebugClause", span_of_debug_clause(v), pretty_debug_clause(v)),
        Expr::FloatLiteral(v) => PrettyNode::variant("Expr", "FloatLiteral", span_of_float_literal(v), pretty_float_literal(v)),
        Expr::IntegerLiteral(v) => PrettyNode::variant("Expr", "IntegerLiteral", span_of_integer_literal(v), pretty_integer_literal(v)),
        Expr::RawStringLiteral(v) => PrettyNode::variant("Expr", "RawStringLiteral", span_of_raw_string_literal(v), pretty_raw_string_literal(v)),
        Expr::StringLiteral(v) => PrettyNode::variant("Expr", "StringLiteral", span_of_string_literal(v), pretty_string_literal(v)),
        Expr::Symbol(v) => PrettyNode::variant("Expr", "Symbol", span_of_symbol(v), pretty_symbol(v)),
    }
}

fn pretty_syntax_node(x: &SyntaxNode) -> (node: PrettyNode)
    ensures
        node.span == sp_syntax_node(*x),
{
    match x {
        SyntaxNode::SourceFile(v) => PrettyNode::variant("SyntaxNode", "SourceFile", span_of_source_file(v), pretty_source_file(v)),
        SyntaxNode::AnyCell(v) => PrettyNode::variant("SyntaxNode", "AnyCell", span_of_any_cell(v), pretty_any_cell(v)),
        SyntaxNode::Expr(v) => PrettyNode::variant("SyntaxNode", "Expr", span_of_expr(v), pretty_expr(v)),
    }
}

impl PrettyTree for Symbol {
    fn pretty_tree(&self) -> PrettyNode {
        pretty_symbol(self)
    }
}

impl PrettyTree for BlockComment {
    fn pretty_tree(&self) -> PrettyNode {
        pretty_block_comment(self)
    }
}

impl PrettyTree for LineComment {
    fn pretty_tree(&self) -> PrettyNode {
        pretty_line_comment(self)
    }
}

impl PrettyTree for EmptyComponent {
    fn pretty_tree(&self) -> PrettyNode {
        pretty_empty_component(self)
    }
}

impl PrettyTree for EscapeSequence {
    fn pretty_tree(&self) -> PrettyNode {
        pretty_escape_sequence(self)
    }
}

impl PrettyTree for FloatLiteral {
    fn pretty_tree(&self) -> PrettyNode {
        pretty_float_literal(self)
    }
}

impl PrettyTree for IntegerLiteral {
    fn pretty_tree(&self) -> PrettyNode {
        pretty_integer_literal(self)
    }
}

impl PrettyTree for RawStringContent {
    fn pretty_tree(&self) -> PrettyNode {
        pretty_raw_string_content(self)
    }
}

impl PrettyTree for StringContent {
    fn pretty_tree(&self) -> PrettyNode {
        pretty_string_content(self)
    }
}

impl PrettyTree for DebugKeyword {
    fn pretty_tree(&self) -> (node: PrettyNode)
        ensures
            node.span == sp_debug_keyword(*self),
    {
        pretty_debug_keyword(self)
    }
}

impl PrettyTree for QuoteSpecifier {
    fn pretty_tree(&self) -> (node: PrettyNode)
        ensures
            node.span == sp_quote_specifier(*self),
    {
        pretty_quote_specifier(self)
    }
}

impl PrettyTree for SourceFile {
    fn pretty_tree(&self) -> (node: PrettyNode)
        ensures
            node.name@ == "SourceFile"@,
            node.role == NodeRole::Syntax,
            node.span == sp_source_file(*self),
            node.children@.len() == 1,
    {
        pretty_source_file(self)
    }
}

impl PrettyTree for ExpressionCell {
    fn pretty_tree(&self) -> (node: PrettyNode)
        ensures
            node.name@ == "ExpressionCell"@,
            node.role == NodeRole::Syntax,
            node.span == sp_expression_cell(*self),
            node.children@.len() == 1,
            node.children@[0].label@ == "value"@,
            node.children@[0].node.span == (if sp_expr(*self.value) is Detached {
                sp_expression_cell(*self)
            } else {
                sp_expr(*self.value)
            }),
    {
        pretty_expression_cell(self)
    }
}

impl PrettyTree for SequenceCell {
    fn pretty_tree(&self) -> (node: PrettyNode)
        ensures
            node.name@ == "SequenceCell"@,
            node.role == NodeRole::Syntax,
            node.span == sp_sequence_cell(*self),
            node.children@.len() == 1,
            node.children@[0].label@ == "value"@,
            node.children@[0].node.span == (if sp_naked_sequence(self.value) is Detached {
                sp_sequence_cell(*self)
            } else {
                sp_naked_sequence(self.value)
            }),
    {
        pretty_sequence_cell(self)
    }
}

impl PrettyTree for NakedSequence {
    fn pretty_tree(&self) -> (node: PrettyNode)
        ensures
            node.name@ == "NakedSequence"@,
            node.role == NodeRole::Syntax,
            node.span == sp_naked_sequence(*self),
            node.children@.len() == 1,
            node.children@[0].label@ == "elements"@,
    {
        pretty_naked_sequence(self)
    }
}

impl PrettyTree for MutedCell {
    fn pretty_tree(&self) -> (node: PrettyNode)
        ensures
            node.name@ == "MutedCell"@,
            node.role == NodeRole::Syntax,
            node.span == sp_muted_cell(*self),
            node.children@.len() == 2,
            node.children@[0].label@ == "elements"@,
            node.children@[1].label@ == "semicolon"@,
            node.children@[1].node.span == (if self.semicolon.spec_span() is Detached {
                sp_muted_cell(*self)
            } else {
                self.semicolon.spec_span()
            }),
    {
        pretty_muted_cell(self)
    }
}

impl PrettyTree for MutedGroup {
    fn pretty_tree(&self) -> (node: PrettyNode)
        ensures
            node.name@ == "MutedGroup"@,
            node.role == NodeRole::Syntax,
            node.span == sp_muted_group(*self),
            node.children@.len() == 2,
            node.children@[0].label@ == "elements"@,
            node.children@[1].label@ == "semicolon"@,
            node.children@[1].node.span == (if self.semicolon.spec_span() is Detached {
                sp_muted_group(*self)
            } else {
                self.semicolon.spec_span()
            }),
    {
        pretty_muted_group(self)
    }
}

impl PrettyTree for Array {
    fn pretty_tree(&self) -> (node: PrettyNode)
        ensures
            node.name@ == "Array"@,
            node.role == NodeRole::Syntax,
            node.span == sp_array(*self),
            node.children@.len() == 3,
            node.children@[0].label@ == "muted"@,
            node.children@[1].label@ == "elements"@,
    {
        pretty_array(self)
    }
}

impl PrettyTree for List {
    fn pretty_tree(&self) -> (node: PrettyNode)
        ensures
            node.name@ == "List"@,
            node.role == NodeRole::Syntax,
            node.span == sp_list(*self),
            node.children@.len() == 3,
            node.children@[0].label@ == "muted"@,
            node.children@[1].label@ == "elements"@,
    {
        pretty_list(self)
    }
}

impl PrettyTree for AngleBarList {
    fn pretty_tree(&self) -> (node: PrettyNode)
        ensures
            node.name@ == "AngleBarList"@,
            node.role == NodeRole::Syntax,
            node.span == sp_angle_bar_list(*self),
            node.children@.len() == 3,
            node.children@[0].label@ == "muted"@,
            node.children@[1].label@ == "elements"@,
    {
        pretty_angle_bar_list(self)
    }
}

impl PrettyTree for Sequence {
    fn pretty_tree(&self) -> (node: PrettyNode)
        ensures
            node.name@ == "Sequence"@,
            node.role == NodeRole::Syntax,
            node.span == sp_sequence(*self),
            node.children@.len() == 3,
            node.children@[0].label@ == "muted"@,
            node.children@[1].label@ == "elements"@,
    {
        pretty_sequence(self)
    }
}

impl PrettyTree for ParenthesizedExpression {
    fn pretty_tree(&self) -> (node: PrettyNode)
        ensures
            node.name@ == "ParenthesizedExpression"@,
            node.role == NodeRole::Syntax,
            node.span == sp_parenthesized_expression(*self),
            node.children@.len() == 3,
            node.children@[0].label@ == "muted"@,
            node.children@[1].label@ == "value"@,
            node.children@[1].node.span == (if match self.value { Some(e) => sp_expr(*e), None => Span::Detached } is Detached {
                sp_parenthesized_expression(*self)
            } else {
                match self.value { Some(e) => sp_expr(*e), None => Span::Detached }
            }),
    {
        pretty_parenthesized_expression(self)
    }
}

impl PrettyTree for StringLiteral {
    fn pretty_tree(&self) -> (node: PrettyNode)
        ensures
            node.name@ == "StringLiteral"@,
            node.role == NodeRole::Syntax,
            node.span == sp_string_literal(*self),
            node.children@.len() == 1,
            node.children@[0].label@ == "elements"@,
    {
        pretty_string_literal(self)
    }
}

impl PrettyTree for RawStringLiteral {
    fn pretty_tree(&self) -> (node: PrettyNode)
        ensures
            node.name@ == "RawStringLiteral"@,
            node.role == NodeRole::Syntax,
            node.span == sp_raw_string_literal(*self),
            node.children@.len() == 1,
            node.children@[0].label@ == "elements"@,
    {
        pretty_raw_string_literal(self)
    }
}

impl PrettyTree for BinaryExpression {
    fn pretty_tree(&self) -> (node: PrettyNode)
        ensures
            node.name@ == "BinaryExpression"@,
            node.role == NodeRole::Syntax,
            node.span == sp_binary_expression(*self),
            node.children@.len() == 3,
            node.children@[0].label@ == "left"@,
            node.children@[0].node.span == (if sp_expr(*self.left) is Detached {
                sp_binary_expression(*self)
            } else {
                sp_expr(*self.left)
            }),
            node.children@[1].label@ == "operator"@,
            node.children@[1].node.span == (if self.operator.spec_span() is Detached {
                sp_binary_expression(*self)
            } else {
                self.operator.spec_span()
            }),
            node.children@[2].label@ == "right"@,
            node.children@[2].node.span == (if sp_expr(*self.right) is Detached {
                sp_binary_expression(*self)
            } else {
                sp_expr(*self.right)
            }),
    {
        pretty_binary_expression(self)
    }
}

impl PrettyTree for AdjacentExpression {
    fn pretty_tree(&self) -> (node: PrettyNode)
        ensures
            node.name@ == "AdjacentExpression"@,
            node.role == NodeRole::Syntax,
            node.span == sp_adjacent_expression(*self),
            node.children@.len() == 2,
            node.children@[0].label@ == "left"@,
            node.children@[0].node.span == (if sp_expr(*self.left) is Detached {
                sp_adjacent_expression(*self)
            } else {
                sp_expr(*self.left)
            }),
            node.children@[1].label@ == "right"@,
            node.children@[1].node.span == (if sp_expr(*self.right) is Detached {
                sp_adjacent_expression(*self)
            } else {
                sp_expr(*self.right)
            }),
    {
        pretty_adjacent_expression(self)
    }
}

impl PrettyTree for PrefixExpression {
    fn pretty_tree(&self) -> (node: PrettyNode)
        ensures
            node.name@ == "PrefixExpression"@,
            node.role == NodeRole::Syntax,
            node.span == sp_prefix_expression(*self),
            node.children@.len() == 2,
            node.children@[0].label@ == "operator"@,
            node.children@[0].node.span == (if self.operator.spec_span() is Detached {
                sp_prefix_expression(*self)
            } else {
                self.operator.spec_span()
            }),
            node.children@[1].label@ == "operand"@,
            node.children@[1].node.span == (if sp_expr(*self.operand) is Detached {
                sp_prefix_expression(*self)
            } else {
                sp_expr(*self.operand)
            }),
    {
        pretty_prefix_expression(self)
    }
}

impl PrettyTree for PostfixExpression {
    fn pretty_tree(&self) -> (node: PrettyNode)
        ensures
            node.name@ == "PostfixExpression"@,
            node.role == NodeRole::Syntax,
            node.span == sp_postfix_expression(*self),
            node.children@.len() == 2,
            node.children@[0].label@ == "operand"@,
            node.children@[0].node.span == (if sp_expr(*self.operand) is Detached {
                sp_postfix_expression(*self)
            } else {
                sp_expr(*self.operand)
            }),
            node.children@[1].label@ == "operator"@,
            node.children@[1].node.span == (if self.operator.spec_span() is Detached {
                sp_postfix_expression(*self)
            } else {
                self.operator.spec_span()
            }),
    {
        pretty_postfix_expression(self)
    }
}

impl PrettyTree for LambdaExpression {
    fn pretty_tree(&self) -> (node: PrettyNode)
        ensures
            node.name@ == "LambdaExpression"@,
            node.role == NodeRole::Syntax,
            node.span == sp_lambda_expression(*self),
            node.children@.len() == 3,
            node.children@[0].label@ == "parameters"@,
            node.children@[0].node.span == (if sp_lambda_parameters(self.parameters) is Detached {
                sp_lambda_expression(*self)
            } else {
                sp_lambda_parameters(self.parameters)
            }),
            node.children@[1].label@ == "operator"@,
            node.children@[1].node.span == (if self.operator.spec_span() is Detached {
                sp_lambda_expression(*self)
            } else {
                self.operator.spec_span()
            }),
            node.children@[2].label@ == "body"@,
            node.children@[2].node.span == (if sp_expr(*self.body) is Detached {
                sp_lambda_expression(*self)
            } else {
                sp_expr(*self.body)
            }),
    {
        pretty_lambda_expression(self)
    }
}

impl PrettyTree for Assignment {
    fn pretty_tree(&self) -> (node: PrettyNode)
        ensures
            node.name@ == "Assignment"@,
            node.role == NodeRole::Syntax,
            node.span == sp_assignment(*self),
            node.children@.len() == 3,
            node.children@[0].label@ == "left"@,
            node.children@[1].label@ == "operator"@,
            node.children@[1].node.span == (if self.operator.spec_span() is Detached {
                sp_assignment(*self)
            } else {
                self.operator.spec_span()
            }),
            node.children@[2].label@ == "right"@,
            node.children@[2].node.span == (if sp_expr(*self.right) is Detached {
                sp_assignment(*self)
            } else {
                sp_expr(*self.right)
            }),
    {
        pretty_assignment(self)
    }
}

impl PrettyTree for LocalAssignment {
    fn pretty_tree(&self) -> (node: PrettyNode)
        ensures
            node.name@ == "LocalAssignment"@,
            node.role == NodeRole::Syntax,
            node.span == sp_local_assignment(*self),
            node.children@.len() == 3,
            node.children@[0].label@ == "left"@,
            node.children@[1].label@ == "operator"@,
            node.children@[1].node.span == (if self.operator.spec_span() is Detached {
                sp_local_assignment(*self)
            } else {
                self.operator.spec_span()
            }),
            node.children@[2].label@ == "right"@,
            node.children@[2].node.span == (if sp_expr(*self.right) is Detached {
                sp_local_assignment(*self)
            } else {
                sp_expr(*self.right)
            }),
    {
        pretty_local_assignment(self)
    }
}

impl PrettyTree for BinaryAssignment {
    fn pretty_tree(&self) -> (node: PrettyNode)
        ensures
            node.name@ == "BinaryAssignment"@,
            node.role == NodeRole::Syntax,
            node.span == sp_binary_assignment(*self),
            node.children@.len() == 3,
            node.children@[0].label@ == "left"@,
            node.children@[0].node.span == (if sp_binary_expression(self.left) is Detached {
                sp_binary_assignment(*self)
            } else {
                sp_binary_expression(self.left)
            }),
            node.children@[1].label@ == "operator"@,
            node.children@[1].node.span == (if self.operator.spec_span() is Detached {
                sp_binary_assignment(*self)
            } else {
                self.operator.spec_span()
            }),
            node.children@[2].label@ == "right"@,
            node.children@[2].node.span == (if sp_expr(*self.right) is Detached {
                sp_binary_assignment(*self)
            } else {
                sp_expr(*self.right)
            }),
    {
        pretty_binary_assignment(self)
    }
}

impl PrettyTree for BinaryInstallation {
    fn pretty_tree(&self) -> (node: PrettyNode)
        ensures
            node.name@ == "BinaryInstallation"@,
            node.role == NodeRole::Syntax,
            node.span == sp_binary_installation(*self),
            node.children@.len() == 3,
            node.children@[0].label@ == "left"@,
            node.children@[0].node.span == (if sp_binary_expression(self.left) is Detached {
                sp_binary_installation(*self)
            } else {
                sp_binary_expression(self.left)
            }),
            node.children@[1].label@ == "operator"@,
            node.children@[1].node.span == (if self.operator.spec_span() is Detached {
                sp_binary_installation(*self)
            } else {
                self.operator.spec_span()
            }),
            node.children@[2].label@ == "right"@,
            node.children@[2].node.span == (if sp_expr(*self.right) is Detached {
                sp_binary_installation(*self)
            } else {
                sp_expr(*self.right)
            }),
    {
        pretty_binary_installation(self)
    }
}

impl PrettyTree for PrefixAssignment {
    fn pretty_tree(&self) -> (node: PrettyNode)
        ensures
            node.name@ == "PrefixAssignment"@,
            node.role == NodeRole::Syntax,
            node.span == sp_prefix_assignment(*self),
            node.children@.len() == 3,
            node.children@[0].label@ == "left"@,
            node.children@[0].node.span == (if sp_prefix_expression(self.left) is Detached {
                sp_prefix_assignment(*self)
            } else {
                sp_prefix_expression(self.left)
            }),
            node.children@[1].label@ == "operator"@,
            node.children@[1].node.span == (if self.operator.spec_span() is Detached {
                sp_prefix_assignment(*self)
            } else {
                self.operator.spec_span()
            }),
            node.children@[2].label@ == "right"@,
            node.children@[2].node.span == (if sp_expr(*self.right) is Detached {
                sp_prefix_assignment(*self)
            } else {
                sp_expr(*self.right)
            }),
    {
        pretty_prefix_assignment(self)
    }
}

impl PrettyTree for PrefixInstallation {
    fn pretty_tree(&self) -> (node: PrettyNode)
        ensures
            node.name@ == "PrefixInstallation"@,
            node.role == NodeRole::Syntax,
            node.span == sp_prefix_installation(*self),
            node.children@.len() == 3,
            node.children@[0].label@ == "left"@,
            node.children@[0].node.span == (if sp_prefix_expression(self.left) is Detached {
                sp_prefix_installation(*self)
            } else {
                sp_prefix_expression(self.left)
            }),
            node.children@[1].label@ == "operator"@,
            node.children@[1].node.span == (if self.operator.spec_span() is Detached {
                sp_prefix_installation(*self)
            } else {
                self.operator.spec_span()
            }),
            node.children@[2].label@ == "right"@,
            node.children@[2].node.span == (if sp_expr(*self.right) is Detached {
                sp_prefix_installation(*self)
            } else {
                sp_expr(*self.right)
            }),
    {
        pretty_prefix_installation(self)
    }
}

impl PrettyTree for PostfixAssignment {
    fn pretty_tree(&self) -> (node: PrettyNode)
        ensures
            node.name@ == "PostfixAssignment"@,
            node.role == NodeRole::Syntax,
            node.span == sp_postfix_assignment(*self),
            node.children@.len() == 3,
            node.children@[0].label@ == "left"@,
            node.children@[0].node.span == (if sp_postfix_expression(self.left) is Detached {
                sp_postfix_assignment(*self)
            } else {
                sp_postfix_expression(self.left)
            }),
            node.children@[1].label@ == "operator"@,
            node.children@[1].node.span == (if self.operator.spec_span() is Detached {
                sp_postfix_assignment(*self)
            } else {
                self.operator.spec_span()
            }),
            node.children@[2].label@ == "right"@,
            node.children@[2].node.span == (if sp_expr(*self.right) is Detached {
                sp_postfix_assignment(*self)
            } else {
                sp_expr(*self.right)
            }),
    {
        pretty_postfix_assignment(self)
    }
}

impl PrettyTree for PostfixInstallation {
    fn pretty_tree(&self) -> (node: PrettyNode)
        ensures
            node.name@ == "PostfixInstallation"@,
            node.role == NodeRole::Syntax,
            node.span == sp_postfix_installation(*self),
            node.children@.len() == 3,
            node.children@[0].label@ == "left"@,
            node.children@[0].node.span == (if sp_postfix_expression(self.left) is Detached {
                sp_postfix_installation(*self)
            } else {
                sp_postfix_expression(self.left)
            }),
            node.children@[1].label@ == "operator"@,
            node.children@[1].node.span == (if self.operator.spec_span() is Detached {
                sp_postfix_installation(*self)
            } else {
                self.operator.spec_span()
            }),
            node.children@[2].label@ == "right"@,
            node.children@[2].node.span == (if sp_expr(*self.right) is Detached {
                sp_postfix_installation(*self)
            } else {
                sp_expr(*self.right)
            }),
    {
        pretty_postfix_installation(self)
    }
}

impl PrettyTree for StructuredBinding {
    fn pretty_tree(&self) -> (node: PrettyNode)
        ensures
            node.name@ == "StructuredBinding"@,
            node.role == NodeRole::Syntax,
            node.span == sp_structured_binding(*self),
            node.children@.len() == 3,
            node.children@[0].label@ == "binding_pack"@,
            node.children@[0].node.span == (if sp_binding_pack(self.binding_pack) is Detached {
                sp_structured_binding(*self)
            } else {
                sp_binding_pack(self.binding_pack)
            }),
            node.children@[1].label@ == "operator"@,
            node.children@[1].node.span == (if self.operator.spec_span() is Detached {
                sp_structured_binding(*self)
            } else {
                self.operator.spec_span()
            }),
            node.children@[2].label@ == "right"@,
            node.children@[2].node.span == (if sp_expr(*self.right) is Detached {
                sp_structured_binding(*self)
            } else {
                sp_expr(*self.right)
            }),
    {
        pretty_structured_binding(self)
    }
}

impl PrettyTree for LocalStructuredBinding {
    fn pretty_tree(&self) -> (node: PrettyNode)
        ensures
            node.name@ == "LocalStructuredBinding"@,
            node.role == NodeRole::Syntax,
            node.span == sp_local_structured_binding(*self),
            node.children@.len() == 3,
            node.children@[0].label@ == "binding_pack"@,
            node.children@[0].node.span == (if sp_binding_pack(self.binding_pack) is Detached {
                sp_local_structured_binding(*self)
            } else {
                sp_binding_pack(self.binding_pack)
            }),
            node.children@[1].label@ == "operator"@,
            node.children@[1].node.span == (if self.operator.spec_span() is Detached {
                sp_local_structured_binding(*self)
            } else {
                self.operator.spec_span()
            }),
            node.children@[2].label@ == "right"@,
            node.children@[2].node.span == (if sp_expr(*self.right) is Detached {
                sp_local_structured_binding(*self)
            } else {
                sp_expr(*self.right)
            }),
    {
        pretty_local_structured_binding(self)
    }
}

impl PrettyTree for EvaluatedAssignment {
    fn pretty_tree(&self) -> (node: PrettyNode)
        ensures
            node.name@ == "EvaluatedAssignment"@,
            node.role == NodeRole::Syntax,
            node.span == sp_evaluated_assignment(*self),
            node.children@.len() == 3,
            node.children@[0].label@ == "left"@,
            node.children@[0].node.span == (if sp_expr(*self.left) is Detached {
                sp_evaluated_assignment(*self)
            } else {
                sp_expr(*self.left)
            }),
            node.children@[1].label@ == "operator"@,
            node.children@[1].node.span == (if self.operator.spec_span() is Detached {
                sp_evaluated_assignment(*self)
            } else {
                self.operator.spec_span()
            }),
            node.children@[2].label@ == "right"@,
            node.children@[2].node.span == (if sp_expr(*self.right) is Detached {
                sp_evaluated_assignment(*self)
            } else {
                sp_expr(*self.right)
            }),
    {
        pretty_evaluated_assignment(self)
    }
}

impl PrettyTree for OptionExpression {
    fn pretty_tree(&self) -> (node: PrettyNode)
        ensures
            node.name@ == "OptionExpression"@,
            node.role == NodeRole::Syntax,
            node.span == sp_option_expression(*self),
            node.children@.len() == 3,
            node.children@[0].label@ == "left"@,
            node.children@[0].node.span == (if sp_expr(*self.left) is Detached {
                sp_option_expression(*self)
            } else {
                sp_expr(*self.left)
            }),
            node.children@[1].label@ == "operator"@,
            node.children@[1].node.span == (if self.operator.spec_span() is Detached {
                sp_option_expression(*self)
            } else {
                self.operator.spec_span()
            }),
            node.children@[2].label@ == "right"@,
            node.children@[2].node.span == (if sp_expr(*self.right) is Detached {
                sp_option_expression(*self)
            } else {
                sp_expr(*self.right)
            }),
    {
        pretty_option_expression(self)
    }
}

impl PrettyTree for ThenClause {
    fn pretty_tree(&self) -> (node: PrettyNode)
        ensures
            node.name@ == "ThenClause"@,
            node.role == NodeRole::Syntax,
            node.span == sp_then_clause(*self),
            node.children@.len() == 2,
            node.children@[0].label@ == "keyword"@,
            node.children@[0].node.span == (if self.keyword.spec_span() is Detached {
                sp_then_clause(*self)
            } else {
                self.keyword.spec_span()
            }),
            node.children@[1].label@ == "value"@,
            node.children@[1].node.span == (if sp_expr(*self.value) is Detached {
                sp_then_clause(*self)
            } else {
                sp_expr(*self.value)
            }),
    {
        pretty_then_clause(self)
    }
}

impl PrettyTree for ElseClause {
    fn pretty_tree(&self) -> (node: PrettyNode)
        ensures
            node.name@ == "ElseClause"@,
            node.role == NodeRole::Syntax,
            node.span == sp_else_clause(*self),
            node.children@.len() == 2,
            node.children@[0].label@ == "keyword"@,
            node.children@[0].node.span == (if self.keyword.spec_span() is Detached {
                sp_else_clause(*self)
            } else {
                self.keyword.spec_span()
            }),
            node.children@[1].label@ == "value"@,
            node.children@[1].node.span == (if sp_expr(*self.value) is Detached {
                sp_else_clause(*self)
            } else {
                sp_expr(*self.value)
            }),
    {
        pretty_else_clause(self)
    }
}

impl PrettyTree for IfStatement {
    fn pretty_tree(&self) -> (node: PrettyNode)
        ensures
            node.name@ == "IfStatement"@,
            node.role == NodeRole::Syntax,
            node.span == sp_if_statement(*self),
            node.children@.len() == 4,
            node.children@[0].label@ == "keyword"@,
            node.children@[0].node.span == (if self.keyword.spec_span() is Detached {
                sp_if_statement(*self)
            } else {
                self.keyword.spec_span()
            }),
            node.children@[1].label@ == "condition"@,
            node.children@[1].node.span == (if sp_expr(*self.condition) is Detached {
                sp_if_statement(*self)
            } else {
                sp_expr(*self.condition)
            }),
            node.children@[2].label@ == "then_clause"@,
            node.children@[2].node.span == (if sp_then_clause(self.then_clause) is Detached {
                sp_if_statement(*self)
            } else {
                sp_then_clause(self.then_clause)
            }),
            node.children@[3].label@ == "else_clause"@,
            node.children@[3].node.span == (if match self.else_clause { Some(v) => sp_else_clause(v), None => Span::Detached } is Detached {
                sp_if_statement(*self)
            } else {
                match self.else_clause { Some(v) => sp_else_clause(v), None => Span::Detached }
            }),
    {
        pretty_if_statement(self)
    }
}

impl PrettyTree for LoopBody {
    fn pretty_tree(&self) -> (node: PrettyNode)
        ensures
            node.name@ == "LoopBody"@,
            node.role == NodeRole::Syntax,
            node.span == sp_loop_body(*self),
            node.children@.len() == 4,
            node.children@[0].label@ == "list_keyword"@,
            node.children@[0].node.span == (if match self.list_keyword { Some(t) => t.spec_span(), None => Span::Detached } is Detached {
                sp_loop_body(*self)
            } else {
                match self.list_keyword { Some(t) => t.spec_span(), None => Span::Detached }
            }),
            node.children@[1].label@ == "listed_value"@,
            node.children@[1].node.span == (if match self.listed_value { Some(e) => sp_expr(*e), None => Span::Detached } is Detached {
                sp_loop_body(*self)
            } else {
                match self.listed_value { Some(e) => sp_expr(*e), None => Span::Detached }
            }),
            node.children@[2].label@ == "do_keyword"@,
            node.children@[2].node.span == (if match self.do_keyword { Some(t) => t.spec_span(), None => Span::Detached } is Detached {
                sp_loop_body(*self)
            } else {
                match self.do_keyword { Some(t) => t.spec_span(), None => Span::Detached }
            }),
            node.children@[3].label@ == "ignored_value"@,
            node.children@[3].node.span == (if match self.ignored_value { Some(e) => sp_expr(*e), None => Span::Detached } is Detached {
                sp_loop_body(*self)
            } else {
                match self.ignored_value { Some(e) => sp_expr(*e), None => Span::Detached }
            }),
    {
        pretty_loop_body(self)
    }
}

impl PrettyTree for IterationRange {
    fn pretty_tree(&self) -> (node: PrettyNode)
        ensures
            node.name@ == "IterationRange"@,
            node.role == NodeRole::Syntax,
            node.span == sp_iteration_range(*self),
            node.children@.len() == 6,
            node.children@[0].label@ == "in_keyword"@,
            node.children@[0].node.span == (if match self.in_keyword { Some(t) => t.spec_span(), None => Span::Detached } is Detached {
                sp_iteration_range(*self)
            } else {
                match self.in_keyword { Some(t) => t.spec_span(), None => Span::Detached }
            }),
            node.children@[1].label@ == "iterated_collection"@,
            node.children@[1].node.span == (if match self.iterated_collection { Some(e) => sp_expr(*e), None => Span::Detached } is Detached {
                sp_iteration_range(*self)
            } else {
                match self.iterated_collection { Some(e) => sp_expr(*e), None => Span::Detached }
            }),
            node.children@[2].label@ == "from_keyword"@,
            node.children@[2].node.span == (if match self.from_keyword { Some(t) => t.spec_span(), None => Span::Detached } is Detached {
                sp_iteration_range(*self)
            } else {
                match self.from_keyword { Some(t) => t.spec_span(), None => Span::Detached }
            }),
            node.children@[3].label@ == "range_start"@,
            node.children@[3].node.span == (if match self.range_start { Some(e) => sp_expr(*e), None => Span::Detached } is Detached {
                sp_iteration_range(*self)
            } else {
                match self.range_start { Some(e) => sp_expr(*e), None => Span::Detached }
            }),
            node.children@[4].label@ == "to_keyword"@,
            node.children@[4].node.span == (if match self.to_keyword { Some(t) => t.spec_span(), None => Span::Detached } is Detached {
                sp_iteration_range(*self)
            } else {
                match self.to_keyword { Some(t) => t.spec_span(), None => Span::Detached }
            }),
            node.children@[5].label@ == "range_end"@,
            node.children@[5].node.span == (if match self.range_end { Some(e) => sp_expr(*e), None => Span::Detached } is Detached {
                sp_iteration_range(*self)
            } else {
                match self.range_end { Some(e) => sp_expr(*e), None => Span::Detached }
            }),
    {
        pretty_iteration_range(self)
    }
}

impl PrettyTree for ForLoop {
    fn pretty_tree(&self) -> (node: PrettyNode)
        ensures
            node.name@ == "ForLoop"@,
            node.role == NodeRole::Syntax,
            node.span == sp_for_loop(*self),
            node.children@.len() == 6,
            node.children@[0].label@ == "keyword"@,
            node.children@[0].node.span == (if self.keyword.spec_span() is Detached {
                sp_for_loop(*self)
            } else {
                self.keyword.spec_span()
            }),
            node.children@[1].label@ == "variable"@,
            node.children@[2].label@ == "range"@,
            node.children@[2].node.span == (if match self.range { Some(v) => sp_iteration_range(*v), None => Span::Detached } is Detached {
                sp_for_loop(*self)
            } else {
                match self.range { Some(v) => sp_iteration_range(*v), None => Span::Detached }
            }),
            node.children@[3].label@ == "when_keyword"@,
            node.children@[3].node.span == (if match self.when_keyword { Some(t) => t.spec_span(), None => Span::Detached } is Detached {
                sp_for_loop(*self)
            } else {
                match self.when_keyword { Some(t) => t.spec_span(), None => Span::Detached }
            }),
            node.children@[4].label@ == "filter"@,
            node.children@[4].node.span == (if match self.filter { Some(e) => sp_expr(*e), None => Span::Detached } is Detached {
                sp_for_loop(*self)
            } else {
                match self.filter { Some(e) => sp_expr(*e), None => Span::Detached }
            }),
            node.children@[5].label@ == "body"@,
            node.children@[5].node.span == (if sp_loop_body(self.body) is Detached {
                sp_for_loop(*self)
            } else {
                sp_loop_body(self.body)
            }),
    {
        pretty_for_loop(self)
    }
}

impl PrettyTree for WhileLoop {
    fn pretty_tree(&self) -> (node: PrettyNode)
        ensures
            node.name@ == "WhileLoop"@,
            node.role == NodeRole::Syntax,
            node.span == sp_while_loop(*self),
            node.children@.len() == 3,
            node.children@[0].label@ == "keyword"@,
            node.children@[0].node.span == (if self.keyword.spec_span() is Detached {
                sp_while_loop(*self)
            } else {
                self.keyword.spec_span()
            }),
            node.children@[1].label@ == "condition"@,
            node.children@[1].node.span == (if sp_expr(*self.condition) is Detached {
                sp_while_loop(*self)
            } else {
                sp_expr(*self.condition)
            }),
            node.children@[2].label@ == "body"@,
            node.children@[2].node.span == (if sp_loop_body(self.body) is Detached {
                sp_while_loop(*self)
            } else {
                sp_loop_body(self.body)
            }),
    {
        pretty_while_loop(self)
    }
}

impl PrettyTree for NewStatement {
    fn pretty_tree(&self) -> (node: PrettyNode)
        ensures
            node.name@ == "NewStatement"@,
            node.role == NodeRole::Syntax,
            node.span == sp_new_statement(*self),
            node.children@.len() == 6,
            node.children@[0].label@ == "keyword"@,
            node.children@[0].node.span == (if self.keyword.spec_span() is Detached {
                sp_new_statement(*self)
            } else {
                self.keyword.spec_span()
            }),
            node.children@[1].label@ == "class"@,
            node.children@[1].node.span == (if sp_expr(*self.class) is Detached {
                sp_new_statement(*self)
            } else {
                sp_expr(*self.class)
            }),
            node.children@[2].label@ == "of_keyword"@,
            node.children@[2].node.span == (if match self.of_keyword { Some(t) => t.spec_span(), None => Span::Detached } is Detached {
                sp_new_statement(*self)
            } else {
                match self.of_keyword { Some(t) => t.spec_span(), None => Span::Detached }
            }),
            node.children@[3].label@ == "parent"@,
            node.children@[3].node.span == (if match self.parent { Some(e) => sp_expr(*e), None => Span::Detached } is Detached {
                sp_new_statement(*self)
            } else {
                match self.parent { Some(e) => sp_expr(*e), None => Span::Detached }
            }),
            node.children@[4].label@ == "from_keyword"@,
            node.children@[4].node.span == (if match self.from_keyword { Some(t) => t.spec_span(), None => Span::Detached } is Detached {
                sp_new_statement(*self)
            } else {
                match self.from_keyword { Some(t) => t.spec_span(), None => Span::Detached }
            }),
            node.children@[5].label@ == "instance"@,
            node.children@[5].node.span == (if match self.instance { Some(e) => sp_expr(*e), None => Span::Detached } is Detached {
                sp_new_statement(*self)
            } else {
                match self.instance { Some(e) => sp_expr(*e), None => Span::Detached }
            }),
    {
        pretty_new_statement(self)
    }
}

impl PrettyTree for DebugClause {
    fn pretty_tree(&self) -> (node: PrettyNode)
        ensures
            node.name@ == "DebugClause"@,
            node.role == NodeRole::Syntax,
            node.span == sp_debug_clause(*self),
            node.children@.len() == 2,
            node.children@[0].label@ == "keyword"@,
            node.children@[0].node.span == (if sp_debug_keyword(self.keyword) is Detached {
                sp_debug_clause(*self)
            } else {
                sp_debug_keyword(self.keyword)
            }),
            node.children@[1].label@ == "value"@,
            node.children@[1].node.span == (if match self.value { Some(e) => sp_expr(*e), None => Span::Detached } is Detached {
                sp_debug_clause(*self)
            } else {
                match self.value { Some(e) => sp_expr(*e), None => Span::Detached }
            }),
    {
        pretty_debug_clause(self)
    }
}

impl PrettyTree for BreakStatement {
    fn pretty_tree(&self) -> (node: PrettyNode)
        ensures
            node.name@ == "BreakStatement"@,
            node.role == NodeRole::Syntax,
            node.span == sp_break_statement(*self),
            node.children@.len() == 2,
            node.children@[0].label@ == "keyword"@,
            node.children@[0].node.span == (if self.keyword.spec_span() is Detached {
                sp_break_statement(*self)
            } else {
                self.keyword.spec_span()
            }),
            node.children@[1].label@ == "value"@,
            node.children@[1].node.span == (if match self.value { Some(e) => sp_expr(*e), None => Span::Detached } is Detached {
                sp_break_statement(*self)
            } else {
                match self.value { Some(e) => sp_expr(*e), None => Span::Detached }
            }),
    {
        pretty_break_statement(self)
    }
}

impl PrettyTree for ContinueStatement {
    fn pretty_tree(&self) -> (node: PrettyNode)
        ensures
            node.name@ == "ContinueStatement"@,
            node.role == NodeRole::Syntax,
            node.span == sp_continue_statement(*self),
            node.children@.len() == 2,
            node.children@[0].label@ == "keyword"@,
            node.children@[0].node.span == (if self.keyword.spec_span() is Detached {
                sp_continue_statement(*self)
            } else {
                self.keyword.spec_span()
            }),
            node.children@[1].label@ == "value"@,
            node.children@[1].node.span == (if match self.value { Some(e) => sp_expr(*e), None => Span::Detached } is Detached {
                sp_continue_statement(*self)
            } else {
                match self.value { Some(e) => sp_expr(*e), None => Span::Detached }
            }),
    {
        pretty_continue_statement(self)
    }
}

impl PrettyTree for ReturnStatement {
    fn pretty_tree(&self) -> (node: PrettyNode)
        ensures
            node.name@ == "ReturnStatement"@,
            node.role == NodeRole::Syntax,
            node.span == sp_return_statement(*self),
            node.children@.len() == 2,
            node.children@[0].label@ == "keyword"@,
            node.children@[0].node.span == (if self.keyword.spec_span() is Detached {
                sp_return_statement(*self)
            } else {
                self.keyword.spec_span()
            }),
            node.children@[1].label@ == "value"@,
            node.children@[1].node.span == (if match self.value { Some(e) => sp_expr(*e), None => Span::Detached } is Detached {
                sp_return_statement(*self)
            } else {
                match self.value { Some(e) => sp_expr(*e), None => Span::Detached }
            }),
    {
        pretty_return_statement(self)
    }
}

impl PrettyTree for CatchStatement {
    fn pretty_tree(&self) -> (node: PrettyNode)
        ensures
            node.name@ == "CatchStatement"@,
            node.role == NodeRole::Syntax,
            node.span == sp_catch_statement(*self),
            node.children@.len() == 2,
            node.children@[0].label@ == "keyword"@,
            node.children@[0].node.span == (if self.keyword.spec_span() is Detached {
                sp_catch_statement(*self)
            } else {
                self.keyword.spec_span()
            }),
            node.children@[1].label@ == "value"@,
            node.children@[1].node.span == (if sp_expr(*self.value) is Detached {
                sp_catch_statement(*self)
            } else {
                sp_expr(*self.value)
            }),
    {
        pretty_catch_statement(self)
    }
}

impl PrettyTree for ThrowStatement {
    fn pretty_tree(&self) -> (node: PrettyNode)
        ensures
            node.name@ == "ThrowStatement"@,
            node.role == NodeRole::Syntax,
            node.span == sp_throw_statement(*self),
            node.children@.len() == 2,
            node.children@[0].label@ == "keyword"@,
            node.children@[0].node.span == (if self.keyword.spec_span() is Detached {
                sp_throw_statement(*self)
            } else {
                self.keyword.spec_span()
            }),
            node.children@[1].label@ == "value"@,
            node.children@[1].node.span == (if sp_expr(*self.value) is Detached {
                sp_throw_statement(*self)
            } else {
                sp_expr(*self.value)
            }),
    {
        pretty_throw_statement(self)
    }
}

impl PrettyTree for TrapStatement {
    fn pretty_tree(&self) -> (node: PrettyNode)
        ensures
            node.name@ == "TrapStatement"@,
            node.role == NodeRole::Syntax,
            node.span == sp_trap_statement(*self),
            node.children@.len() == 2,
            node.children@[0].label@ == "keyword"@,
            node.children@[0].node.span == (if self.keyword.spec_span() is Detached {
                sp_trap_statement(*self)
            } else {
                self.keyword.spec_span()
            }),
            node.children@[1].label@ == "value"@,
            node.children@[1].node.span == (if sp_expr(*self.value) is Detached {
                sp_trap_statement(*self)
            } else {
                sp_expr(*self.value)
            }),
    {
        pretty_trap_statement(self)
    }
}

impl PrettyTree for ExceptClause {
    fn pretty_tree(&self) -> (node: PrettyNode)
        ensures
            node.name@ == "ExceptClause"@,
            node.role == NodeRole::Syntax,
            node.span == sp_except_clause(*self),
            node.children@.len() == 4,
            node.children@[0].label@ == "keyword"@,
            node.children@[0].node.span == (if self.keyword.spec_span() is Detached {
                sp_except_clause(*self)
            } else {
                self.keyword.spec_span()
            }),
            node.children@[1].label@ == "exception"@,
            node.children@[2].label@ == "do_keyword"@,
            node.children@[2].node.span == (if self.do_keyword.spec_span() is Detached {
                sp_except_clause(*self)
            } else {
                self.do_keyword.spec_span()
            }),
            node.children@[3].label@ == "value"@,
            node.children@[3].node.span == (if sp_expr(*self.value) is Detached {
                sp_except_clause(*self)
            } else {
                sp_expr(*self.value)
            }),
    {
        pretty_except_clause(self)
    }
}

impl PrettyTree for TryStatement {
    fn pretty_tree(&self) -> (node: PrettyNode)
        ensures
            node.name@ == "TryStatement"@,
            node.role == NodeRole::Syntax,
            node.span == sp_try_statement(*self),
            node.children@.len() == 4,
            node.children@[0].label@ == "keyword"@,
            node.children@[0].node.span == (if self.keyword.spec_span() is Detached {
                sp_try_statement(*self)
            } else {
                self.keyword.spec_span()
            }),
            node.children@[1].label@ == "value"@,
            node.children@[1].node.span == (if sp_expr(*self.value) is Detached {
                sp_try_statement(*self)
            } else {
                sp_expr(*self.value)
            }),
            node.children@[2].label@ == "then_clause"@,
            node.children@[2].node.span == (if match self.then_clause { Some(v) => sp_then_clause(v), None => Span::Detached } is Detached {
                sp_try_statement(*self)
            } else {
                match self.then_clause { Some(v) => sp_then_clause(v), None => Span::Detached }
            }),
            node.children@[3].label@ == "fallback"@,
            node.children@[3].node.span == (if match self.fallback { Some(v) => sp_try_fallback(*v), None => Span::Detached } is Detached {
                sp_try_statement(*self)
            } else {
                match self.fallback { Some(v) => sp_try_fallback(*v), None => Span::Detached }
            }),
    {
        pretty_try_statement(self)
    }
}

impl PrettyTree for QuoteExpression {
    fn pretty_tree(&self) -> (node: PrettyNode)
        ensures
            node.name@ == "QuoteExpression"@,
            node.role == NodeRole::Syntax,
            node.span == sp_quote_expression(*self),
            node.children@.len() == 2,
            node.children@[0].label@ == "specifier"@,
            node.children@[0].node.span == (if sp_quote_specifier(self.specifier) is Detached {
                sp_quote_expression(*self)
            } else {
                sp_quote_specifier(self.specifier)
            }),
            node.children@[1].label@ == "token"@,
    {
        pretty_quote_expression(self)
    }
}

impl PrettyTree for AnyCell {
    fn pretty_tree(&self) -> (node: PrettyNode)
        ensures
            node.span == sp_any_cell(*self),
    {
        pretty_any_cell(self)
    }
}

impl PrettyTree for Component {
    fn pretty_tree(&self) -> (node: PrettyNode)
        ensures
            node.span == sp_component(*self),
    {
        pretty_component(self)
    }
}

impl PrettyTree for SequenceElement {
    fn pretty_tree(&self) -> (node: PrettyNode)
        ensures
            node.span == sp_sequence_element(*self),
    {
        pretty_sequence_element(self)
    }
}

impl PrettyTree for StringElement {
    fn pretty_tree(&self) -> (node: PrettyNode)
        ensures
            node.span == sp_string_element(*self),
    {
        pretty_string_element(self)
    }
}

impl PrettyTree for RawStringElement {
    fn pretty_tree(&self) -> (node: PrettyNode)
        ensures
            node.span == sp_raw_string_element(*self),
    {
        pretty_raw_string_element(self)
    }
}

impl PrettyTree for Collection {
    fn pretty_tree(&self) -> (node: PrettyNode)
        ensures
            node.span == sp_collection(*self),
    {
        pretty_collection(self)
    }
}

impl PrettyTree for BindingPack {
    fn pretty_tree(&self) -> (node: PrettyNode)
        ensures
            node.span == sp_binding_pack(*self),
    {
        pretty_binding_pack(self)
    }
}

impl PrettyTree for LambdaParameters {
    fn pretty_tree(&self) -> (node: PrettyNode)
        ensures
            node.span == sp_lambda_parameters(*self),
    {
        pretty_lambda_parameters(self)
    }
}

impl PrettyTree for TryFallback {
    fn pretty_tree(&self) -> (node: PrettyNode)
        ensures
            node.span == sp_try_fallback(*self),
    {
        pretty_try_fallback(self)
    }
}

impl PrettyTree for OperatorExpr {
    fn pretty_tree(&self) -> (node: PrettyNode)
        ensures
            node.span == sp_operator_expr(*self),
    {
        pretty_operator_expr(self)
    }
}

impl PrettyTree for AssignmentExpr {
    fn pretty_tree(&self) -> (node: PrettyNode)
        ensures
            node.span == sp_assignment_expr(*self),
    {
        pretty_assignment_expr(self)
    }
}

impl PrettyTree for Expr {
    fn pretty_tree(&self) -> (node: PrettyNode)
        ensures
            node.span == sp_expr(*self),
    {
        pretty_expr(self)
    }
}

impl PrettyTree for SyntaxNode {
    fn pretty_tree(&self) -> (node: PrettyNode)
        ensures
            node.span == sp_syntax_node(*self),
    {
        pretty_syntax_node(self)
    }
}

// ---------------------------------------------------------------------------
// Global cells
// ---------------------------------------------------------------------------
/// A node evaluated in global scope: one cell of a source file.
pub trait CellNode: Spanned + ToTokens {
    spec fn spec_cell_delimiter(&self) -> DelimiterKind;

    /// The global cell delimiter represented by this typed node.
    fn cell_delimiter(&self) -> (kind: DelimiterKind)
        ensures
            kind == self.spec_cell_delimiter(),
    ;
}

impl CellNode for AnyCell {
    open spec fn spec_cell_delimiter(&self) -> DelimiterKind {
        match self {
            AnyCell::MutedCell(_) => DelimiterKind::Semicolon,
            _ => DelimiterKind::Empty,
        }
    }

    fn cell_delimiter(&self) -> (kind: DelimiterKind) {
        match self {
            AnyCell::MutedCell(_) => DelimiterKind::Semicolon,
            _ => DelimiterKind::Empty,
        }
    }
}

impl CellNode for ExpressionCell {
    open spec fn spec_cell_delimiter(&self) -> DelimiterKind {
        DelimiterKind::Empty
    }

    fn cell_delimiter(&self) -> (kind: DelimiterKind) {
        DelimiterKind::Empty
    }
}

impl CellNode for SequenceCell {
    open spec fn spec_cell_delimiter(&self) -> DelimiterKind {
        DelimiterKind::Empty
    }

    fn cell_delimiter(&self) -> (kind: DelimiterKind) {
        DelimiterKind::Empty
    }
}

impl CellNode for MutedCell {
    open spec fn spec_cell_delimiter(&self) -> DelimiterKind {
        DelimiterKind::Semicolon
    }

    fn cell_delimiter(&self) -> (kind: DelimiterKind) {
        DelimiterKind::Semicolon
    }
}

/// The interior tokens of the cell a cell node becomes: its tokens, without
/// the final semicolon of a muted cell, which the cell delimiter holds.
pub open spec fn cell_interior(kind: DelimiterKind, tokens: Seq<TokenModel>) -> Seq<TokenModel> {
    if kind == DelimiterKind::Semicolon && tokens.len() > 0 {
        tokens.drop_last()
    } else {
        tokens
    }
}

/// Appends the cell that a cell node becomes.
pub fn append_cell_node<T: CellNode>(node: &T, output: &mut CellStream)
    ensures
        final(output).source_id == old(output).source_id,
        final(output).cells@.len() == old(output).cells@.len() + 1,
        final(output).cells@.subrange(0, old(output).cells@.len() as int) == old(output).cells@,
        final(output).cells@.last().delimiter == (Delimiter {
            kind: node.spec_cell_delimiter(),
            span: node.spec_span(),
        }),
{
    let kind = node.cell_delimiter();
    let mut stream = node.to_token_stream();
    if kind == DelimiterKind::Semicolon {
        stream.pop();
    }
    output.push(CellBlock::new(Delimiter::new(kind, node.span()), stream));
}

/// The delimiter of the cell a top-level cell node becomes.
pub open spec fn any_cell_delimiter(node: AnyCell) -> DelimiterKind {
    match node {
        AnyCell::MutedCell(_) => DelimiterKind::Semicolon,
        _ => DelimiterKind::Empty,
    }
}

/// The interior tokens of the cell a top-level cell node becomes: its tokens
/// without the semicolon that becomes the cell's closing delimiter.
#[verifier::rlimit(30)]
fn any_cell_interior(node: &AnyCell) -> (stream: TokenStream)
    ensures
        models_lexemes(stream@) + word(closing_text(any_cell_delimiter(*node))) == models_lexemes(
            tk_any_cell(*node),
        ),
{
    let mut stream = TokenStream::new();
    emit_any_cell(node, &mut stream);
    let ghost tokens = stream@;
    proof {
        assert(tokens =~= tk_any_cell(*node));
        lemma_seq_model_len(stream.0@);
    }
    match node {
        AnyCell::MutedCell(cell) => {
            cell.semicolon.check_kind();
            proof {
                lemma_lx_muted_cell(*cell);
                let c1 = join_field(Seq::<TokenModel>::empty(), tk_punct(cell.elements));
                assert(tk_muted_cell(*cell) == c1 + seq![cell.semicolon.raw_model()]);
                assert(tokens.drop_last() =~= c1);
                crate::tokens::lemma_semicolon_spelling();
                lemma_lexemes_single(cell.semicolon.raw_model());
                lemma_lexemes_append(c1, seq![cell.semicolon.raw_model()]);
                assert(model_lexemes(cell.semicolon.raw_model()) =~= word(closing_text(DelimiterKind::Semicolon)));
            }
            let ghost full = stream.0@;
            stream.pop();
            proof {
                lemma_seq_model_prefix(full, full.len() - 1);
                assert(full.drop_last() =~= full.subrange(0, full.len() - 1));
                assert(stream@ =~= tokens.drop_last());
                assert(models_lexemes(stream@) + word(closing_text(any_cell_delimiter(*node))) =~= models_lexemes(tk_any_cell(*node)));
            }
        },
        _ => {
            proof {
                assert(models_lexemes(stream@) + word(closing_text(DelimiterKind::Empty)) =~= models_lexemes(stream@));
            }
        },
    }
    stream
}

/// Appends the cell that a top-level cell node becomes; the cell carries the
/// node's lexemes, its semicolon becoming the cell's closing delimiter.
fn append_any_cell(node: &AnyCell, output: &mut CellStream)
    ensures
        final(output).source_id == old(output).source_id,
        final(output).cells@ == old(output).cells@.push(final(output).cells@.last()),
        cell_lexemes(cell_model(final(output).cells@.last())) == models_lexemes(tk_any_cell(*node)),
{
    let kind = match node {
        AnyCell::MutedCell(_) => DelimiterKind::Semicolon,
        _ => DelimiterKind::Empty,
    };
    let stream = any_cell_interior(node);
    let ghost emitted = stream@;
    output.push(CellBlock::new(Delimiter::new(kind, node.span()), stream));
    proof {
        let pushed = output.cells@.last();
        assert(output.cells@ =~= old(output).cells@.push(pushed));
        let newline = TokenModel::Trivia { kind: TriviaKind::LineBreak, text: seq!['\n'], span: Span::Detached };
        if pushed.stream@ != emitted {
            lemma_lexemes_append(seq![newline], emitted);
            lemma_lexemes_single(newline);
        }
        assert(models_lexemes(pushed.stream@) == models_lexemes(emitted));
        assert(word(opening_text(kind)) =~= Seq::<Seq<char>>::empty());
    }
}

impl ToCells for AnyCell {
    fn to_cells(&self, output: &mut CellStream) {
        append_any_cell(self, output);
    }
}

impl ToCells for ExpressionCell {
    fn to_cells(&self, output: &mut CellStream) {
        append_cell_node(self, output);
    }
}

impl ToCells for SequenceCell {
    fn to_cells(&self, output: &mut CellStream) {
        append_cell_node(self, output);
    }
}

impl ToCells for MutedCell {
    fn to_cells(&self, output: &mut CellStream) {
        append_cell_node(self, output);
    }
}

impl ToCells for SourceFile {
    /// Appends one cell per element; the appended cells carry exactly the
    /// lexemes the file emits.
    fn to_cells(&self, output: &mut CellStream)
        ensures
            cells_lexemes(final(output)@) == cells_lexemes(old(output)@) + models_lexemes(
                tk_source_file(*self),
            ),
            final(output).cells@.len() == old(output).cells@.len() + self.elements@.len(),
    {
        let mut i: usize = 0;
        proof {
            assert(cells_lexemes(output@) + models_lexemes(tk_list_any_cell(self.elements@, 0)) =~= cells_lexemes(old(output)@));
        }
        while i < self.elements.len()
            invariant
                i <= self.elements@.len(),
                output.source_id == old(output).source_id,
                output.cells@.len() == old(output).cells@.len() + i,
                cells_lexemes(output@) == cells_lexemes(old(output)@) + models_lexemes(
                    tk_list_any_cell(self.elements@, i as int),
                ),
            decreases self.elements@.len() - i,
        {
            let ghost before = output.cells@;
            let ghost previous = output@;
            append_any_cell(&self.elements[i], output);
            proof {
                let m = cells_model(output.cells@);
                assert(m =~= cells_model(before).push(cell_model(output.cells@.last())));
                assert(m.drop_last() =~= cells_model(before));
                assert(cells_lexemes(m) == cells_lexemes(m.drop_last()) + cell_lexemes(m.last()));
                assert(cells_lexemes(output@) == cells_lexemes(previous) + models_lexemes(tk_any_cell(self.elements@[i as int])));
                assert(self.elements@.subrange(0, i as int).push(self.elements@[i as int]) =~= self.elements@.subrange(0, i + 1));
                lemma_lx_list_any_cell_push(self.elements@.subrange(0, i as int), self.elements@[i as int]);
                assert(self.elements@.subrange(0, i + 1).subrange(0, i as int) =~= self.elements@.subrange(0, i as int));
                assert(self.elements@.subrange(0, i + 1).subrange(0, i + 1) =~= self.elements@.subrange(0, i + 1));
                assert(self.elements@.subrange(0, i as int).subrange(0, i as int) =~= self.elements@.subrange(0, i as int));
                lemma_tk_list_any_cell_prefix(self.elements@.subrange(0, i + 1), self.elements@, i + 1);
                lemma_tk_list_any_cell_prefix(self.elements@.subrange(0, i as int), self.elements@, i as int);
                assert(models_lexemes(tk_list_any_cell(self.elements@, i + 1)) == models_lexemes(tk_list_any_cell(self.elements@, i as int)) + models_lexemes(tk_any_cell(self.elements@[i as int])));
            }
            i = i + 1;
        }
        proof {
            lemma_lx_source_file(*self);
        }
    }
}

impl ToCells for Expr {
    fn to_cells(&self, output: &mut CellStream) {
        let tokens = self.to_token_stream();
        append_promoted_cells(&tokens, output);
    }
}

impl ToCells for SyntaxNode {
    fn to_cells(&self, output: &mut CellStream) {
        match self {
            SyntaxNode::SourceFile(node) => node.to_cells(output),
            SyntaxNode::AnyCell(node) => node.to_cells(output),
            SyntaxNode::Expr(node) => node.to_cells(output),
        }
    }
}

// ---------------------------------------------------------------------------
// Laws: a node's span covers its fields
// ---------------------------------------------------------------------------
/// The span of every `Symbol` covers the span it was read at.
pub proof fn law_symbol_span_encloses_fields(x: Symbol)
    ensures
        encloses(sp_symbol(x), x.span),
{
    lemma_encloses_refl(x.span);
}

/// The span of every `BlockComment` covers the span it was read at.
pub proof fn law_block_comment_span_encloses_fields(x: BlockComment)
    ensures
        encloses(sp_block_comment(x), x.span),
{
    lemma_encloses_refl(x.span);
}

/// The span of every `LineComment` covers the span it was read at.
pub proof fn law_line_comment_span_encloses_fields(x: LineComment)
    ensures
        encloses(sp_line_comment(x), x.span),
{
    lemma_encloses_refl(x.span);
}

/// The span of every `EmptyComponent` covers the span it was read at.
pub proof fn law_empty_component_span_encloses_fields(x: EmptyComponent)
    ensures
        encloses(sp_empty_component(x), x.span),
{
    lemma_encloses_refl(x.span);
}

/// The span of every `EscapeSequence` covers the span it was read at.
pub proof fn law_escape_sequence_span_encloses_fields(x: EscapeSequence)
    ensures
        encloses(sp_escape_sequence(x), x.span),
{
    lemma_encloses_refl(x.span);
}

/// The span of every `FloatLiteral` covers the span it was read at.
pub proof fn law_float_literal_span_encloses_fields(x: FloatLiteral)
    ensures
        encloses(sp_float_literal(x), x.span),
{
    lemma_encloses_refl(x.span);
}

/// The span of every `IntegerLiteral` covers the span it was read at.
pub proof fn law_integer_literal_span_encloses_fields(x: IntegerLiteral)
    ensures
        encloses(sp_integer_literal(x), x.span),
{
    lemma_encloses_refl(x.span);
}

/// The span of every `RawStringContent` covers the span it was read at.
pub proof fn law_raw_string_content_span_encloses_fields(x: RawStringContent)
    ensures
        encloses(sp_raw_string_content(x), x.span),
{
    lemma_encloses_refl(x.span);
}

/// The span of every `StringContent` covers the span it was read at.
pub proof fn law_string_content_span_encloses_fields(x: StringContent)
    ensures
        encloses(sp_string_content(x), x.span),
{
    lemma_encloses_refl(x.span);
}

/// The span of every `SourceFile` covers the span of its contents.
pub proof fn law_source_file_span_encloses_fields(x: SourceFile)
    ensures
        encloses(sp_source_file(x), span_cover_all(sp_list_any_cell(x.elements@, x.elements@.len() as int))),
{
    lemma_encloses_refl(span_cover_all(sp_list_any_cell(x.elements@, x.elements@.len() as int)));
}

/// The span of every `ExpressionCell` covers the span of its contents.
pub proof fn law_expression_cell_span_encloses_fields(x: ExpressionCell)
    ensures
        encloses(sp_expression_cell(x), sp_expr(*x.value)),
{
    lemma_encloses_refl(sp_expr(*x.value));
}

/// The span of every `SequenceCell` covers the span of its contents.
pub proof fn law_sequence_cell_span_encloses_fields(x: SequenceCell)
    ensures
        encloses(sp_sequence_cell(x), sp_naked_sequence(x.value)),
{
    lemma_encloses_refl(sp_naked_sequence(x.value));
}

/// The span of every `NakedSequence` covers the span of its contents.
pub proof fn law_naked_sequence_span_encloses_fields(x: NakedSequence)
    ensures
        encloses(sp_naked_sequence(x), span_cover_all(sp_pairs(x.elements, x.elements.spec_pairs().len() as int) + match x.elements.spec_last() { Some(v) => seq![sp_component(v)], None => seq![] } + comma_spans(x.elements))),
{
    lemma_encloses_refl(span_cover_all(sp_pairs(x.elements, x.elements.spec_pairs().len() as int) + match x.elements.spec_last() { Some(v) => seq![sp_component(v)], None => seq![] } + comma_spans(x.elements)));
}

/// The span of every `MutedCell` covers the span of each of its fields, where those
/// are well formed and lie in one frame.
pub proof fn law_muted_cell_span_encloses_fields(x: MutedCell)
    requires
        spans_agree(seq![
            span_cover_all(sp_pairs(x.elements, x.elements.spec_pairs().len() as int) + match x.elements.spec_last() { Some(v) => seq![sp_component(v)], None => seq![] } + comma_spans(x.elements)),
            model_span(x.semicolon.raw_model()),
        ]),
    ensures
        encloses(sp_muted_cell(x), span_cover_all(sp_pairs(x.elements, x.elements.spec_pairs().len() as int) + match x.elements.spec_last() { Some(v) => seq![sp_component(v)], None => seq![] } + comma_spans(x.elements))),
        encloses(sp_muted_cell(x), model_span(x.semicolon.raw_model())),
{
    let m0 = span_cover_all(sp_pairs(x.elements, x.elements.spec_pairs().len() as int) + match x.elements.spec_last() { Some(v) => seq![sp_component(v)], None => seq![] } + comma_spans(x.elements));
    let m1 = model_span(x.semicolon.raw_model());
    let s = seq![m0, m1];
    assert(s[0] == m0);
    assert(s[1] == m1);
    lemma_cover_encloses(m0, m1);
    let c1 = span_cover(m0, m1);
    assert(sp_muted_cell(x) == c1);
}

/// The span of every `MutedGroup` covers the span of each of its fields, where those
/// are well formed and lie in one frame.
pub proof fn law_muted_group_span_encloses_fields(x: MutedGroup)
    requires
        spans_agree(seq![
            span_cover_all(sp_pairs(x.elements, x.elements.spec_pairs().len() as int) + match x.elements.spec_last() { Some(v) => seq![sp_component(v)], None => seq![] } + comma_spans(x.elements)),
            model_span(x.semicolon.raw_model()),
        ]),
    ensures
        encloses(sp_muted_group(x), span_cover_all(sp_pairs(x.elements, x.elements.spec_pairs().len() as int) + match x.elements.spec_last() { Some(v) => seq![sp_component(v)], None => seq![] } + comma_spans(x.elements))),
        encloses(sp_muted_group(x), model_span(x.semicolon.raw_model())),
{
    let m0 = span_cover_all(sp_pairs(x.elements, x.elements.spec_pairs().len() as int) + match x.elements.spec_last() { Some(v) => seq![sp_component(v)], None => seq![] } + comma_spans(x.elements));
    let m1 = model_span(x.semicolon.raw_model());
    let s = seq![m0, m1];
    assert(s[0] == m0);
    assert(s[1] == m1);
    lemma_cover_encloses(m0, m1);
    let c1 = span_cover(m0, m1);
    assert(sp_muted_group(x) == c1);
}

/// The span of every `Array` covers the span of each of its fields, where those
/// are well formed and lie in one frame.
pub proof fn law_array_span_encloses_fields(x: Array)
    requires
        spans_agree(seq![
            span_cover_all(sp_list_muted_group(x.muted@, x.muted@.len() as int)),
            span_cover_all(sp_pairs(x.elements, x.elements.spec_pairs().len() as int) + match x.elements.spec_last() { Some(v) => seq![sp_component(v)], None => seq![] } + comma_spans(x.elements)),
            x.delimiter.spec_span(),
        ]),
    ensures
        encloses(sp_array(x), span_cover_all(sp_list_muted_group(x.muted@, x.muted@.len() as int))),
        encloses(sp_array(x), span_cover_all(sp_pairs(x.elements, x.elements.spec_pairs().len() as int) + match x.elements.spec_last() { Some(v) => seq![sp_component(v)], None => seq![] } + comma_spans(x.elements))),
        encloses(sp_array(x), x.delimiter.spec_span()),
{
    let m0 = span_cover_all(sp_list_muted_group(x.muted@, x.muted@.len() as int));
    let m1 = span_cover_all(sp_pairs(x.elements, x.elements.spec_pairs().len() as int) + match x.elements.spec_last() { Some(v) => seq![sp_component(v)], None => seq![] } + comma_spans(x.elements));
    let m2 = x.delimiter.spec_span();
    let s = seq![m0, m1, m2];
    assert(s[0] == m0);
    assert(s[1] == m1);
    assert(s[2] == m2);
    lemma_cover_encloses(m0, m1);
    let c1 = span_cover(m0, m1);
    lemma_cover_encloses(c1, m2);
    let c2 = span_cover(c1, m2);
    lemma_encloses_trans(c2, c1, m0);
    lemma_encloses_trans(c2, c1, m1);
    assert(sp_array(x) == c2);
}

/// The span of every `List` covers the span of each of its fields, where those
/// are well formed and lie in one frame.
pub proof fn law_list_span_encloses_fields(x: List)
    requires
        spans_agree(seq![
            span_cover_all(sp_list_muted_group(x.muted@, x.muted@.len() as int)),
            span_cover_all(sp_pairs(x.elements, x.elements.spec_pairs().len() as int) + match x.elements.spec_last() { Some(v) => seq![sp_component(v)], None => seq![] } + comma_spans(x.elements)),
            x.delimiter.spec_span(),
        ]),
    ensures
        encloses(sp_list(x), span_cover_all(sp_list_muted_group(x.muted@, x.muted@.len() as int))),
        encloses(sp_list(x), span_cover_all(sp_pairs(x.elements, x.elements.spec_pairs().len() as int) + match x.elements.spec_last() { Some(v) => seq![sp_component(v)], None => seq![] } + comma_spans(x.elements))),
        encloses(sp_list(x), x.delimiter.spec_span()),
{
    let m0 = span_cover_all(sp_list_muted_group(x.muted@, x.muted@.len() as int));
    let m1 = span_cover_all(sp_pairs(x.elements, x.elements.spec_pairs().len() as int) + match x.elements.spec_last() { Some(v) => seq![sp_component(v)], None => seq![] } + comma_spans(x.elements));
    let m2 = x.delimiter.spec_span();
    let s = seq![m0, m1, m2];
    assert(s[0] == m0);
    assert(s[1] == m1);
    assert(s[2] == m2);
    lemma_cover_encloses(m0, m1);
    let c1 = span_cover(m0, m1);
    lemma_cover_encloses(c1, m2);
    let c2 = span_cover(c1, m2);
    lemma_encloses_trans(c2, c1, m0);
    lemma_encloses_trans(c2, c1, m1);
    assert(sp_list(x) == c2);
}

/// The span of every `AngleBarList` covers the span of each of its fields, where those
/// are well formed and lie in one frame.
pub proof fn law_angle_bar_list_span_encloses_fields(x: AngleBarList)
    requires
        spans_agree(seq![
            span_cover_all(sp_list_muted_group(x.muted@, x.muted@.len() as int)),
            span_cover_all(sp_pairs(x.elements, x.elements.spec_pairs().len() as int) + match x.elements.spec_last() { Some(v) => seq![sp_component(v)], None => seq![] } + comma_spans(x.elements)),
            x.delimiter.spec_span(),
        ]),
    ensures
        encloses(sp_angle_bar_list(x), span_cover_all(sp_list_muted_group(x.muted@, x.muted@.len() as int))),
        encloses(sp_angle_bar_list(x), span_cover_all(sp_pairs(x.elements, x.elements.spec_pairs().len() as int) + match x.elements.spec_last() { Some(v) => seq![sp_component(v)], None => seq![] } + comma_spans(x.elements))),
        encloses(sp_angle_bar_list(x), x.delimiter.spec_span()),
{
    let m0 = span_cover_all(sp_list_muted_group(x.muted@, x.muted@.len() as int));
    let m1 = span_cover_all(sp_pairs(x.elements, x.elements.spec_pairs().len() as int) + match x.elements.spec_last() { Some(v) => seq![sp_component(v)], None => seq![] } + comma_spans(x.elements));
    let m2 = x.delimiter.spec_span();
    let s = seq![m0, m1, m2];
    assert(s[0] == m0);
    assert(s[1] == m1);
    assert(s[2] == m2);
    lemma_cover_encloses(m0, m1);
    let c1 = span_cover(m0, m1);
    lemma_cover_encloses(c1, m2);
    let c2 = span_cover(c1, m2);
    lemma_encloses_trans(c2, c1, m0);
    lemma_encloses_trans(c2, c1, m1);
    assert(sp_angle_bar_list(x) == c2);
}

/// The span of every `Sequence` covers the span of each of its fields, where those
/// are well formed and lie in one frame.
pub proof fn law_sequence_span_encloses_fields(x: Sequence)
    requires
        spans_agree(seq![
            span_cover_all(sp_list_muted_group(x.muted@, x.muted@.len() as int)),
            span_cover_all(sp_pairs(x.elements, x.elements.spec_pairs().len() as int) + match x.elements.spec_last() { Some(v) => seq![sp_component(v)], None => seq![] } + comma_spans(x.elements)),
            x.delimiter.spec_span(),
        ]),
    ensures
        encloses(sp_sequence(x), span_cover_all(sp_list_muted_group(x.muted@, x.muted@.len() as int))),
        encloses(sp_sequence(x), span_cover_all(sp_pairs(x.elements, x.elements.spec_pairs().len() as int) + match x.elements.spec_last() { Some(v) => seq![sp_component(v)], None => seq![] } + comma_spans(x.elements))),
        encloses(sp_sequence(x), x.delimiter.spec_span()),
{
    let m0 = span_cover_all(sp_list_muted_group(x.muted@, x.muted@.len() as int));
    let m1 = span_cover_all(sp_pairs(x.elements, x.elements.spec_pairs().len() as int) + match x.elements.spec_last() { Some(v) => seq![sp_component(v)], None => seq![] } + comma_spans(x.elements));
    let m2 = x.delimiter.spec_span();
    let s = seq![m0, m1, m2];
    assert(s[0] == m0);
    assert(s[1] == m1);
    assert(s[2] == m2);
    lemma_cover_encloses(m0, m1);
    let c1 = span_cover(m0, m1);
    lemma_cover_encloses(c1, m2);
    let c2 = span_cover(c1, m2);
    lemma_encloses_trans(c2, c1, m0);
    lemma_encloses_trans(c2, c1, m1);
    assert(sp_sequence(x) == c2);
}

/// The span of every `ParenthesizedExpression` covers the span of each of its fields, where those
/// are well formed and lie in one frame.
pub proof fn law_parenthesized_expression_span_encloses_fields(x: ParenthesizedExpression)
    requires
        spans_agree(seq![
            span_cover_all(sp_list_muted_group(x.muted@, x.muted@.len() as int)),
            match x.value { Some(e) => sp_expr(*e), None => Span::Detached },
            x.delimiter.spec_span(),
        ]),
    ensures
        encloses(sp_parenthesized_expression(x), span_cover_all(sp_list_muted_group(x.muted@, x.muted@.len() as int))),
        encloses(sp_parenthesized_expression(x), match x.value { Some(e) => sp_expr(*e), None => Span::Detached }),
        encloses(sp_parenthesized_expression(x), x.delimiter.spec_span()),
{
    let m0 = span_cover_all(sp_list_muted_group(x.muted@, x.muted@.len() as int));
    let m1 = match x.value { Some(e) => sp_expr(*e), None => Span::Detached };
    let m2 = x.delimiter.spec_span();
    let s = seq![m0, m1, m2];
    assert(s[0] == m0);
    assert(s[1] == m1);
    assert(s[2] == m2);
    lemma_cover_encloses(m0, m1);
    let c1 = span_cover(m0, m1);
    lemma_cover_encloses(c1, m2);
    let c2 = span_cover(c1, m2);
    lemma_encloses_trans(c2, c1, m0);
    lemma_encloses_trans(c2, c1, m1);
    assert(sp_parenthesized_expression(x) == c2);
}

/// The span of every `StringLiteral` covers the span of its contents.
pub proof fn law_string_literal_span_encloses_fields(x: StringLiteral)
    ensures
        encloses(sp_string_literal(x), span_cover_all(sp_list_string_element(x.elements@, x.elements@.len() as int))),
{
    lemma_encloses_refl(span_cover_all(sp_list_string_element(x.elements@, x.elements@.len() as int)));
}

/// The span of every `RawStringLiteral` covers the span of its contents.
pub proof fn law_raw_string_literal_span_encloses_fields(x: RawStringLiteral)
    ensures
        encloses(sp_raw_string_literal(x), span_cover_all(sp_list_raw_string_element(x.elements@, x.elements@.len() as int))),
{
    lemma_encloses_refl(span_cover_all(sp_list_raw_string_element(x.elements@, x.elements@.len() as int)));
}

/// The span of every `BinaryExpression` covers the span of each of its fields, where those
/// are well formed and lie in one frame.
pub proof fn law_binary_expression_span_encloses_fields(x: BinaryExpression)
    requires
        spans_agree(seq![
            sp_expr(*x.left),
            model_span(x.operator.raw_model()),
            sp_expr(*x.right),
        ]),
    ensures
        encloses(sp_binary_expression(x), sp_expr(*x.left)),
        encloses(sp_binary_expression(x), model_span(x.operator.raw_model())),
        encloses(sp_binary_expression(x), sp_expr(*x.right)),
{
    let m0 = sp_expr(*x.left);
    let m1 = model_span(x.operator.raw_model());
    let m2 = sp_expr(*x.right);
    let s = seq![m0, m1, m2];
    assert(s[0] == m0);
    assert(s[1] == m1);
    assert(s[2] == m2);
    lemma_cover_encloses(m0, m1);
    let c1 = span_cover(m0, m1);
    lemma_cover_encloses(c1, m2);
    let c2 = span_cover(c1, m2);
    lemma_encloses_trans(c2, c1, m0);
    lemma_encloses_trans(c2, c1, m1);
    assert(sp_binary_expression(x) == c2);
}

/// The span of every `AdjacentExpression` covers the span of each of its fields, where those
/// are well formed and lie in one frame.
pub proof fn law_adjacent_expression_span_encloses_fields(x: AdjacentExpression)
    requires
        spans_agree(seq![
            sp_expr(*x.left),
            sp_expr(*x.right),
        ]),
    ensures
        encloses(sp_adjacent_expression(x), sp_expr(*x.left)),
        encloses(sp_adjacent_expression(x), sp_expr(*x.right)),
{
    let m0 = sp_expr(*x.left);
    let m1 = sp_expr(*x.right);
    let s = seq![m0, m1];
    assert(s[0] == m0);
    assert(s[1] == m1);
    lemma_cover_encloses(m0, m1);
    let c1 = span_cover(m0, m1);
    assert(sp_adjacent_expression(x) == c1);
}

/// The span of every `PrefixExpression` covers the span of each of its fields, where those
/// are well formed and lie in one frame.
pub proof fn law_prefix_expression_span_encloses_fields(x: PrefixExpression)
    requires
        spans_agree(seq![
            model_span(x.operator.raw_model()),
            sp_expr(*x.operand),
        ]),
    ensures
        encloses(sp_prefix_expression(x), model_span(x.operator.raw_model())),
        encloses(sp_prefix_expression(x), sp_expr(*x.operand)),
{
    let m0 = model_span(x.operator.raw_model());
    let m1 = sp_expr(*x.operand);
    let s = seq![m0, m1];
    assert(s[0] == m0);
    assert(s[1] == m1);
    lemma_cover_encloses(m0, m1);
    let c1 = span_cover(m0, m1);
    assert(sp_prefix_expression(x) == c1);
}

/// The span of every `PostfixExpression` covers the span of each of its fields, where those
/// are well formed and lie in one frame.
pub proof fn law_postfix_expression_span_encloses_fields(x: PostfixExpression)
    requires
        spans_agree(seq![
            sp_expr(*x.operand),
            model_span(x.operator.raw_model()),
        ]),
    ensures
        encloses(sp_postfix_expression(x), sp_expr(*x.operand)),
        encloses(sp_postfix_expression(x), model_span(x.operator.raw_model())),
{
    let m0 = sp_expr(*x.operand);
    let m1 = model_span(x.operator.raw_model());
    let s = seq![m0, m1];
    assert(s[0] == m0);
    assert(s[1] == m1);
    lemma_cover_encloses(m0, m1);
    let c1 = span_cover(m0, m1);
    assert(sp_postfix_expression(x) == c1);
}

/// The span of every `LambdaExpression` covers the span of each of its fields, where those
/// are well formed and lie in one frame.
pub proof fn law_lambda_expression_span_encloses_fields(x: LambdaExpression)
    requires
        spans_agree(seq![
            sp_lambda_parameters(x.parameters),
            model_span(x.operator.raw_model()),
            sp_expr(*x.body),
        ]),
    ensures
        encloses(sp_lambda_expression(x), sp_lambda_parameters(x.parameters)),
        encloses(sp_lambda_expression(x), model_span(x.operator.raw_model())),
        encloses(sp_lambda_expression(x), sp_expr(*x.body)),
{
    let m0 = sp_lambda_parameters(x.parameters);
    let m1 = model_span(x.operator.raw_model());
    let m2 = sp_expr(*x.body);
    let s = seq![m0, m1, m2];
    assert(s[0] == m0);
    assert(s[1] == m1);
    assert(s[2] == m2);
    lemma_cover_encloses(m0, m1);
    let c1 = span_cover(m0, m1);
    lemma_cover_encloses(c1, m2);
    let c2 = span_cover(c1, m2);
    lemma_encloses_trans(c2, c1, m0);
    lemma_encloses_trans(c2, c1, m1);
    assert(sp_lambda_expression(x) == c2);
}

/// The span of every `Assignment` covers the span of each of its fields, where those
/// are well formed and lie in one frame.
pub proof fn law_assignment_span_encloses_fields(x: Assignment)
    requires
        spans_agree(seq![
            sp_symbol(x.left),
            model_span(x.operator.raw_model()),
            sp_expr(*x.right),
        ]),
    ensures
        encloses(sp_assignment(x), sp_symbol(x.left)),
        encloses(sp_assignment(x), model_span(x.operator.raw_model())),
        encloses(sp_assignment(x), sp_expr(*x.right)),
{
    let m0 = sp_symbol(x.left);
    let m1 = model_span(x.operator.raw_model());
    let m2 = sp_expr(*x.right);
    let s = seq![m0, m1, m2];
    assert(s[0] == m0);
    assert(s[1] == m1);
    assert(s[2] == m2);
    lemma_cover_encloses(m0, m1);
    let c1 = span_cover(m0, m1);
    lemma_cover_encloses(c1, m2);
    let c2 = span_cover(c1, m2);
    lemma_encloses_trans(c2, c1, m0);
    lemma_encloses_trans(c2, c1, m1);
    assert(sp_assignment(x) == c2);
}

/// The span of every `LocalAssignment` covers the span of each of its fields, where those
/// are well formed and lie in one frame.
pub proof fn law_local_assignment_span_encloses_fields(x: LocalAssignment)
    requires
        spans_agree(seq![
            sp_symbol(x.left),
            model_span(x.operator.raw_model()),
            sp_expr(*x.right),
        ]),
    ensures
        encloses(sp_local_assignment(x), sp_symbol(x.left)),
        encloses(sp_local_assignment(x), model_span(x.operator.raw_model())),
        encloses(sp_local_assignment(x), sp_expr(*x.right)),
{
    let m0 = sp_symbol(x.left);
    let m1 = model_span(x.operator.raw_model());
    let m2 = sp_expr(*x.right);
    let s = seq![m0, m1, m2];
    assert(s[0] == m0);
    assert(s[1] == m1);
    assert(s[2] == m2);
    lemma_cover_encloses(m0, m1);
    let c1 = span_cover(m0, m1);
    lemma_cover_encloses(c1, m2);
    let c2 = span_cover(c1, m2);
    lemma_encloses_trans(c2, c1, m0);
    lemma_encloses_trans(c2, c1, m1);
    assert(sp_local_assignment(x) == c2);
}

/// The span of every `BinaryAssignment` covers the span of each of its fields, where those
/// are well formed and lie in one frame.
pub proof fn law_binary_assignment_span_encloses_fields(x: BinaryAssignment)
    requires
        spans_agree(seq![
            sp_binary_expression(x.left),
            model_span(x.operator.raw_model()),
            sp_expr(*x.right),
        ]),
    ensures
        encloses(sp_binary_assignment(x), sp_binary_expression(x.left)),
        encloses(sp_binary_assignment(x), model_span(x.operator.raw_model())),
        encloses(sp_binary_assignment(x), sp_expr(*x.right)),
{
    let m0 = sp_binary_expression(x.left);
    let m1 = model_span(x.operator.raw_model());
    let m2 = sp_expr(*x.right);
    let s = seq![m0, m1, m2];
    assert(s[0] == m0);
    assert(s[1] == m1);
    assert(s[2] == m2);
    lemma_cover_encloses(m0, m1);
    let c1 = span_cover(m0, m1);
    lemma_cover_encloses(c1, m2);
    let c2 = span_cover(c1, m2);
    lemma_encloses_trans(c2, c1, m0);
    lemma_encloses_trans(c2, c1, m1);
    assert(sp_binary_assignment(x) == c2);
}

/// The span of every `BinaryInstallation` covers the span of each of its fields, where those
/// are well formed and lie in one frame.
pub proof fn law_binary_installation_span_encloses_fields(x: BinaryInstallation)
    requires
        spans_agree(seq![
            sp_binary_expression(x.left),
            model_span(x.operator.raw_model()),
            sp_expr(*x.right),
        ]),
    ensures
        encloses(sp_binary_installation(x), sp_binary_expression(x.left)),
        encloses(sp_binary_installation(x), model_span(x.operator.raw_model())),
        encloses(sp_binary_installation(x), sp_expr(*x.right)),
{
    let m0 = sp_binary_expression(x.left);
    let m1 = model_span(x.operator.raw_model());
    let m2 = sp_expr(*x.right);
    let s = seq![m0, m1, m2];
    assert(s[0] == m0);
    assert(s[1] == m1);
    assert(s[2] == m2);
    lemma_cover_encloses(m0, m1);
    let c1 = span_cover(m0, m1);
    lemma_cover_encloses(c1, m2);
    let c2 = span_cover(c1, m2);
    lemma_encloses_trans(c2, c1, m0);
    lemma_encloses_trans(c2, c1, m1);
    assert(sp_binary_installation(x) == c2);
}

/// The span of every `PrefixAssignment` covers the span of each of its fields, where those
/// are well formed and lie in one frame.
pub proof fn law_prefix_assignment_span_encloses_fields(x: PrefixAssignment)
    requires
        spans_agree(seq![
            sp_prefix_expression(x.left),
            model_span(x.operator.raw_model()),
            sp_expr(*x.right),
        ]),
    ensures
        encloses(sp_prefix_assignment(x), sp_prefix_expression(x.left)),
        encloses(sp_prefix_assignment(x), model_span(x.operator.raw_model())),
        encloses(sp_prefix_assignment(x), sp_expr(*x.right)),
{
    let m0 = sp_prefix_expression(x.left);
    let m1 = model_span(x.operator.raw_model());
    let m2 = sp_expr(*x.right);
    let s = seq![m0, m1, m2];
    assert(s[0] == m0);
    assert(s[1] == m1);
    assert(s[2] == m2);
    lemma_cover_encloses(m0, m1);
    let c1 = span_cover(m0, m1);
    lemma_cover_encloses(c1, m2);
    let c2 = span_cover(c1, m2);
    lemma_encloses_trans(c2, c1, m0);
    lemma_encloses_trans(c2, c1, m1);
    assert(sp_prefix_assignment(x) == c2);
}

/// The span of every `PrefixInstallation` covers the span of each of its fields, where those
/// are well formed and lie in one frame.
pub proof fn law_prefix_installation_span_encloses_fields(x: PrefixInstallation)
    requires
        spans_agree(seq![
            sp_prefix_expression(x.left),
            model_span(x.operator.raw_model()),
            sp_expr(*x.right),
        ]),
    ensures
        encloses(sp_prefix_installation(x), sp_prefix_expression(x.left)),
        encloses(sp_prefix_installation(x), model_span(x.operator.raw_model())),
        encloses(sp_prefix_installation(x), sp_expr(*x.right)),
{
    let m0 = sp_prefix_expression(x.left);
    let m1 = model_span(x.operator.raw_model());
    let m2 = sp_expr(*x.right);
    let s = seq![m0, m1, m2];
    assert(s[0] == m0);
    assert(s[1] == m1);
    assert(s[2] == m2);
    lemma_cover_encloses(m0, m1);
    let c1 = span_cover(m0, m1);
    lemma_cover_encloses(c1, m2);
    let c2 = span_cover(c1, m2);
    lemma_encloses_trans(c2, c1, m0);
    lemma_encloses_trans(c2, c1, m1);
    assert(sp_prefix_installation(x) == c2);
}

/// The span of every `PostfixAssignment` covers the span of each of its fields, where those
/// are well formed and lie in one frame.
pub proof fn law_postfix_assignment_span_encloses_fields(x: PostfixAssignment)
    requires
        spans_agree(seq![
            sp_postfix_expression(x.left),
            model_span(x.operator.raw_model()),
            sp_expr(*x.right),
        ]),
    ensures
        encloses(sp_postfix_assignment(x), sp_postfix_expression(x.left)),
        encloses(sp_postfix_assignment(x), model_span(x.operator.raw_model())),
        encloses(sp_postfix_assignment(x), sp_expr(*x.right)),
{
    let m0 = sp_postfix_expression(x.left);
    let m1 = model_span(x.operator.raw_model());
    let m2 = sp_expr(*x.right);
    let s = seq![m0, m1, m2];
    assert(s[0] == m0);
    assert(s[1] == m1);
    assert(s[2] == m2);
    lemma_cover_encloses(m0, m1);
    let c1 = span_cover(m0, m1);
    lemma_cover_encloses(c1, m2);
    let c2 = span_cover(c1, m2);
    lemma_encloses_trans(c2, c1, m0);
    lemma_encloses_trans(c2, c1, m1);
    assert(sp_postfix_assignment(x) == c2);
}

/// The span of every `PostfixInstallation` covers the span of each of its fields, where those
/// are well formed and lie in one frame.
pub proof fn law_postfix_installation_span_encloses_fields(x: PostfixInstallation)
    requires
        spans_agree(seq![
            sp_postfix_expression(x.left),
            model_span(x.operator.raw_model()),
            sp_expr(*x.right),
        ]),
    ensures
        encloses(sp_postfix_installation(x), sp_postfix_expression(x.left)),
        encloses(sp_postfix_installation(x), model_span(x.operator.raw_model())),
        encloses(sp_postfix_installation(x), sp_expr(*x.right)),
{
    let m0 = sp_postfix_expression(x.left);
    let m1 = model_span(x.operator.raw_model());
    let m2 = sp_expr(*x.right);
    let s = seq![m0, m1, m2];
    assert(s[0] == m0);
    assert(s[1] == m1);
    assert(s[2] == m2);
    lemma_cover_encloses(m0, m1);
    let c1 = span_cover(m0, m1);
    lemma_cover_encloses(c1, m2);
    let c2 = span_cover(c1, m2);
    lemma_encloses_trans(c2, c1, m0);
    lemma_encloses_trans(c2, c1, m1);
    assert(sp_postfix_installation(x) == c2);
}

/// The span of every `StructuredBinding` covers the span of each of its fields, where those
/// are well formed and lie in one frame.
pub proof fn law_structured_binding_span_encloses_fields(x: StructuredBinding)
    requires
        spans_agree(seq![
            sp_binding_pack(x.binding_pack),
            model_span(x.operator.raw_model()),
            sp_expr(*x.right),
        ]),
    ensures
        encloses(sp_structured_binding(x), sp_binding_pack(x.binding_pack)),
        encloses(sp_structured_binding(x), model_span(x.operator.raw_model())),
        encloses(sp_structured_binding(x), sp_expr(*x.right)),
{
    let m0 = sp_binding_pack(x.binding_pack);
    let m1 = model_span(x.operator.raw_model());
    let m2 = sp_expr(*x.right);
    let s = seq![m0, m1, m2];
    assert(s[0] == m0);
    assert(s[1] == m1);
    assert(s[2] == m2);
    lemma_cover_encloses(m0, m1);
    let c1 = span_cover(m0, m1);
    lemma_cover_encloses(c1, m2);
    let c2 = span_cover(c1, m2);
    lemma_encloses_trans(c2, c1, m0);
    lemma_encloses_trans(c2, c1, m1);
    assert(sp_structured_binding(x) == c2);
}

/// The span of every `LocalStructuredBinding` covers the span of each of its fields, where those
/// are well formed and lie in one frame.
pub proof fn law_local_structured_binding_span_encloses_fields(x: LocalStructuredBinding)
    requires
        spans_agree(seq![
            sp_binding_pack(x.binding_pack),
            model_span(x.operator.raw_model()),
            sp_expr(*x.right),
        ]),
    ensures
        encloses(sp_local_structured_binding(x), sp_binding_pack(x.binding_pack)),
        encloses(sp_local_structured_binding(x), model_span(x.operator.raw_model())),
        encloses(sp_local_structured_binding(x), sp_expr(*x.right)),
{
    let m0 = sp_binding_pack(x.binding_pack);
    let m1 = model_span(x.operator.raw_model());
    let m2 = sp_expr(*x.right);
    let s = seq![m0, m1, m2];
    assert(s[0] == m0);
    assert(s[1] == m1);
    assert(s[2] == m2);
    lemma_cover_encloses(m0, m1);
    let c1 = span_cover(m0, m1);
    lemma_cover_encloses(c1, m2);
    let c2 = span_cover(c1, m2);
    lemma_encloses_trans(c2, c1, m0);
    lemma_encloses_trans(c2, c1, m1);
    assert(sp_local_structured_binding(x) == c2);
}

/// The span of every `EvaluatedAssignment` covers the span of each of its fields, where those
/// are well formed and lie in one frame.
pub proof fn law_evaluated_assignment_span_encloses_fields(x: EvaluatedAssignment)
    requires
        spans_agree(seq![
            sp_expr(*x.left),
            model_span(x.operator.raw_model()),
            sp_expr(*x.right),
        ]),
    ensures
        encloses(sp_evaluated_assignment(x), sp_expr(*x.left)),
        encloses(sp_evaluated_assignment(x), model_span(x.operator.raw_model())),
        encloses(sp_evaluated_assignment(x), sp_expr(*x.right)),
{
    let m0 = sp_expr(*x.left);
    let m1 = model_span(x.operator.raw_model());
    let m2 = sp_expr(*x.right);
    let s = seq![m0, m1, m2];
    assert(s[0] == m0);
    assert(s[1] == m1);
    assert(s[2] == m2);
    lemma_cover_encloses(m0, m1);
    let c1 = span_cover(m0, m1);
    lemma_cover_encloses(c1, m2);
    let c2 = span_cover(c1, m2);
    lemma_encloses_trans(c2, c1, m0);
    lemma_encloses_trans(c2, c1, m1);
    assert(sp_evaluated_assignment(x) == c2);
}

/// The span of every `OptionExpression` covers the span of each of its fields, where those
/// are well formed and lie in one frame.
pub proof fn law_option_expression_span_encloses_fields(x: OptionExpression)
    requires
        spans_agree(seq![
            sp_expr(*x.left),
            model_span(x.operator.raw_model()),
            sp_expr(*x.right),
        ]),
    ensures
        encloses(sp_option_expression(x), sp_expr(*x.left)),
        encloses(sp_option_expression(x), model_span(x.operator.raw_model())),
        encloses(sp_option_expression(x), sp_expr(*x.right)),
{
    let m0 = sp_expr(*x.left);
    let m1 = model_span(x.operator.raw_model());
    let m2 = sp_expr(*x.right);
    let s = seq![m0, m1, m2];
    assert(s[0] == m0);
    assert(s[1] == m1);
    assert(s[2] == m2);
    lemma_cover_encloses(m0, m1);
    let c1 = span_cover(m0, m1);
    lemma_cover_encloses(c1, m2);
    let c2 = span_cover(c1, m2);
    lemma_encloses_trans(c2, c1, m0);
    lemma_encloses_trans(c2, c1, m1);
    assert(sp_option_expression(x) == c2);
}

/// The span of every `ThenClause` covers the span of each of its fields, where those
/// are well formed and lie in one frame.
pub proof fn law_then_clause_span_encloses_fields(x: ThenClause)
    requires
        spans_agree(seq![
            model_span(x.keyword.raw_model()),
            sp_expr(*x.value),
        ]),
    ensures
        encloses(sp_then_clause(x), model_span(x.keyword.raw_model())),
        encloses(sp_then_clause(x), sp_expr(*x.value)),
{
    let m0 = model_span(x.keyword.raw_model());
    let m1 = sp_expr(*x.value);
    let s = seq![m0, m1];
    assert(s[0] == m0);
    assert(s[1] == m1);
    lemma_cover_encloses(m0, m1);
    let c1 = span_cover(m0, m1);
    assert(sp_then_clause(x) == c1);
}

/// The span of every `ElseClause` covers the span of each of its fields, where those
/// are well formed and lie in one frame.
pub proof fn law_else_clause_span_encloses_fields(x: ElseClause)
    requires
        spans_agree(seq![
            model_span(x.keyword.raw_model()),
            sp_expr(*x.value),
        ]),
    ensures
        encloses(sp_else_clause(x), model_span(x.keyword.raw_model())),
        encloses(sp_else_clause(x), sp_expr(*x.value)),
{
    let m0 = model_span(x.keyword.raw_model());
    let m1 = sp_expr(*x.value);
    let s = seq![m0, m1];
    assert(s[0] == m0);
    assert(s[1] == m1);
    lemma_cover_encloses(m0, m1);
    let c1 = span_cover(m0, m1);
    assert(sp_else_clause(x) == c1);
}

/// The span of every `IfStatement` covers the span of each of its fields, where those
/// are well formed and lie in one frame.
pub proof fn law_if_statement_span_encloses_fields(x: IfStatement)
    requires
        spans_agree(seq![
            model_span(x.keyword.raw_model()),
            sp_expr(*x.condition),
            sp_then_clause(x.then_clause),
            match x.else_clause { Some(v) => sp_else_clause(v), None => Span::Detached },
        ]),
    ensures
        encloses(sp_if_statement(x), model_span(x.keyword.raw_model())),
        encloses(sp_if_statement(x), sp_expr(*x.condition)),
        encloses(sp_if_statement(x), sp_then_clause(x.then_clause)),
        encloses(sp_if_statement(x), match x.else_clause { Some(v) => sp_else_clause(v), None => Span::Detached }),
{
    let m0 = model_span(x.keyword.raw_model());
    let m1 = sp_expr(*x.condition);
    let m2 = sp_then_clause(x.then_clause);
    let m3 = match x.else_clause { Some(v) => sp_else_clause(v), None => Span::Detached };
    let s = seq![m0, m1, m2, m3];
    assert(s[0] == m0);
    assert(s[1] == m1);
    assert(s[2] == m2);
    assert(s[3] == m3);
    lemma_cover_encloses(m0, m1);
    let c1 = span_cover(m0, m1);
    lemma_cover_encloses(c1, m2);
    let c2 = span_cover(c1, m2);
    lemma_encloses_trans(c2, c1, m0);
    lemma_encloses_trans(c2, c1, m1);
    lemma_cover_encloses(c2, m3);
    let c3 = span_cover(c2, m3);
    lemma_encloses_trans(c3, c2, m0);
    lemma_encloses_trans(c3, c2, m1);
    lemma_encloses_trans(c3, c2, m2);
    assert(sp_if_statement(x) == c3);
}

/// The span of every `LoopBody` covers the span of each of its fields, where those
/// are well formed and lie in one frame.
pub proof fn law_loop_body_span_encloses_fields(x: LoopBody)
    requires
        spans_agree(seq![
            match x.list_keyword { Some(t) => model_span(t.raw_model()), None => Span::Detached },
            match x.listed_value { Some(e) => sp_expr(*e), None => Span::Detached },
            match x.do_keyword { Some(t) => model_span(t.raw_model()), None => Span::Detached },
            match x.ignored_value { Some(e) => sp_expr(*e), None => Span::Detached },
        ]),
    ensures
        encloses(sp_loop_body(x), match x.list_keyword { Some(t) => model_span(t.raw_model()), None => Span::Detached }),
        encloses(sp_loop_body(x), match x.listed_value { Some(e) => sp_expr(*e), None => Span::Detached }),
        encloses(sp_loop_body(x), match x.do_keyword { Some(t) => model_span(t.raw_model()), None => Span::Detached }),
        encloses(sp_loop_body(x), match x.ignored_value { Some(e) => sp_expr(*e), None => Span::Detached }),
{
    let m0 = match x.list_keyword { Some(t) => model_span(t.raw_model()), None => Span::Detached };
    let m1 = match x.listed_value { Some(e) => sp_expr(*e), None => Span::Detached };
    let m2 = match x.do_keyword { Some(t) => model_span(t.raw_model()), None => Span::Detached };
    let m3 = match x.ignored_value { Some(e) => sp_expr(*e), None => Span::Detached };
    let s = seq![m0, m1, m2, m3];
    assert(s[0] == m0);
    assert(s[1] == m1);
    assert(s[2] == m2);
    assert(s[3] == m3);
    lemma_cover_encloses(m0, m1);
    let c1 = span_cover(m0, m1);
    lemma_cover_encloses(c1, m2);
    let c2 = span_cover(c1, m2);
    lemma_encloses_trans(c2, c1, m0);
    lemma_encloses_trans(c2, c1, m1);
    lemma_cover_encloses(c2, m3);
    let c3 = span_cover(c2, m3);
    lemma_encloses_trans(c3, c2, m0);
    lemma_encloses_trans(c3, c2, m1);
    lemma_encloses_trans(c3, c2, m2);
    assert(sp_loop_body(x) == c3);
}

/// The span of every `IterationRange` covers the span of each of its fields, where those
/// are well formed and lie in one frame.
pub proof fn law_iteration_range_span_encloses_fields(x: IterationRange)
    requires
        spans_agree(seq![
            match x.in_keyword { Some(t) => model_span(t.raw_model()), None => Span::Detached },
            match x.iterated_collection { Some(e) => sp_expr(*e), None => Span::Detached },
            match x.from_keyword { Some(t) => model_span(t.raw_model()), None => Span::Detached },
            match x.range_start { Some(e) => sp_expr(*e), None => Span::Detached },
            match x.to_keyword { Some(t) => model_span(t.raw_model()), None => Span::Detached },
            match x.range_end { Some(e) => sp_expr(*e), None => Span::Detached },
        ]),
    ensures
        encloses(sp_iteration_range(x), match x.in_keyword { Some(t) => model_span(t.raw_model()), None => Span::Detached }),
        encloses(sp_iteration_range(x), match x.iterated_collection { Some(e) => sp_expr(*e), None => Span::Detached }),
        encloses(sp_iteration_range(x), match x.from_keyword { Some(t) => model_span(t.raw_model()), None => Span::Detached }),
        encloses(sp_iteration_range(x), match x.range_start { Some(e) => sp_expr(*e), None => Span::Detached }),
        encloses(sp_iteration_range(x), match x.to_keyword { Some(t) => model_span(t.raw_model()), None => Span::Detached }),
        encloses(sp_iteration_range(x), match x.range_end { Some(e) => sp_expr(*e), None => Span::Detached }),
{
    let m0 = match x.in_keyword { Some(t) => model_span(t.raw_model()), None => Span::Detached };
    let m1 = match x.iterated_collection { Some(e) => sp_expr(*e), None => Span::Detached };
    let m2 = match x.from_keyword { Some(t) => model_span(t.raw_model()), None => Span::Detached };
    let m3 = match x.range_start { Some(e) => sp_expr(*e), None => Span::Detached };
    let m4 = match x.to_keyword { Some(t) => model_span(t.raw_model()), None => Span::Detached };
    let m5 = match x.range_end { Some(e) => sp_expr(*e), None => Span::Detached };
    let s = seq![m0, m1, m2, m3, m4, m5];
    assert(s[0] == m0);
    assert(s[1] == m1);
    assert(s[2] == m2);
    assert(s[3] == m3);
    assert(s[4] == m4);
    assert(s[5] == m5);
    lemma_cover_encloses(m0, m1);
    let c1 = span_cover(m0, m1);
    lemma_cover_encloses(c1, m2);
    let c2 = span_cover(c1, m2);
    lemma_encloses_trans(c2, c1, m0);
    lemma_encloses_trans(c2, c1, m1);
    lemma_cover_encloses(c2, m3);
    let c3 = span_cover(c2, m3);
    lemma_encloses_trans(c3, c2, m0);
    lemma_encloses_trans(c3, c2, m1);
    lemma_encloses_trans(c3, c2, m2);
    lemma_cover_encloses(c3, m4);
    let c4 = span_cover(c3, m4);
    lemma_encloses_trans(c4, c3, m0);
    lemma_encloses_trans(c4, c3, m1);
    lemma_encloses_trans(c4, c3, m2);
    lemma_encloses_trans(c4, c3, m3);
    lemma_cover_encloses(c4, m5);
    let c5 = span_cover(c4, m5);
    lemma_encloses_trans(c5, c4, m0);
    lemma_encloses_trans(c5, c4, m1);
    lemma_encloses_trans(c5, c4, m2);
    lemma_encloses_trans(c5, c4, m3);
    lemma_encloses_trans(c5, c4, m4);
    assert(sp_iteration_range(x) == c5);
}

/// The span of every `ForLoop` covers the span of each of its fields, where those
/// are well formed and lie in one frame.
pub proof fn law_for_loop_span_encloses_fields(x: ForLoop)
    requires
        spans_agree(seq![
            model_span(x.keyword.raw_model()),
            sp_symbol(x.variable),
            match x.range { Some(v) => sp_iteration_range(*v), None => Span::Detached },
            match x.when_keyword { Some(t) => model_span(t.raw_model()), None => Span::Detached },
            match x.filter { Some(e) => sp_expr(*e), None => Span::Detached },
            sp_loop_body(x.body),
        ]),
    ensures
        encloses(sp_for_loop(x), model_span(x.keyword.raw_model())),
        encloses(sp_for_loop(x), sp_symbol(x.variable)),
        encloses(sp_for_loop(x), match x.range { Some(v) => sp_iteration_range(*v), None => Span::Detached }),
        encloses(sp_for_loop(x), match x.when_keyword { Some(t) => model_span(t.raw_model()), None => Span::Detached }),
        encloses(sp_for_loop(x), match x.filter { Some(e) => sp_expr(*e), None => Span::Detached }),
        encloses(sp_for_loop(x), sp_loop_body(x.body)),
{
    let m0 = model_span(x.keyword.raw_model());
    let m1 = sp_symbol(x.variable);
    let m2 = match x.range { Some(v) => sp_iteration_range(*v), None => Span::Detached };
    let m3 = match x.when_keyword { Some(t) => model_span(t.raw_model()), None => Span::Detached };
    let m4 = match x.filter { Some(e) => sp_expr(*e), None => Span::Detached };
    let m5 = sp_loop_body(x.body);
    let s = seq![m0, m1, m2, m3, m4, m5];
    assert(s[0] == m0);
    assert(s[1] == m1);
    assert(s[2] == m2);
    assert(s[3] == m3);
    assert(s[4] == m4);
    assert(s[5] == m5);
    lemma_cover_encloses(m0, m1);
    let c1 = span_cover(m0, m1);
    lemma_cover_encloses(c1, m2);
    let c2 = span_cover(c1, m2);
    lemma_encloses_trans(c2, c1, m0);
    lemma_encloses_trans(c2, c1, m1);
    lemma_cover_encloses(c2, m3);
    let c3 = span_cover(c2, m3);
    lemma_encloses_trans(c3, c2, m0);
    lemma_encloses_trans(c3, c2, m1);
    lemma_encloses_trans(c3, c2, m2);
    lemma_cover_encloses(c3, m4);
    let c4 = span_cover(c3, m4);
    lemma_encloses_trans(c4, c3, m0);
    lemma_encloses_trans(c4, c3, m1);
    lemma_encloses_trans(c4, c3, m2);
    lemma_encloses_trans(c4, c3, m3);
    lemma_cover_encloses(c4, m5);
    let c5 = span_cover(c4, m5);
    lemma_encloses_trans(c5, c4, m0);
    lemma_encloses_trans(c5, c4, m1);
    lemma_encloses_trans(c5, c4, m2);
    lemma_encloses_trans(c5, c4, m3);
    lemma_encloses_trans(c5, c4, m4);
    assert(sp_for_loop(x) == c5);
}

/// The span of every `WhileLoop` covers the span of each of its fields, where those
/// are well formed and lie in one frame.
pub proof fn law_while_loop_span_encloses_fields(x: WhileLoop)
    requires
        spans_agree(seq![
            model_span(x.keyword.raw_model()),
            sp_expr(*x.condition),
            sp_loop_body(x.body),
        ]),
    ensures
        encloses(sp_while_loop(x), model_span(x.keyword.raw_model())),
        encloses(sp_while_loop(x), sp_expr(*x.condition)),
        encloses(sp_while_loop(x), sp_loop_body(x.body)),
{
    let m0 = model_span(x.keyword.raw_model());
    let m1 = sp_expr(*x.condition);
    let m2 = sp_loop_body(x.body);
    let s = seq![m0, m1, m2];
    assert(s[0] == m0);
    assert(s[1] == m1);
    assert(s[2] == m2);
    lemma_cover_encloses(m0, m1);
    let c1 = span_cover(m0, m1);
    lemma_cover_encloses(c1, m2);
    let c2 = span_cover(c1, m2);
    lemma_encloses_trans(c2, c1, m0);
    lemma_encloses_trans(c2, c1, m1);
    assert(sp_while_loop(x) == c2);
}

/// The span of every `NewStatement` covers the span of each of its fields, where those
/// are well formed and lie in one frame.
pub proof fn law_new_statement_span_encloses_fields(x: NewStatement)
    requires
        spans_agree(seq![
            model_span(x.keyword.raw_model()),
            sp_expr(*x.class),
            match x.of_keyword { Some(t) => model_span(t.raw_model()), None => Span::Detached },
            match x.parent { Some(e) => sp_expr(*e), None => Span::Detached },
            match x.from_keyword { Some(t) => model_span(t.raw_model()), None => Span::Detached },
            match x.instance { Some(e) => sp_expr(*e), None => Span::Detached },
        ]),
    ensures
        encloses(sp_new_statement(x), model_span(x.keyword.raw_model())),
        encloses(sp_new_statement(x), sp_expr(*x.class)),
        encloses(sp_new_statement(x), match x.of_keyword { Some(t) => model_span(t.raw_model()), None => Span::Detached }),
        encloses(sp_new_statement(x), match x.parent { Some(e) => sp_expr(*e), None => Span::Detached }),
        encloses(sp_new_statement(x), match x.from_keyword { Some(t) => model_span(t.raw_model()), None => Span::Detached }),
        encloses(sp_new_statement(x), match x.instance { Some(e) => sp_expr(*e), None => Span::Detached }),
{
    let m0 = model_span(x.keyword.raw_model());
    let m1 = sp_expr(*x.class);
    let m2 = match x.of_keyword { Some(t) => model_span(t.raw_model()), None => Span::Detached };
    let m3 = match x.parent { Some(e) => sp_expr(*e), None => Span::Detached };
    let m4 = match x.from_keyword { Some(t) => model_span(t.raw_model()), None => Span::Detached };
    let m5 = match x.instance { Some(e) => sp_expr(*e), None => Span::Detached };
    let s = seq![m0, m1, m2, m3, m4, m5];
    assert(s[0] == m0);
    assert(s[1] == m1);
    assert(s[2] == m2);
    assert(s[3] == m3);
    assert(s[4] == m4);
    assert(s[5] == m5);
    lemma_cover_encloses(m0, m1);
    let c1 = span_cover(m0, m1);
    lemma_cover_encloses(c1, m2);
    let c2 = span_cover(c1, m2);
    lemma_encloses_trans(c2, c1, m0);
    lemma_encloses_trans(c2, c1, m1);
    lemma_cover_encloses(c2, m3);
    let c3 = span_cover(c2, m3);
    lemma_encloses_trans(c3, c2, m0);
    lemma_encloses_trans(c3, c2, m1);
    lemma_encloses_trans(c3, c2, m2);
    lemma_cover_encloses(c3, m4);
    let c4 = span_cover(c3, m4);
    lemma_encloses_trans(c4, c3, m0);
    lemma_encloses_trans(c4, c3, m1);
    lemma_encloses_trans(c4, c3, m2);
    lemma_encloses_trans(c4, c3, m3);
    lemma_cover_encloses(c4, m5);
    let c5 = span_cover(c4, m5);
    lemma_encloses_trans(c5, c4, m0);
    lemma_encloses_trans(c5, c4, m1);
    lemma_encloses_trans(c5, c4, m2);
    lemma_encloses_trans(c5, c4, m3);
    lemma_encloses_trans(c5, c4, m4);
    assert(sp_new_statement(x) == c5);
}

/// The span of every `DebugClause` covers the span of each of its fields, where those
/// are well formed and lie in one frame.
pub proof fn law_debug_clause_span_encloses_fields(x: DebugClause)
    requires
        spans_agree(seq![
            sp_debug_keyword(x.keyword),
            match x.value { Some(e) => sp_expr(*e), None => Span::Detached },
        ]),
    ensures
        encloses(sp_debug_clause(x), sp_debug_keyword(x.keyword)),
        encloses(sp_debug_clause(x), match x.value { Some(e) => sp_expr(*e), None => Span::Detached }),
{
    let m0 = sp_debug_keyword(x.keyword);
    let m1 = match x.value { Some(e) => sp_expr(*e), None => Span::Detached };
    let s = seq![m0, m1];
    assert(s[0] == m0);
    assert(s[1] == m1);
    lemma_cover_encloses(m0, m1);
    let c1 = span_cover(m0, m1);
    assert(sp_debug_clause(x) == c1);
}

/// The span of every `BreakStatement` covers the span of each of its fields, where those
/// are well formed and lie in one frame.
pub proof fn law_break_statement_span_encloses_fields(x: BreakStatement)
    requires
        spans_agree(seq![
            model_span(x.keyword.raw_model()),
            match x.value { Some(e) => sp_expr(*e), None => Span::Detached },
        ]),
    ensures
        encloses(sp_break_statement(x), model_span(x.keyword.raw_model())),
        encloses(sp_break_statement(x), match x.value { Some(e) => sp_expr(*e), None => Span::Detached }),
{
    let m0 = model_span(x.keyword.raw_model());
    let m1 = match x.value { Some(e) => sp_expr(*e), None => Span::Detached };
    let s = seq![m0, m1];
    assert(s[0] == m0);
    assert(s[1] == m1);
    lemma_cover_encloses(m0, m1);
    let c1 = span_cover(m0, m1);
    assert(sp_break_statement(x) == c1);
}

/// The span of every `ContinueStatement` covers the span of each of its fields, where those
/// are well formed and lie in one frame.
pub proof fn law_continue_statement_span_encloses_fields(x: ContinueStatement)
    requires
        spans_agree(seq![
            model_span(x.keyword.raw_model()),
            match x.value { Some(e) => sp_expr(*e), None => Span::Detached },
        ]),
    ensures
        encloses(sp_continue_statement(x), model_span(x.keyword.raw_model())),
        encloses(sp_continue_statement(x), match x.value { Some(e) => sp_expr(*e), None => Span::Detached }),
{
    let m0 = model_span(x.keyword.raw_model());
    let m1 = match x.value { Some(e) => sp_expr(*e), None => Span::Detached };
    let s = seq![m0, m1];
    assert(s[0] == m0);
    assert(s[1] == m1);
    lemma_cover_encloses(m0, m1);
    let c1 = span_cover(m0, m1);
    assert(sp_continue_statement(x) == c1);
}

/// The span of every `ReturnStatement` covers the span of each of its fields, where those
/// are well formed and lie in one frame.
pub proof fn law_return_statement_span_encloses_fields(x: ReturnStatement)
    requires
        spans_agree(seq![
            model_span(x.keyword.raw_model()),
            match x.value { Some(e) => sp_expr(*e), None => Span::Detached },
        ]),
    ensures
        encloses(sp_return_statement(x), model_span(x.keyword.raw_model())),
        encloses(sp_return_statement(x), match x.value { Some(e) => sp_expr(*e), None => Span::Detached }),
{
    let m0 = model_span(x.keyword.raw_model());
    let m1 = match x.value { Some(e) => sp_expr(*e), None => Span::Detached };
    let s = seq![m0, m1];
    assert(s[0] == m0);
    assert(s[1] == m1);
    lemma_cover_encloses(m0, m1);
    let c1 = span_cover(m0, m1);
    assert(sp_return_statement(x) == c1);
}

/// The span of every `CatchStatement` covers the span of each of its fields, where those
/// are well formed and lie in one frame.
pub proof fn law_catch_statement_span_encloses_fields(x: CatchStatement)
    requires
        spans_agree(seq![
            model_span(x.keyword.raw_model()),
            sp_expr(*x.value),
        ]),
    ensures
        encloses(sp_catch_statement(x), model_span(x.keyword.raw_model())),
        encloses(sp_catch_statement(x), sp_expr(*x.value)),
{
    let m0 = model_span(x.keyword.raw_model());
    let m1 = sp_expr(*x.value);
    let s = seq![m0, m1];
    assert(s[0] == m0);
    assert(s[1] == m1);
    lemma_cover_encloses(m0, m1);
    let c1 = span_cover(m0, m1);
    assert(sp_catch_statement(x) == c1);
}

/// The span of every `ThrowStatement` covers the span of each of its fields, where those
/// are well formed and lie in one frame.
pub proof fn law_throw_statement_span_encloses_fields(x: ThrowStatement)
    requires
        spans_agree(seq![
            model_span(x.keyword.raw_model()),
            sp_expr(*x.value),
        ]),
    ensures
        encloses(sp_throw_statement(x), model_span(x.keyword.raw_model())),
        encloses(sp_throw_statement(x), sp_expr(*x.value)),
{
    let m0 = model_span(x.keyword.raw_model());
    let m1 = sp_expr(*x.value);
    let s = seq![m0, m1];
    assert(s[0] == m0);
    assert(s[1] == m1);
    lemma_cover_encloses(m0, m1);
    let c1 = span_cover(m0, m1);
    assert(sp_throw_statement(x) == c1);
}

/// The span of every `TrapStatement` covers the span of each of its fields, where those
/// are well formed and lie in one frame.
pub proof fn law_trap_statement_span_encloses_fields(x: TrapStatement)
    requires
        spans_agree(seq![
            model_span(x.keyword.raw_model()),
            sp_expr(*x.value),
        ]),
    ensures
        encloses(sp_trap_statement(x), model_span(x.keyword.raw_model())),
        encloses(sp_trap_statement(x), sp_expr(*x.value)),
{
    let m0 = model_span(x.keyword.raw_model());
    let m1 = sp_expr(*x.value);
    let s = seq![m0, m1];
    assert(s[0] == m0);
    assert(s[1] == m1);
    lemma_cover_encloses(m0, m1);
    let c1 = span_cover(m0, m1);
    assert(sp_trap_statement(x) == c1);
}

/// The span of every `ExceptClause` covers the span of each of its fields, where those
/// are well formed and lie in one frame.
pub proof fn law_except_clause_span_encloses_fields(x: ExceptClause)
    requires
        spans_agree(seq![
            model_span(x.keyword.raw_model()),
            sp_symbol(x.exception),
            model_span(x.do_keyword.raw_model()),
            sp_expr(*x.value),
        ]),
    ensures
        encloses(sp_except_clause(x), model_span(x.keyword.raw_model())),
        encloses(sp_except_clause(x), sp_symbol(x.exception)),
        encloses(sp_except_clause(x), model_span(x.do_keyword.raw_model())),
        encloses(sp_except_clause(x), sp_expr(*x.value)),
{
    let m0 = model_span(x.keyword.raw_model());
    let m1 = sp_symbol(x.exception);
    let m2 = model_span(x.do_keyword.raw_model());
    let m3 = sp_expr(*x.value);
    let s = seq![m0, m1, m2, m3];
    assert(s[0] == m0);
    assert(s[1] == m1);
    assert(s[2] == m2);
    assert(s[3] == m3);
    lemma_cover_encloses(m0, m1);
    let c1 = span_cover(m0, m1);
    lemma_cover_encloses(c1, m2);
    let c2 = span_cover(c1, m2);
    lemma_encloses_trans(c2, c1, m0);
    lemma_encloses_trans(c2, c1, m1);
    lemma_cover_encloses(c2, m3);
    let c3 = span_cover(c2, m3);
    lemma_encloses_trans(c3, c2, m0);
    lemma_encloses_trans(c3, c2, m1);
    lemma_encloses_trans(c3, c2, m2);
    assert(sp_except_clause(x) == c3);
}

/// The span of every `TryStatement` covers the span of each of its fields, where those
/// are well formed and lie in one frame.
pub proof fn law_try_statement_span_encloses_fields(x: TryStatement)
    requires
        spans_agree(seq![
            model_span(x.keyword.raw_model()),
            sp_expr(*x.value),
            match x.then_clause { Some(v) => sp_then_clause(v), None => Span::Detached },
            match x.fallback { Some(v) => sp_try_fallback(*v), None => Span::Detached },
        ]),
    ensures
        encloses(sp_try_statement(x), model_span(x.keyword.raw_model())),
        encloses(sp_try_statement(x), sp_expr(*x.value)),
        encloses(sp_try_statement(x), match x.then_clause { Some(v) => sp_then_clause(v), None => Span::Detached }),
        encloses(sp_try_statement(x), match x.fallback { Some(v) => sp_try_fallback(*v), None => Span::Detached }),
{
    let m0 = model_span(x.keyword.raw_model());
    let m1 = sp_expr(*x.value);
    let m2 = match x.then_clause { Some(v) => sp_then_clause(v), None => Span::Detached };
    let m3 = match x.fallback { Some(v) => sp_try_fallback(*v), None => Span::Detached };
    let s = seq![m0, m1, m2, m3];
    assert(s[0] == m0);
    assert(s[1] == m1);
    assert(s[2] == m2);
    assert(s[3] == m3);
    lemma_cover_encloses(m0, m1);
    let c1 = span_cover(m0, m1);
    lemma_cover_encloses(c1, m2);
    let c2 = span_cover(c1, m2);
    lemma_encloses_trans(c2, c1, m0);
    lemma_encloses_trans(c2, c1, m1);
    lemma_cover_encloses(c2, m3);
    let c3 = span_cover(c2, m3);
    lemma_encloses_trans(c3, c2, m0);
    lemma_encloses_trans(c3, c2, m1);
    lemma_encloses_trans(c3, c2, m2);
    assert(sp_try_statement(x) == c3);
}

/// The span of every `QuoteExpression` covers the span of each of its fields, where those
/// are well formed and lie in one frame.
pub proof fn law_quote_expression_span_encloses_fields(x: QuoteExpression)
    requires
        spans_agree(seq![
            sp_quote_specifier(x.specifier),
            sp_symbol(x.token),
        ]),
    ensures
        encloses(sp_quote_expression(x), sp_quote_specifier(x.specifier)),
        encloses(sp_quote_expression(x), sp_symbol(x.token)),
{
    let m0 = sp_quote_specifier(x.specifier);
    let m1 = sp_symbol(x.token);
    let s = seq![m0, m1];
    assert(s[0] == m0);
    assert(s[1] == m1);
    lemma_cover_encloses(m0, m1);
    let c1 = span_cover(m0, m1);
    assert(sp_quote_expression(x) == c1);
}

/// The span of every `AnyCell` is the span of the variant it holds.
pub proof fn law_any_cell_span_encloses_variant(x: AnyCell)
    ensures
        x matches AnyCell::ExpressionCell(v) ==> encloses(sp_any_cell(x), sp_expression_cell(v)),
        x matches AnyCell::SequenceCell(v) ==> encloses(sp_any_cell(x), sp_sequence_cell(v)),
        x matches AnyCell::MutedCell(v) ==> encloses(sp_any_cell(x), sp_muted_cell(v)),
{
    match x {
        AnyCell::ExpressionCell(v) => lemma_encloses_refl(sp_expression_cell(v)),
        AnyCell::SequenceCell(v) => lemma_encloses_refl(sp_sequence_cell(v)),
        AnyCell::MutedCell(v) => lemma_encloses_refl(sp_muted_cell(v)),
    }
}

/// The span of every `Component` is the span of the variant it holds.
pub proof fn law_component_span_encloses_variant(x: Component)
    ensures
        x matches Component::EmptyComponent(v) ==> encloses(sp_component(x), sp_empty_component(v)),
        x matches Component::Expr(v) ==> encloses(sp_component(x), sp_expr(v)),
{
    match x {
        Component::EmptyComponent(v) => lemma_encloses_refl(sp_empty_component(v)),
        Component::Expr(v) => lemma_encloses_refl(sp_expr(v)),
    }
}

/// The span of every `SequenceElement` is the span of the variant it holds.
pub proof fn law_sequence_element_span_encloses_variant(x: SequenceElement)
    ensures
        x matches SequenceElement::Component(v) ==> encloses(sp_sequence_element(x), sp_component(v)),
        x matches SequenceElement::MutedGroup(v) ==> encloses(sp_sequence_element(x), sp_muted_group(v)),
{
    match x {
        SequenceElement::Component(v) => lemma_encloses_refl(sp_component(v)),
        SequenceElement::MutedGroup(v) => lemma_encloses_refl(sp_muted_group(v)),
    }
}

/// The span of every `StringElement` is the span of the variant it holds.
pub proof fn law_string_element_span_encloses_variant(x: StringElement)
    ensures
        x matches StringElement::EscapeSequence(v) ==> encloses(sp_string_element(x), sp_escape_sequence(v)),
        x matches StringElement::StringContent(v) ==> encloses(sp_string_element(x), sp_string_content(v)),
{
    match x {
        StringElement::EscapeSequence(v) => lemma_encloses_refl(sp_escape_sequence(v)),
        StringElement::StringContent(v) => lemma_encloses_refl(sp_string_content(v)),
    }
}

/// The span of every `RawStringElement` is the span of the variant it holds.
pub proof fn law_raw_string_element_span_encloses_variant(x: RawStringElement)
    ensures
        x matches RawStringElement::EscapeSequence(v) ==> encloses(sp_raw_string_element(x), sp_escape_sequence(v)),
        x matches RawStringElement::RawStringContent(v) ==> encloses(sp_raw_string_element(x), sp_raw_string_content(v)),
{
    match x {
        RawStringElement::EscapeSequence(v) => lemma_encloses_refl(sp_escape_sequence(v)),
        RawStringElement::RawStringContent(v) => lemma_encloses_refl(sp_raw_string_content(v)),
    }
}

/// The span of every `Collection` is the span of the variant it holds.
pub proof fn law_collection_span_encloses_variant(x: Collection)
    ensures
        x matches Collection::ParenthesizedExpression(v) ==> encloses(sp_collection(x), sp_parenthesized_expression(v)),
        x matches Collection::Sequence(v) ==> encloses(sp_collection(x), sp_sequence(v)),
        x matches Collection::List(v) ==> encloses(sp_collection(x), sp_list(v)),
        x matches Collection::Array(v) ==> encloses(sp_collection(x), sp_array(v)),
        x matches Collection::AngleBarList(v) ==> encloses(sp_collection(x), sp_angle_bar_list(v)),
{
    match x {
        Collection::ParenthesizedExpression(v) => lemma_encloses_refl(sp_parenthesized_expression(v)),
        Collection::Sequence(v) => lemma_encloses_refl(sp_sequence(v)),
        Collection::List(v) => lemma_encloses_refl(sp_list(v)),
        Collection::Array(v) => lemma_encloses_refl(sp_array(v)),
        Collection::AngleBarList(v) => lemma_encloses_refl(sp_angle_bar_list(v)),
    }
}

/// The span of every `BindingPack` is the span of the variant it holds.
pub proof fn law_binding_pack_span_encloses_variant(x: BindingPack)
    ensures
        x matches BindingPack::ParenthesizedExpression(v) ==> encloses(sp_binding_pack(x), sp_parenthesized_expression(v)),
        x matches BindingPack::Sequence(v) ==> encloses(sp_binding_pack(x), sp_sequence(v)),
        x matches BindingPack::List(v) ==> encloses(sp_binding_pack(x), sp_list(v)),
        x matches BindingPack::Array(v) ==> encloses(sp_binding_pack(x), sp_array(v)),
        x matches BindingPack::AngleBarList(v) ==> encloses(sp_binding_pack(x), sp_angle_bar_list(v)),
{
    match x {
        BindingPack::ParenthesizedExpression(v) => lemma_encloses_refl(sp_parenthesized_expression(v)),
        BindingPack::Sequence(v) => lemma_encloses_refl(sp_sequence(v)),
        BindingPack::List(v) => lemma_encloses_refl(sp_list(v)),
        BindingPack::Array(v) => lemma_encloses_refl(sp_array(v)),
        BindingPack::AngleBarList(v) => lemma_encloses_refl(sp_angle_bar_list(v)),
    }
}

/// The span of every `LambdaParameters` is the span of the variant it holds.
pub proof fn law_lambda_parameters_span_encloses_variant(x: LambdaParameters)
    ensures
        x matches LambdaParameters::Symbol(v) ==> encloses(sp_lambda_parameters(x), sp_symbol(v)),
        x matches LambdaParameters::ParenthesizedExpression(v) ==> encloses(sp_lambda_parameters(x), sp_parenthesized_expression(v)),
        x matches LambdaParameters::Sequence(v) ==> encloses(sp_lambda_parameters(x), sp_sequence(v)),
        x matches LambdaParameters::List(v) ==> encloses(sp_lambda_parameters(x), sp_list(v)),
        x matches LambdaParameters::Array(v) ==> encloses(sp_lambda_parameters(x), sp_array(v)),
        x matches LambdaParameters::AngleBarList(v) ==> encloses(sp_lambda_parameters(x), sp_angle_bar_list(v)),
{
    match x {
        LambdaParameters::Symbol(v) => lemma_encloses_refl(sp_symbol(v)),
        LambdaParameters::ParenthesizedExpression(v) => lemma_encloses_refl(sp_parenthesized_expression(v)),
        LambdaParameters::Sequence(v) => lemma_encloses_refl(sp_sequence(v)),
        LambdaParameters::List(v) => lemma_encloses_refl(sp_list(v)),
        LambdaParameters::Array(v) => lemma_encloses_refl(sp_array(v)),
        LambdaParameters::AngleBarList(v) => lemma_encloses_refl(sp_angle_bar_list(v)),
    }
}

/// The span of every `TryFallback` is the span of the variant it holds.
pub proof fn law_try_fallback_span_encloses_variant(x: TryFallback)
    ensures
        x matches TryFallback::ExceptClause(v) ==> encloses(sp_try_fallback(x), sp_except_clause(v)),
        x matches TryFallback::ElseClause(v) ==> encloses(sp_try_fallback(x), sp_else_clause(v)),
{
    match x {
        TryFallback::ExceptClause(v) => lemma_encloses_refl(sp_except_clause(v)),
        TryFallback::ElseClause(v) => lemma_encloses_refl(sp_else_clause(v)),
    }
}

/// The span of every `OperatorExpr` is the span of the variant it holds.
pub proof fn law_operator_expr_span_encloses_variant(x: OperatorExpr)
    ensures
        x matches OperatorExpr::AdjacentExpression(v) ==> encloses(sp_operator_expr(x), sp_adjacent_expression(v)),
        x matches OperatorExpr::BinaryExpression(v) ==> encloses(sp_operator_expr(x), sp_binary_expression(v)),
        x matches OperatorExpr::PrefixExpression(v) ==> encloses(sp_operator_expr(x), sp_prefix_expression(v)),
        x matches OperatorExpr::PostfixExpression(v) ==> encloses(sp_operator_expr(x), sp_postfix_expression(v)),
{
    match x {
        OperatorExpr::AdjacentExpression(v) => lemma_encloses_refl(sp_adjacent_expression(v)),
        OperatorExpr::BinaryExpression(v) => lemma_encloses_refl(sp_binary_expression(v)),
        OperatorExpr::PrefixExpression(v) => lemma_encloses_refl(sp_prefix_expression(v)),
        OperatorExpr::PostfixExpression(v) => lemma_encloses_refl(sp_postfix_expression(v)),
    }
}

/// The span of every `AssignmentExpr` is the span of the variant it holds.
pub proof fn law_assignment_expr_span_encloses_variant(x: AssignmentExpr)
    ensures
        x matches AssignmentExpr::Assignment(v) ==> encloses(sp_assignment_expr(x), sp_assignment(v)),
        x matches AssignmentExpr::LocalAssignment(v) ==> encloses(sp_assignment_expr(x), sp_local_assignment(v)),
        x matches AssignmentExpr::BinaryAssignment(v) ==> encloses(sp_assignment_expr(x), sp_binary_assignment(v)),
        x matches AssignmentExpr::BinaryInstallation(v) ==> encloses(sp_assignment_expr(x), sp_binary_installation(v)),
        x matches AssignmentExpr::PrefixAssignment(v) ==> encloses(sp_assignment_expr(x), sp_prefix_assignment(v)),
        x matches AssignmentExpr::PrefixInstallation(v) ==> encloses(sp_assignment_expr(x), sp_prefix_installation(v)),
        x matches AssignmentExpr::PostfixAssignment(v) ==> encloses(sp_assignment_expr(x), sp_postfix_assignment(v)),
        x matches AssignmentExpr::PostfixInstallation(v) ==> encloses(sp_assignment_expr(x), sp_postfix_installation(v)),
        x matches AssignmentExpr::StructuredBinding(v) ==> encloses(sp_assignment_expr(x), sp_structured_binding(v)),
        x matches AssignmentExpr::LocalStructuredBinding(v) ==> encloses(sp_assignment_expr(x), sp_local_structured_binding(v)),
        x matches AssignmentExpr::EvaluatedAssignment(v) ==> encloses(sp_assignment_expr(x), sp_evaluated_assignment(v)),
{
    match x {
        AssignmentExpr::Assignment(v) => lemma_encloses_refl(sp_assignment(v)),
        AssignmentExpr::LocalAssignment(v) => lemma_encloses_refl(sp_local_assignment(v)),
        AssignmentExpr::BinaryAssignment(v) => lemma_encloses_refl(sp_binary_assignment(v)),
        AssignmentExpr::BinaryInstallation(v) => lemma_encloses_refl(sp_binary_installation(v)),
        AssignmentExpr::PrefixAssignment(v) => lemma_encloses_refl(sp_prefix_assignment(v)),
        AssignmentExpr::PrefixInstallation(v) => lemma_encloses_refl(sp_prefix_installation(v)),
        AssignmentExpr::PostfixAssignment(v) => lemma_encloses_refl(sp_postfix_assignment(v)),
        AssignmentExpr::PostfixInstallation(v) => lemma_encloses_refl(sp_postfix_installation(v)),
        AssignmentExpr::StructuredBinding(v) => lemma_encloses_refl(sp_structured_binding(v)),
        AssignmentExpr::LocalStructuredBinding(v) => lemma_encloses_refl(sp_local_structured_binding(v)),
        AssignmentExpr::EvaluatedAssignment(v) => lemma_encloses_refl(sp_evaluated_assignment(v)),
    }
}

/// The span of every `Expr` is the span of the variant it holds.
pub proof fn law_expr_span_encloses_variant(x: Expr)
    ensures
        x matches Expr::Collection(v) ==> encloses(sp_expr(x), sp_collection(v)),
        x matches Expr::OperatorExpr(v) ==> encloses(sp_expr(x), sp_operator_expr(v)),
        x matches Expr::AssignmentExpr(v) ==> encloses(sp_expr(x), sp_assignment_expr(v)),
        x matches Expr::OptionExpression(v) ==> encloses(sp_expr(x), sp_option_expression(v)),
        x matches Expr::LambdaExpression(v) ==> encloses(sp_expr(x), sp_lambda_expression(v)),
        x matches Expr::IfStatement(v) ==> encloses(sp_expr(x), sp_if_statement(v)),
        x matches Expr::ForLoop(v) ==> encloses(sp_expr(x), sp_for_loop(v)),
        x matches Expr::WhileLoop(v) ==> encloses(sp_expr(x), sp_while_loop(v)),
        x matches Expr::TryStatement(v) ==> encloses(sp_expr(x), sp_try_statement(v)),
        x matches Expr::QuoteExpression(v) ==> encloses(sp_expr(x), sp_quote_expression(v)),
        x matches Expr::NewStatement(v) ==> encloses(sp_expr(x), sp_new_statement(v)),
        x matches Expr::BreakStatement(v) ==> encloses(sp_expr(x), sp_break_statement(v)),
        x matches Expr::ContinueStatement(v) ==> encloses(sp_expr(x), sp_continue_statement(v)),
        x matches Expr::ReturnStatement(v) ==> encloses(sp_expr(x), sp_return_statement(v)),
        x matches Expr::CatchStatement(v) ==> encloses(sp_expr(x), sp_catch_statement(v)),
        x matches Expr::ThrowStatement(v) ==> encloses(sp_expr(x), sp_throw_statement(v)),
        x matches Expr::TrapStatement(v) ==> encloses(sp_expr(x), sp_trap_statement(v)),
        x matches Expr::DebugClause(v) ==> encloses(sp_expr(x), sp_debug_clause(v)),
        x matches Expr::FloatLiteral(v) ==> encloses(sp_expr(x), sp_float_literal(v)),
        x matches Expr::IntegerLiteral(v) ==> encloses(sp_expr(x), sp_integer_literal(v)),
        x matches Expr::RawStringLiteral(v) ==> encloses(sp_expr(x), sp_raw_string_literal(v)),
        x matches Expr::StringLiteral(v) ==> encloses(sp_expr(x), sp_string_literal(v)),
        x matches Expr::Symbol(v) ==> encloses(sp_expr(x), sp_symbol(v)),
{
    match x {
        Expr::Collection(v) => lemma_encloses_refl(sp_collection(v)),
        Expr::OperatorExpr(v) => lemma_encloses_refl(sp_operator_expr(v)),
        Expr::AssignmentExpr(v) => lemma_encloses_refl(sp_assignment_expr(v)),
        Expr::OptionExpression(v) => lemma_encloses_refl(sp_option_expression(v)),
        Expr::LambdaExpression(v) => lemma_encloses_refl(sp_lambda_expression(v)),
        Expr::IfStatement(v) => lemma_encloses_refl(sp_if_statement(v)),
        Expr::ForLoop(v) => lemma_encloses_refl(sp_for_loop(v)),
        Expr::WhileLoop(v) => lemma_encloses_refl(sp_while_loop(v)),
        Expr::TryStatement(v) => lemma_encloses_refl(sp_try_statement(v)),
        Expr::QuoteExpression(v) => lemma_encloses_refl(sp_quote_expression(v)),
        Expr::NewStatement(v) => lemma_encloses_refl(sp_new_statement(v)),
        Expr::BreakStatement(v) => lemma_encloses_refl(sp_break_statement(v)),
        Expr::ContinueStatement(v) => lemma_encloses_refl(sp_continue_statement(v)),
        Expr::ReturnStatement(v) => lemma_encloses_refl(sp_return_statement(v)),
        Expr::CatchStatement(v) => lemma_encloses_refl(sp_catch_statement(v)),
        Expr::ThrowStatement(v) => lemma_encloses_refl(sp_throw_statement(v)),
        Expr::TrapStatement(v) => lemma_encloses_refl(sp_trap_statement(v)),
        Expr::DebugClause(v) => lemma_encloses_refl(sp_debug_clause(v)),
        Expr::FloatLiteral(v) => lemma_encloses_refl(sp_float_literal(v)),
        Expr::IntegerLiteral(v) => lemma_encloses_refl(sp_integer_literal(v)),
        Expr::RawStringLiteral(v) => lemma_encloses_refl(sp_raw_string_literal(v)),
        Expr::StringLiteral(v) => lemma_encloses_refl(sp_string_literal(v)),
        Expr::Symbol(v) => lemma_encloses_refl(sp_symbol(v)),
    }
}

/// The span of every `SyntaxNode` is the span of the variant it holds.
pub proof fn law_syntax_node_span_encloses_variant(x: SyntaxNode)
    ensures
        x matches SyntaxNode::SourceFile(v) ==> encloses(sp_syntax_node(x), sp_source_file(v)),
        x matches SyntaxNode::AnyCell(v) ==> encloses(sp_syntax_node(x), sp_any_cell(v)),
        x matches SyntaxNode::Expr(v) ==> encloses(sp_syntax_node(x), sp_expr(v)),
{
    match x {
        SyntaxNode::SourceFile(v) => lemma_encloses_refl(sp_source_file(v)),
        SyntaxNode::AnyCell(v) => lemma_encloses_refl(sp_any_cell(v)),
        SyntaxNode::Expr(v) => lemma_encloses_refl(sp_expr(v)),
    }
}

} // verus!
