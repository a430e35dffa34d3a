//! The significant texts of token sequences.
//!
//! The lexemes of a token sequence are the texts of its significant tokens in
//! order: trivia and end-of-input markers have none, a group contributes its
//! opening text, the lexemes of its contents and its closing text, and an
//! empty text contributes nothing. Emission may add or drop trivia freely,
//! so two sequences with the same lexemes differ at most in layout.
use vstd::prelude::*;

use crate::delim::{closing_text, opening_text, surround_tokens, Delimiter, DelimiterKind};
use crate::nodes::{
    AdjacentExpression, AngleBarList, AnyCell, Array, Assignment, BinaryAssignment, BinaryExpression, BinaryInstallation, BreakStatement, CatchStatement, Component, ContinueStatement, DebugClause, ElseClause, EvaluatedAssignment, ExceptClause, ExpressionCell, ForLoop, IfStatement, IterationRange, LambdaExpression, List, LocalAssignment, LocalStructuredBinding, LoopBody, MutedCell, MutedGroup, NakedSequence, NewStatement, OptionExpression, ParenthesizedExpression, PostfixAssignment, PostfixExpression, PostfixInstallation, PrefixAssignment, PrefixExpression, PrefixInstallation, QuoteExpression, RawStringElement, ReturnStatement, Sequence, SequenceCell, SourceFile, StringElement, StructuredBinding, ThenClause, ThrowStatement, TrapStatement, TryStatement, WhileLoop, detached_newline, detached_space, join_field, tk_adjacent_expression, tk_angle_bar_list, tk_any_cell, tk_array, tk_assignment, tk_binary_assignment, tk_binary_expression, tk_binary_installation, tk_binding_pack, tk_break_statement, tk_catch_statement, tk_component, tk_continue_statement, tk_debug_clause, tk_debug_keyword, tk_else_clause, tk_evaluated_assignment, tk_except_clause, tk_expr, tk_expression_cell, tk_for_loop, tk_if_statement, tk_iteration_range, tk_lambda_expression, tk_lambda_parameters, tk_list, tk_list_any_cell, tk_list_muted_group, tk_list_raw_string_element, tk_list_string_element, tk_local_assignment, tk_local_structured_binding, tk_loop_body, tk_muted_cell, tk_muted_group, tk_naked_sequence, tk_new_statement, tk_option_expression, tk_pairs, tk_parenthesized_expression, tk_postfix_assignment, tk_postfix_expression, tk_postfix_installation, tk_prefix_assignment, tk_prefix_expression, tk_prefix_installation, tk_punct, tk_quote_expression, tk_quote_specifier, tk_raw_string_element, tk_return_statement, tk_sequence, tk_sequence_cell, tk_source_file, tk_string_element, tk_structured_binding, tk_symbol, tk_then_clause, tk_throw_statement, tk_trap_statement, tk_try_fallback, tk_try_statement, tk_while_loop,
};
use crate::punct::Punctuated;
use crate::span::Spanned;
use crate::token_stream::{CellModel, LiteralKind, TokenModel};
use crate::tokens::_Cma;

verus! {

/// One lexeme for a nonempty text, none for an empty one.
pub open spec fn word(text: Seq<char>) -> Seq<Seq<char>> {
    if text.len() == 0 {
        seq![]
    } else {
        seq![text]
    }
}

/// The lexemes of one token.
pub open spec fn model_lexemes(m: TokenModel) -> Seq<Seq<char>>
    decreases m, 0int,
{
    match m {
        TokenModel::Group { delimiter, stream } => word(opening_text(delimiter.kind))
            + models_lexemes(stream) + word(closing_text(delimiter.kind)),
        TokenModel::Literal { text, .. } => word(text),
        TokenModel::Punct { text, .. } => word(text),
        TokenModel::Ident { text, .. } => word(text),
        TokenModel::Trivia { .. } => seq![],
        TokenModel::Eof { .. } => seq![],
    }
}

/// The lexemes of a token sequence, in order.
pub open spec fn models_lexemes(s: Seq<TokenModel>) -> Seq<Seq<char>>
    decreases s, 1int,
{
    if s.len() == 0 {
        seq![]
    } else {
        models_lexemes(s.subrange(0, s.len() - 1)) + model_lexemes(s[s.len() - 1])
    }
}

/// A string literal is framed by one double quote on each side, and a raw
/// string literal by three slashes on each side.
pub open spec fn literal_framed(kind: LiteralKind, text: Seq<char>) -> bool {
    match kind {
        LiteralKind::String => text.len() >= 2 && text[0] == '"' && text[text.len() - 1] == '"',
        LiteralKind::RawString => text.len() >= 6 && text.subrange(0, 3) == seq!['/', '/', '/']
            && text.subrange(text.len() - 3, text.len() as int) == seq!['/', '/', '/'],
        _ => true,
    }
}

/// Whether every string literal in a token, including those nested in groups, is framed.
pub open spec fn model_framed(m: TokenModel) -> bool
    decreases m, 0int,
{
    match m {
        TokenModel::Group { stream, .. } => models_framed(stream),
        TokenModel::Literal { kind, text, .. } => literal_framed(kind, text),
        _ => true,
    }
}

/// Whether every string literal in a token sequence is framed.
pub open spec fn models_framed(s: Seq<TokenModel>) -> bool
    decreases s, 1int,
{
    if s.len() == 0 {
        true
    } else {
        models_framed(s.subrange(0, s.len() - 1)) && model_framed(s[s.len() - 1])
    }
}

pub proof fn lemma_framed_index(s: Seq<TokenModel>, i: int)
    requires
        models_framed(s),
        0 <= i < s.len(),
    ensures
        model_framed(s[i]),
    decreases s.len(),
{
    if i < s.len() - 1 {
        lemma_framed_index(s.subrange(0, s.len() - 1), i);
    }
}

pub proof fn lemma_lexemes_push(s: Seq<TokenModel>, m: TokenModel)
    ensures
        models_lexemes(s.push(m)) == models_lexemes(s) + model_lexemes(m),
{
    let t = s.push(m);
    assert(t.subrange(0, t.len() - 1) =~= s);
    assert(t[t.len() - 1] == m);
    assert(models_lexemes(t) == models_lexemes(t.subrange(0, t.len() - 1)) + model_lexemes(t[t.len() - 1]));
}

pub proof fn lemma_lexemes_single(m: TokenModel)
    ensures
        models_lexemes(seq![m]) == model_lexemes(m),
{
    lemma_lexemes_push(Seq::<TokenModel>::empty(), m);
    assert(Seq::<TokenModel>::empty().push(m) =~= seq![m]);
    assert(models_lexemes(Seq::<TokenModel>::empty()) =~= Seq::<Seq<char>>::empty());
    assert(Seq::<Seq<char>>::empty() + model_lexemes(m) =~= model_lexemes(m));
}

/// Lexemes distribute over concatenation.
pub proof fn lemma_lexemes_append(a: Seq<TokenModel>, b: Seq<TokenModel>)
    ensures
        models_lexemes(a + b) == models_lexemes(a) + models_lexemes(b),
    decreases b.len(),
{
    if b.len() == 0 {
        assert(a + b =~= a);
        assert(models_lexemes(a) + models_lexemes(b) =~= models_lexemes(a));
    } else {
        let b0 = b.subrange(0, b.len() - 1);
        lemma_lexemes_append(a, b0);
        assert((a + b).subrange(0, (a + b).len() - 1) =~= a + b0);
        assert((a + b)[(a + b).len() - 1] == b[b.len() - 1]);
        assert(models_lexemes(a) + models_lexemes(b) =~= (models_lexemes(a) + models_lexemes(b0))
            + model_lexemes(b[b.len() - 1]));
    }
}

/// Joining a field adds at most a space, which has no lexeme.
pub proof fn lemma_lexemes_join_field(contents: Seq<TokenModel>, field: Seq<TokenModel>)
    ensures
        models_lexemes(join_field(contents, field)) == models_lexemes(contents) + models_lexemes(field),
{
    if field.len() == 0 {
        assert(models_lexemes(contents) + models_lexemes(field) =~= models_lexemes(contents));
    } else if contents.len() > 0 && !(contents.last() is Trivia) && !(field[0] is Trivia) {
        lemma_lexemes_push(contents, detached_space());
        lemma_lexemes_append(contents.push(detached_space()), field);
        assert(models_lexemes(contents.push(detached_space())) =~= models_lexemes(contents));
    } else {
        lemma_lexemes_append(contents, field);
    }
}

/// Surrounding contents adds the delimiter's opening and closing texts.
pub proof fn lemma_lexemes_surround(delimiter: Delimiter, contents: Seq<TokenModel>)
    ensures
        models_lexemes(surround_tokens(delimiter, contents)) == word(opening_text(delimiter.kind))
            + models_lexemes(contents) + word(closing_text(delimiter.kind)),
{
    match delimiter.kind {
        DelimiterKind::Empty => {
            assert(word(opening_text(delimiter.kind)) + models_lexemes(contents) + word(
                closing_text(delimiter.kind),
            ) =~= models_lexemes(contents));
        },
        DelimiterKind::Semicolon => {
            let s = surround_tokens(delimiter, contents);
            lemma_lexemes_push(contents, s.last());
            assert(s =~= contents.push(s.last()));
            assert(word(opening_text(delimiter.kind)) + models_lexemes(contents) + word(
                closing_text(delimiter.kind),
            ) =~= models_lexemes(contents) + seq![seq![';']]);
        },
        _ => {
            lemma_lexemes_single(TokenModel::Group { delimiter, stream: contents });
        },
    }
}

/// The lexemes between two positions of a token sequence.
pub open spec fn segment(s: Seq<TokenModel>, from: int, to: int) -> Seq<Seq<char>> {
    models_lexemes(s.subrange(from, to))
}

pub proof fn lemma_segment_split(s: Seq<TokenModel>, a: int, b: int, c: int)
    requires
        0 <= a <= b <= c <= s.len(),
    ensures
        segment(s, a, c) == segment(s, a, b) + segment(s, b, c),
{
    assert(s.subrange(a, c) =~= s.subrange(a, b) + s.subrange(b, c));
    lemma_lexemes_append(s.subrange(a, b), s.subrange(b, c));
}

pub proof fn lemma_segment_empty(s: Seq<TokenModel>, a: int)
    requires
        0 <= a <= s.len(),
    ensures
        segment(s, a, a) == Seq::<Seq<char>>::empty(),
{
    assert(s.subrange(a, a) =~= Seq::<TokenModel>::empty());
}

/// A run of trivia has no lexemes.
pub proof fn lemma_segment_trivia(s: Seq<TokenModel>, a: int, b: int)
    requires
        0 <= a <= b <= s.len(),
        forall|i: int| a <= i < b ==> (#[trigger] s[i]) is Trivia,
    ensures
        segment(s, a, b) == Seq::<Seq<char>>::empty(),
    decreases b - a,
{
    if a < b {
        lemma_segment_trivia(s, a, b - 1);
        assert(s.subrange(a, b) =~= s.subrange(a, b - 1).push(s[b - 1]));
        lemma_lexemes_push(s.subrange(a, b - 1), s[b - 1]);
    } else {
        lemma_segment_empty(s, a);
    }
}

/// Trivia, then one token: the lexemes of that token.
pub proof fn lemma_segment_token(s: Seq<TokenModel>, a: int, b: int)
    requires
        0 <= a <= b < s.len(),
        forall|i: int| a <= i < b ==> (#[trigger] s[i]) is Trivia,
    ensures
        segment(s, a, b + 1) == model_lexemes(s[b]),
{
    lemma_segment_trivia(s, a, b);
    lemma_segment_split(s, a, b, b + 1);
    assert(s.subrange(b, b + 1) =~= seq![s[b]]);
    lemma_lexemes_single(s[b]);
    assert(Seq::<Seq<char>>::empty() + model_lexemes(s[b]) =~= model_lexemes(s[b]));
}

/// The whole of a sequence is its segment from the start to the end.
pub proof fn lemma_segment_whole(s: Seq<TokenModel>)
    ensures
        segment(s, 0, s.len() as int) == models_lexemes(s),
{
    assert(s.subrange(0, s.len() as int) =~= s);
}

/// The lexemes of one cell: its opening text, its tokens' lexemes, and its closing text.
pub open spec fn cell_lexemes(c: CellModel) -> Seq<Seq<char>> {
    word(opening_text(c.delimiter.kind)) + models_lexemes(c.stream) + word(closing_text(c.delimiter.kind))
}

/// The lexemes of a sequence of cells, in order.
pub open spec fn cells_lexemes(s: Seq<CellModel>) -> Seq<Seq<char>>
    decreases s.len(),
{
    if s.len() == 0 {
        seq![]
    } else {
        cells_lexemes(s.drop_last()) + cell_lexemes(s.last())
    }
}

/// Whether every string literal in every cell is framed.
pub open spec fn cells_framed(s: Seq<CellModel>) -> bool {
    forall|i: int| 0 <= i < s.len() ==> models_framed(#[trigger] s[i].stream)
}

pub proof fn lemma_cells_lexemes_prefix(s: Seq<CellModel>, k: int)
    requires
        0 <= k < s.len(),
    ensures
        cells_lexemes(s.subrange(0, k + 1)) == cells_lexemes(s.subrange(0, k)) + cell_lexemes(s[k]),
{
    assert(s.subrange(0, k + 1).drop_last() =~= s.subrange(0, k));
}

// ---------------------------------------------------------------------------
// Lexemes of emitted nodes
// ---------------------------------------------------------------------------

/// The lexemes of an emitted `SourceFile` are those of its fields in order.
pub proof fn lemma_lx_source_file(x: SourceFile)
    ensures
        models_lexemes(tk_source_file(x)) =~= models_lexemes(tk_list_any_cell(x.elements@, x.elements@.len() as int)),
{
    let c0 = Seq::<TokenModel>::empty();
    let c1 = join_field(c0, tk_list_any_cell(x.elements@, x.elements@.len() as int));
    lemma_lexemes_join_field(c0, tk_list_any_cell(x.elements@, x.elements@.len() as int));
    assert(models_lexemes(c0) =~= Seq::<Seq<char>>::empty());
}

/// The lexemes of an emitted `ExpressionCell` are those of its fields in order.
pub proof fn lemma_lx_expression_cell(x: ExpressionCell)
    ensures
        models_lexemes(tk_expression_cell(x)) =~= models_lexemes(tk_expr(*x.value)),
{
    let c0 = Seq::<TokenModel>::empty();
    let c1 = join_field(c0, tk_expr(*x.value));
    lemma_lexemes_join_field(c0, tk_expr(*x.value));
    assert(models_lexemes(c0) =~= Seq::<Seq<char>>::empty());
}

/// The lexemes of an emitted `SequenceCell` are those of its fields in order.
pub proof fn lemma_lx_sequence_cell(x: SequenceCell)
    ensures
        models_lexemes(tk_sequence_cell(x)) =~= models_lexemes(tk_naked_sequence(x.value)),
{
    let c0 = Seq::<TokenModel>::empty();
    let c1 = join_field(c0, tk_naked_sequence(x.value));
    lemma_lexemes_join_field(c0, tk_naked_sequence(x.value));
    assert(models_lexemes(c0) =~= Seq::<Seq<char>>::empty());
}

/// The lexemes of an emitted `NakedSequence` are those of its fields in order.
pub proof fn lemma_lx_naked_sequence(x: NakedSequence)
    ensures
        models_lexemes(tk_naked_sequence(x)) =~= models_lexemes((tk_pairs(x.elements, x.elements.spec_pairs().len() as int) + match x.elements.spec_last() { Some(v) => tk_component(v), None => seq![] })),
{
    let c0 = Seq::<TokenModel>::empty();
    let c1 = join_field(c0, (tk_pairs(x.elements, x.elements.spec_pairs().len() as int) + match x.elements.spec_last() { Some(v) => tk_component(v), None => seq![] }));
    lemma_lexemes_join_field(c0, (tk_pairs(x.elements, x.elements.spec_pairs().len() as int) + match x.elements.spec_last() { Some(v) => tk_component(v), None => seq![] }));
    assert(models_lexemes(c0) =~= Seq::<Seq<char>>::empty());
}

/// The lexemes of an emitted `MutedCell` are those of its fields in order.
pub proof fn lemma_lx_muted_cell(x: MutedCell)
    ensures
        models_lexemes(tk_muted_cell(x)) =~= models_lexemes((tk_pairs(x.elements, x.elements.spec_pairs().len() as int) + match x.elements.spec_last() { Some(v) => tk_component(v), None => seq![] })) + models_lexemes(seq![x.semicolon.raw_model()]),
{
    let c0 = Seq::<TokenModel>::empty();
    let c1 = join_field(c0, (tk_pairs(x.elements, x.elements.spec_pairs().len() as int) + match x.elements.spec_last() { Some(v) => tk_component(v), None => seq![] }));
    lemma_lexemes_join_field(c0, (tk_pairs(x.elements, x.elements.spec_pairs().len() as int) + match x.elements.spec_last() { Some(v) => tk_component(v), None => seq![] }));
    let c2 = c1 + seq![x.semicolon.raw_model()];
    lemma_lexemes_append(c1, seq![x.semicolon.raw_model()]);
    assert(models_lexemes(c0) =~= Seq::<Seq<char>>::empty());
}

/// The lexemes of an emitted `MutedGroup` are those of its fields in order.
pub proof fn lemma_lx_muted_group(x: MutedGroup)
    ensures
        models_lexemes(tk_muted_group(x)) =~= models_lexemes((tk_pairs(x.elements, x.elements.spec_pairs().len() as int) + match x.elements.spec_last() { Some(v) => tk_component(v), None => seq![] })) + models_lexemes(seq![x.semicolon.raw_model()]),
{
    let c0 = Seq::<TokenModel>::empty();
    let c1 = join_field(c0, (tk_pairs(x.elements, x.elements.spec_pairs().len() as int) + match x.elements.spec_last() { Some(v) => tk_component(v), None => seq![] }));
    lemma_lexemes_join_field(c0, (tk_pairs(x.elements, x.elements.spec_pairs().len() as int) + match x.elements.spec_last() { Some(v) => tk_component(v), None => seq![] }));
    let c2 = c1 + seq![x.semicolon.raw_model()];
    lemma_lexemes_append(c1, seq![x.semicolon.raw_model()]);
    assert(models_lexemes(c0) =~= Seq::<Seq<char>>::empty());
}

/// The lexemes of an emitted `Array` are those of its fields in order.
pub proof fn lemma_lx_array(x: Array)
    ensures
        models_lexemes(tk_array(x)) =~= word(opening_text(DelimiterKind::Bracket)) + models_lexemes(tk_list_muted_group(x.muted@, x.muted@.len() as int)) + models_lexemes((tk_pairs(x.elements, x.elements.spec_pairs().len() as int) + match x.elements.spec_last() { Some(v) => tk_component(v), None => seq![] })) + word(closing_text(DelimiterKind::Bracket)),
{
    let c0 = Seq::<TokenModel>::empty();
    let c1 = join_field(c0, tk_list_muted_group(x.muted@, x.muted@.len() as int));
    lemma_lexemes_join_field(c0, tk_list_muted_group(x.muted@, x.muted@.len() as int));
    let c2 = join_field(c1, (tk_pairs(x.elements, x.elements.spec_pairs().len() as int) + match x.elements.spec_last() { Some(v) => tk_component(v), None => seq![] }));
    lemma_lexemes_join_field(c1, (tk_pairs(x.elements, x.elements.spec_pairs().len() as int) + match x.elements.spec_last() { Some(v) => tk_component(v), None => seq![] }));
    lemma_lexemes_surround(Delimiter { kind: DelimiterKind::Bracket, span: x.delimiter.spec_span() }, c2);
    assert(models_lexemes(c0) =~= Seq::<Seq<char>>::empty());
}

/// The lexemes of an emitted `List` are those of its fields in order.
pub proof fn lemma_lx_list(x: List)
    ensures
        models_lexemes(tk_list(x)) =~= word(opening_text(DelimiterKind::Brace)) + models_lexemes(tk_list_muted_group(x.muted@, x.muted@.len() as int)) + models_lexemes((tk_pairs(x.elements, x.elements.spec_pairs().len() as int) + match x.elements.spec_last() { Some(v) => tk_component(v), None => seq![] })) + word(closing_text(DelimiterKind::Brace)),
{
    let c0 = Seq::<TokenModel>::empty();
    let c1 = join_field(c0, tk_list_muted_group(x.muted@, x.muted@.len() as int));
    lemma_lexemes_join_field(c0, tk_list_muted_group(x.muted@, x.muted@.len() as int));
    let c2 = join_field(c1, (tk_pairs(x.elements, x.elements.spec_pairs().len() as int) + match x.elements.spec_last() { Some(v) => tk_component(v), None => seq![] }));
    lemma_lexemes_join_field(c1, (tk_pairs(x.elements, x.elements.spec_pairs().len() as int) + match x.elements.spec_last() { Some(v) => tk_component(v), None => seq![] }));
    lemma_lexemes_surround(Delimiter { kind: DelimiterKind::Brace, span: x.delimiter.spec_span() }, c2);
    assert(models_lexemes(c0) =~= Seq::<Seq<char>>::empty());
}

/// The lexemes of an emitted `AngleBarList` are those of its fields in order.
pub proof fn lemma_lx_angle_bar_list(x: AngleBarList)
    ensures
        models_lexemes(tk_angle_bar_list(x)) =~= word(opening_text(DelimiterKind::AngleBar)) + models_lexemes(tk_list_muted_group(x.muted@, x.muted@.len() as int)) + models_lexemes((tk_pairs(x.elements, x.elements.spec_pairs().len() as int) + match x.elements.spec_last() { Some(v) => tk_component(v), None => seq![] })) + word(closing_text(DelimiterKind::AngleBar)),
{
    let c0 = Seq::<TokenModel>::empty();
    let c1 = join_field(c0, tk_list_muted_group(x.muted@, x.muted@.len() as int));
    lemma_lexemes_join_field(c0, tk_list_muted_group(x.muted@, x.muted@.len() as int));
    let c2 = join_field(c1, (tk_pairs(x.elements, x.elements.spec_pairs().len() as int) + match x.elements.spec_last() { Some(v) => tk_component(v), None => seq![] }));
    lemma_lexemes_join_field(c1, (tk_pairs(x.elements, x.elements.spec_pairs().len() as int) + match x.elements.spec_last() { Some(v) => tk_component(v), None => seq![] }));
    lemma_lexemes_surround(Delimiter { kind: DelimiterKind::AngleBar, span: x.delimiter.spec_span() }, c2);
    assert(models_lexemes(c0) =~= Seq::<Seq<char>>::empty());
}

/// The lexemes of an emitted `Sequence` are those of its fields in order.
pub proof fn lemma_lx_sequence(x: Sequence)
    ensures
        models_lexemes(tk_sequence(x)) =~= word(opening_text(DelimiterKind::Parenthesis)) + models_lexemes(tk_list_muted_group(x.muted@, x.muted@.len() as int)) + models_lexemes((tk_pairs(x.elements, x.elements.spec_pairs().len() as int) + match x.elements.spec_last() { Some(v) => tk_component(v), None => seq![] })) + word(closing_text(DelimiterKind::Parenthesis)),
{
    let c0 = Seq::<TokenModel>::empty();
    let c1 = join_field(c0, tk_list_muted_group(x.muted@, x.muted@.len() as int));
    lemma_lexemes_join_field(c0, tk_list_muted_group(x.muted@, x.muted@.len() as int));
    let c2 = join_field(c1, (tk_pairs(x.elements, x.elements.spec_pairs().len() as int) + match x.elements.spec_last() { Some(v) => tk_component(v), None => seq![] }));
    lemma_lexemes_join_field(c1, (tk_pairs(x.elements, x.elements.spec_pairs().len() as int) + match x.elements.spec_last() { Some(v) => tk_component(v), None => seq![] }));
    lemma_lexemes_surround(Delimiter { kind: DelimiterKind::Parenthesis, span: x.delimiter.spec_span() }, c2);
    assert(models_lexemes(c0) =~= Seq::<Seq<char>>::empty());
}

/// The lexemes of an emitted `ParenthesizedExpression` are those of its fields in order.
pub proof fn lemma_lx_parenthesized_expression(x: ParenthesizedExpression)
    ensures
        models_lexemes(tk_parenthesized_expression(x)) =~= word(opening_text(DelimiterKind::Parenthesis)) + models_lexemes(tk_list_muted_group(x.muted@, x.muted@.len() as int)) + models_lexemes(match x.value { Some(e) => tk_expr(*e), None => seq![] }) + word(closing_text(DelimiterKind::Parenthesis)),
{
    let c0 = Seq::<TokenModel>::empty();
    let c1 = join_field(c0, tk_list_muted_group(x.muted@, x.muted@.len() as int));
    lemma_lexemes_join_field(c0, tk_list_muted_group(x.muted@, x.muted@.len() as int));
    let c2 = join_field(c1, match x.value { Some(e) => tk_expr(*e), None => seq![] });
    lemma_lexemes_join_field(c1, match x.value { Some(e) => tk_expr(*e), None => seq![] });
    lemma_lexemes_surround(Delimiter { kind: DelimiterKind::Parenthesis, span: x.delimiter.spec_span() }, c2);
    assert(models_lexemes(c0) =~= Seq::<Seq<char>>::empty());
}

/// The lexemes of an emitted `BinaryExpression` are those of its fields in order.
pub proof fn lemma_lx_binary_expression(x: BinaryExpression)
    ensures
        models_lexemes(tk_binary_expression(x)) =~= models_lexemes(tk_expr(*x.left)) + models_lexemes(seq![x.operator.raw_model()]) + models_lexemes(tk_expr(*x.right)),
{
    let c0 = Seq::<TokenModel>::empty();
    let c1 = join_field(c0, tk_expr(*x.left));
    lemma_lexemes_join_field(c0, tk_expr(*x.left));
    let c2 = join_field(c1, seq![x.operator.raw_model()]);
    lemma_lexemes_join_field(c1, seq![x.operator.raw_model()]);
    let c3 = join_field(c2, tk_expr(*x.right));
    lemma_lexemes_join_field(c2, tk_expr(*x.right));
    assert(models_lexemes(c0) =~= Seq::<Seq<char>>::empty());
}

/// The lexemes of an emitted `PrefixExpression` are those of its fields in order.
pub proof fn lemma_lx_prefix_expression(x: PrefixExpression)
    ensures
        models_lexemes(tk_prefix_expression(x)) =~= models_lexemes(seq![x.operator.raw_model()]) + models_lexemes(tk_expr(*x.operand)),
{
    let c0 = Seq::<TokenModel>::empty();
    let c1 = join_field(c0, seq![x.operator.raw_model()]);
    lemma_lexemes_join_field(c0, seq![x.operator.raw_model()]);
    let c2 = join_field(c1, tk_expr(*x.operand));
    lemma_lexemes_join_field(c1, tk_expr(*x.operand));
    assert(models_lexemes(c0) =~= Seq::<Seq<char>>::empty());
}

/// The lexemes of an emitted `PostfixExpression` are those of its fields in order.
pub proof fn lemma_lx_postfix_expression(x: PostfixExpression)
    ensures
        models_lexemes(tk_postfix_expression(x)) =~= models_lexemes(tk_expr(*x.operand)) + models_lexemes(seq![x.operator.raw_model()]),
{
    let c0 = Seq::<TokenModel>::empty();
    let c1 = join_field(c0, tk_expr(*x.operand));
    lemma_lexemes_join_field(c0, tk_expr(*x.operand));
    let c2 = join_field(c1, seq![x.operator.raw_model()]);
    lemma_lexemes_join_field(c1, seq![x.operator.raw_model()]);
    assert(models_lexemes(c0) =~= Seq::<Seq<char>>::empty());
}

/// The lexemes of an emitted `LambdaExpression` are those of its fields in order.
pub proof fn lemma_lx_lambda_expression(x: LambdaExpression)
    ensures
        models_lexemes(tk_lambda_expression(x)) =~= models_lexemes(tk_lambda_parameters(x.parameters)) + models_lexemes(seq![x.operator.raw_model()]) + models_lexemes(tk_expr(*x.body)),
{
    let c0 = Seq::<TokenModel>::empty();
    let c1 = join_field(c0, tk_lambda_parameters(x.parameters));
    lemma_lexemes_join_field(c0, tk_lambda_parameters(x.parameters));
    let c2 = join_field(c1, seq![x.operator.raw_model()]);
    lemma_lexemes_join_field(c1, seq![x.operator.raw_model()]);
    let c3 = join_field(c2, tk_expr(*x.body));
    lemma_lexemes_join_field(c2, tk_expr(*x.body));
    assert(models_lexemes(c0) =~= Seq::<Seq<char>>::empty());
}

/// The lexemes of an emitted `Assignment` are those of its fields in order.
pub proof fn lemma_lx_assignment(x: Assignment)
    ensures
        models_lexemes(tk_assignment(x)) =~= models_lexemes(tk_symbol(x.left)) + models_lexemes(seq![x.operator.raw_model()]) + models_lexemes(tk_expr(*x.right)),
{
    let c0 = Seq::<TokenModel>::empty();
    let c1 = join_field(c0, tk_symbol(x.left));
    lemma_lexemes_join_field(c0, tk_symbol(x.left));
    let c2 = join_field(c1, seq![x.operator.raw_model()]);
    lemma_lexemes_join_field(c1, seq![x.operator.raw_model()]);
    let c3 = join_field(c2, tk_expr(*x.right));
    lemma_lexemes_join_field(c2, tk_expr(*x.right));
    assert(models_lexemes(c0) =~= Seq::<Seq<char>>::empty());
}

/// The lexemes of an emitted `LocalAssignment` are those of its fields in order.
pub proof fn lemma_lx_local_assignment(x: LocalAssignment)
    ensures
        models_lexemes(tk_local_assignment(x)) =~= models_lexemes(tk_symbol(x.left)) + models_lexemes(seq![x.operator.raw_model()]) + models_lexemes(tk_expr(*x.right)),
{
    let c0 = Seq::<TokenModel>::empty();
    let c1 = join_field(c0, tk_symbol(x.left));
    lemma_lexemes_join_field(c0, tk_symbol(x.left));
    let c2 = join_field(c1, seq![x.operator.raw_model()]);
    lemma_lexemes_join_field(c1, seq![x.operator.raw_model()]);
    let c3 = join_field(c2, tk_expr(*x.right));
    lemma_lexemes_join_field(c2, tk_expr(*x.right));
    assert(models_lexemes(c0) =~= Seq::<Seq<char>>::empty());
}

/// The lexemes of an emitted `BinaryAssignment` are those of its fields in order.
pub proof fn lemma_lx_binary_assignment(x: BinaryAssignment)
    ensures
        models_lexemes(tk_binary_assignment(x)) =~= models_lexemes(tk_binary_expression(x.left)) + models_lexemes(seq![x.operator.raw_model()]) + models_lexemes(tk_expr(*x.right)),
{
    let c0 = Seq::<TokenModel>::empty();
    let c1 = join_field(c0, tk_binary_expression(x.left));
    lemma_lexemes_join_field(c0, tk_binary_expression(x.left));
    let c2 = join_field(c1, seq![x.operator.raw_model()]);
    lemma_lexemes_join_field(c1, seq![x.operator.raw_model()]);
    let c3 = join_field(c2, tk_expr(*x.right));
    lemma_lexemes_join_field(c2, tk_expr(*x.right));
    assert(models_lexemes(c0) =~= Seq::<Seq<char>>::empty());
}

/// The lexemes of an emitted `BinaryInstallation` are those of its fields in order.
pub proof fn lemma_lx_binary_installation(x: BinaryInstallation)
    ensures
        models_lexemes(tk_binary_installation(x)) =~= models_lexemes(tk_binary_expression(x.left)) + models_lexemes(seq![x.operator.raw_model()]) + models_lexemes(tk_expr(*x.right)),
{
    let c0 = Seq::<TokenModel>::empty();
    let c1 = join_field(c0, tk_binary_expression(x.left));
    lemma_lexemes_join_field(c0, tk_binary_expression(x.left));
    let c2 = join_field(c1, seq![x.operator.raw_model()]);
    lemma_lexemes_join_field(c1, seq![x.operator.raw_model()]);
    let c3 = join_field(c2, tk_expr(*x.right));
    lemma_lexemes_join_field(c2, tk_expr(*x.right));
    assert(models_lexemes(c0) =~= Seq::<Seq<char>>::empty());
}

/// The lexemes of an emitted `PrefixAssignment` are those of its fields in order.
pub proof fn lemma_lx_prefix_assignment(x: PrefixAssignment)
    ensures
        models_lexemes(tk_prefix_assignment(x)) =~= models_lexemes(tk_prefix_expression(x.left)) + models_lexemes(seq![x.operator.raw_model()]) + models_lexemes(tk_expr(*x.right)),
{
    let c0 = Seq::<TokenModel>::empty();
    let c1 = join_field(c0, tk_prefix_expression(x.left));
    lemma_lexemes_join_field(c0, tk_prefix_expression(x.left));
    let c2 = join_field(c1, seq![x.operator.raw_model()]);
    lemma_lexemes_join_field(c1, seq![x.operator.raw_model()]);
    let c3 = join_field(c2, tk_expr(*x.right));
    lemma_lexemes_join_field(c2, tk_expr(*x.right));
    assert(models_lexemes(c0) =~= Seq::<Seq<char>>::empty());
}

/// The lexemes of an emitted `PrefixInstallation` are those of its fields in order.
pub proof fn lemma_lx_prefix_installation(x: PrefixInstallation)
    ensures
        models_lexemes(tk_prefix_installation(x)) =~= models_lexemes(tk_prefix_expression(x.left)) + models_lexemes(seq![x.operator.raw_model()]) + models_lexemes(tk_expr(*x.right)),
{
    let c0 = Seq::<TokenModel>::empty();
    let c1 = join_field(c0, tk_prefix_expression(x.left));
    lemma_lexemes_join_field(c0, tk_prefix_expression(x.left));
    let c2 = join_field(c1, seq![x.operator.raw_model()]);
    lemma_lexemes_join_field(c1, seq![x.operator.raw_model()]);
    let c3 = join_field(c2, tk_expr(*x.right));
    lemma_lexemes_join_field(c2, tk_expr(*x.right));
    assert(models_lexemes(c0) =~= Seq::<Seq<char>>::empty());
}

/// The lexemes of an emitted `PostfixAssignment` are those of its fields in order.
pub proof fn lemma_lx_postfix_assignment(x: PostfixAssignment)
    ensures
        models_lexemes(tk_postfix_assignment(x)) =~= models_lexemes(tk_postfix_expression(x.left)) + models_lexemes(seq![x.operator.raw_model()]) + models_lexemes(tk_expr(*x.right)),
{
    let c0 = Seq::<TokenModel>::empty();
    let c1 = join_field(c0, tk_postfix_expression(x.left));
    lemma_lexemes_join_field(c0, tk_postfix_expression(x.left));
    let c2 = join_field(c1, seq![x.operator.raw_model()]);
    lemma_lexemes_join_field(c1, seq![x.operator.raw_model()]);
    let c3 = join_field(c2, tk_expr(*x.right));
    lemma_lexemes_join_field(c2, tk_expr(*x.right));
    assert(models_lexemes(c0) =~= Seq::<Seq<char>>::empty());
}

/// The lexemes of an emitted `PostfixInstallation` are those of its fields in order.
pub proof fn lemma_lx_postfix_installation(x: PostfixInstallation)
    ensures
        models_lexemes(tk_postfix_installation(x)) =~= models_lexemes(tk_postfix_expression(x.left)) + models_lexemes(seq![x.operator.raw_model()]) + models_lexemes(tk_expr(*x.right)),
{
    let c0 = Seq::<TokenModel>::empty();
    let c1 = join_field(c0, tk_postfix_expression(x.left));
    lemma_lexemes_join_field(c0, tk_postfix_expression(x.left));
    let c2 = join_field(c1, seq![x.operator.raw_model()]);
    lemma_lexemes_join_field(c1, seq![x.operator.raw_model()]);
    let c3 = join_field(c2, tk_expr(*x.right));
    lemma_lexemes_join_field(c2, tk_expr(*x.right));
    assert(models_lexemes(c0) =~= Seq::<Seq<char>>::empty());
}

/// The lexemes of an emitted `StructuredBinding` are those of its fields in order.
pub proof fn lemma_lx_structured_binding(x: StructuredBinding)
    ensures
        models_lexemes(tk_structured_binding(x)) =~= models_lexemes(tk_binding_pack(x.binding_pack)) + models_lexemes(seq![x.operator.raw_model()]) + models_lexemes(tk_expr(*x.right)),
{
    let c0 = Seq::<TokenModel>::empty();
    let c1 = join_field(c0, tk_binding_pack(x.binding_pack));
    lemma_lexemes_join_field(c0, tk_binding_pack(x.binding_pack));
    let c2 = join_field(c1, seq![x.operator.raw_model()]);
    lemma_lexemes_join_field(c1, seq![x.operator.raw_model()]);
    let c3 = join_field(c2, tk_expr(*x.right));
    lemma_lexemes_join_field(c2, tk_expr(*x.right));
    assert(models_lexemes(c0) =~= Seq::<Seq<char>>::empty());
}

/// The lexemes of an emitted `LocalStructuredBinding` are those of its fields in order.
pub proof fn lemma_lx_local_structured_binding(x: LocalStructuredBinding)
    ensures
        models_lexemes(tk_local_structured_binding(x)) =~= models_lexemes(tk_binding_pack(x.binding_pack)) + models_lexemes(seq![x.operator.raw_model()]) + models_lexemes(tk_expr(*x.right)),
{
    let c0 = Seq::<TokenModel>::empty();
    let c1 = join_field(c0, tk_binding_pack(x.binding_pack));
    lemma_lexemes_join_field(c0, tk_binding_pack(x.binding_pack));
    let c2 = join_field(c1, seq![x.operator.raw_model()]);
    lemma_lexemes_join_field(c1, seq![x.operator.raw_model()]);
    let c3 = join_field(c2, tk_expr(*x.right));
    lemma_lexemes_join_field(c2, tk_expr(*x.right));
    assert(models_lexemes(c0) =~= Seq::<Seq<char>>::empty());
}

/// The lexemes of an emitted `EvaluatedAssignment` are those of its fields in order.
pub proof fn lemma_lx_evaluated_assignment(x: EvaluatedAssignment)
    ensures
        models_lexemes(tk_evaluated_assignment(x)) =~= models_lexemes(tk_expr(*x.left)) + models_lexemes(seq![x.operator.raw_model()]) + models_lexemes(tk_expr(*x.right)),
{
    let c0 = Seq::<TokenModel>::empty();
    let c1 = join_field(c0, tk_expr(*x.left));
    lemma_lexemes_join_field(c0, tk_expr(*x.left));
    let c2 = join_field(c1, seq![x.operator.raw_model()]);
    lemma_lexemes_join_field(c1, seq![x.operator.raw_model()]);
    let c3 = join_field(c2, tk_expr(*x.right));
    lemma_lexemes_join_field(c2, tk_expr(*x.right));
    assert(models_lexemes(c0) =~= Seq::<Seq<char>>::empty());
}

/// The lexemes of an emitted `OptionExpression` are those of its fields in order.
pub proof fn lemma_lx_option_expression(x: OptionExpression)
    ensures
        models_lexemes(tk_option_expression(x)) =~= models_lexemes(tk_expr(*x.left)) + models_lexemes(seq![x.operator.raw_model()]) + models_lexemes(tk_expr(*x.right)),
{
    let c0 = Seq::<TokenModel>::empty();
    let c1 = join_field(c0, tk_expr(*x.left));
    lemma_lexemes_join_field(c0, tk_expr(*x.left));
    let c2 = join_field(c1, seq![x.operator.raw_model()]);
    lemma_lexemes_join_field(c1, seq![x.operator.raw_model()]);
    let c3 = join_field(c2, tk_expr(*x.right));
    lemma_lexemes_join_field(c2, tk_expr(*x.right));
    assert(models_lexemes(c0) =~= Seq::<Seq<char>>::empty());
}

/// The lexemes of an emitted `ThenClause` are those of its fields in order.
pub proof fn lemma_lx_then_clause(x: ThenClause)
    ensures
        models_lexemes(tk_then_clause(x)) =~= models_lexemes(seq![x.keyword.raw_model()]) + models_lexemes(tk_expr(*x.value)),
{
    let c0 = Seq::<TokenModel>::empty();
    let c1 = join_field(c0, seq![x.keyword.raw_model()]);
    lemma_lexemes_join_field(c0, seq![x.keyword.raw_model()]);
    let c2 = join_field(c1, tk_expr(*x.value));
    lemma_lexemes_join_field(c1, tk_expr(*x.value));
    assert(models_lexemes(c0) =~= Seq::<Seq<char>>::empty());
}

/// The lexemes of an emitted `ElseClause` are those of its fields in order.
pub proof fn lemma_lx_else_clause(x: ElseClause)
    ensures
        models_lexemes(tk_else_clause(x)) =~= models_lexemes(seq![x.keyword.raw_model()]) + models_lexemes(tk_expr(*x.value)),
{
    let c0 = Seq::<TokenModel>::empty();
    let c1 = join_field(c0, seq![x.keyword.raw_model()]);
    lemma_lexemes_join_field(c0, seq![x.keyword.raw_model()]);
    let c2 = join_field(c1, tk_expr(*x.value));
    lemma_lexemes_join_field(c1, tk_expr(*x.value));
    assert(models_lexemes(c0) =~= Seq::<Seq<char>>::empty());
}

/// The lexemes of an emitted `IfStatement` are those of its fields in order.
pub proof fn lemma_lx_if_statement(x: IfStatement)
    ensures
        models_lexemes(tk_if_statement(x)) =~= models_lexemes(seq![x.keyword.raw_model()]) + models_lexemes(tk_expr(*x.condition)) + models_lexemes(tk_then_clause(x.then_clause)) + models_lexemes(match x.else_clause { Some(v) => tk_else_clause(v), None => seq![] }),
{
    let c0 = Seq::<TokenModel>::empty();
    let c1 = join_field(c0, seq![x.keyword.raw_model()]);
    lemma_lexemes_join_field(c0, seq![x.keyword.raw_model()]);
    let c2 = join_field(c1, tk_expr(*x.condition));
    lemma_lexemes_join_field(c1, tk_expr(*x.condition));
    let c3 = join_field(c2, tk_then_clause(x.then_clause));
    lemma_lexemes_join_field(c2, tk_then_clause(x.then_clause));
    let c4 = join_field(c3, match x.else_clause { Some(v) => tk_else_clause(v), None => seq![] });
    lemma_lexemes_join_field(c3, match x.else_clause { Some(v) => tk_else_clause(v), None => seq![] });
    assert(models_lexemes(c0) =~= Seq::<Seq<char>>::empty());
}

/// The lexemes of an emitted `LoopBody` are those of its fields in order.
pub proof fn lemma_lx_loop_body(x: LoopBody)
    ensures
        models_lexemes(tk_loop_body(x)) =~= models_lexemes(match x.list_keyword { Some(t) => seq![t.raw_model()], None => seq![] }) + models_lexemes(match x.listed_value { Some(e) => tk_expr(*e), None => seq![] }) + models_lexemes(match x.do_keyword { Some(t) => seq![t.raw_model()], None => seq![] }) + models_lexemes(match x.ignored_value { Some(e) => tk_expr(*e), None => seq![] }),
{
    let c0 = Seq::<TokenModel>::empty();
    let c1 = join_field(c0, match x.list_keyword { Some(t) => seq![t.raw_model()], None => seq![] });
    lemma_lexemes_join_field(c0, match x.list_keyword { Some(t) => seq![t.raw_model()], None => seq![] });
    let c2 = join_field(c1, match x.listed_value { Some(e) => tk_expr(*e), None => seq![] });
    lemma_lexemes_join_field(c1, match x.listed_value { Some(e) => tk_expr(*e), None => seq![] });
    let c3 = join_field(c2, match x.do_keyword { Some(t) => seq![t.raw_model()], None => seq![] });
    lemma_lexemes_join_field(c2, match x.do_keyword { Some(t) => seq![t.raw_model()], None => seq![] });
    let c4 = join_field(c3, match x.ignored_value { Some(e) => tk_expr(*e), None => seq![] });
    lemma_lexemes_join_field(c3, match x.ignored_value { Some(e) => tk_expr(*e), None => seq![] });
    assert(models_lexemes(c0) =~= Seq::<Seq<char>>::empty());
}

/// The lexemes of an emitted `IterationRange` are those of its fields in order.
pub proof fn lemma_lx_iteration_range(x: IterationRange)
    ensures
        models_lexemes(tk_iteration_range(x)) =~= models_lexemes(match x.in_keyword { Some(t) => seq![t.raw_model()], None => seq![] }) + models_lexemes(match x.iterated_collection { Some(e) => tk_expr(*e), None => seq![] }) + models_lexemes(match x.from_keyword { Some(t) => seq![t.raw_model()], None => seq![] }) + models_lexemes(match x.range_start { Some(e) => tk_expr(*e), None => seq![] }) + models_lexemes(match x.to_keyword { Some(t) => seq![t.raw_model()], None => seq![] }) + models_lexemes(match x.range_end { Some(e) => tk_expr(*e), None => seq![] }),
{
    let c0 = Seq::<TokenModel>::empty();
    let c1 = join_field(c0, match x.in_keyword { Some(t) => seq![t.raw_model()], None => seq![] });
    lemma_lexemes_join_field(c0, match x.in_keyword { Some(t) => seq![t.raw_model()], None => seq![] });
    let c2 = join_field(c1, match x.iterated_collection { Some(e) => tk_expr(*e), None => seq![] });
    lemma_lexemes_join_field(c1, match x.iterated_collection { Some(e) => tk_expr(*e), None => seq![] });
    let c3 = join_field(c2, match x.from_keyword { Some(t) => seq![t.raw_model()], None => seq![] });
    lemma_lexemes_join_field(c2, match x.from_keyword { Some(t) => seq![t.raw_model()], None => seq![] });
    let c4 = join_field(c3, match x.range_start { Some(e) => tk_expr(*e), None => seq![] });
    lemma_lexemes_join_field(c3, match x.range_start { Some(e) => tk_expr(*e), None => seq![] });
    let c5 = join_field(c4, match x.to_keyword { Some(t) => seq![t.raw_model()], None => seq![] });
    lemma_lexemes_join_field(c4, match x.to_keyword { Some(t) => seq![t.raw_model()], None => seq![] });
    let c6 = join_field(c5, match x.range_end { Some(e) => tk_expr(*e), None => seq![] });
    lemma_lexemes_join_field(c5, match x.range_end { Some(e) => tk_expr(*e), None => seq![] });
    assert(models_lexemes(c0) =~= Seq::<Seq<char>>::empty());
}

/// The lexemes of an emitted `ForLoop` are those of its fields in order.
pub proof fn lemma_lx_for_loop(x: ForLoop)
    ensures
        models_lexemes(tk_for_loop(x)) =~= models_lexemes(seq![x.keyword.raw_model()]) + models_lexemes(tk_symbol(x.variable)) + models_lexemes(match x.range { Some(v) => tk_iteration_range(*v), None => seq![] }) + models_lexemes(match x.when_keyword { Some(t) => seq![t.raw_model()], None => seq![] }) + models_lexemes(match x.filter { Some(e) => tk_expr(*e), None => seq![] }) + models_lexemes(tk_loop_body(x.body)),
{
    let c0 = Seq::<TokenModel>::empty();
    let c1 = join_field(c0, seq![x.keyword.raw_model()]);
    lemma_lexemes_join_field(c0, seq![x.keyword.raw_model()]);
    let c2 = join_field(c1, tk_symbol(x.variable));
    lemma_lexemes_join_field(c1, tk_symbol(x.variable));
    let c3 = join_field(c2, match x.range { Some(v) => tk_iteration_range(*v), None => seq![] });
    lemma_lexemes_join_field(c2, match x.range { Some(v) => tk_iteration_range(*v), None => seq![] });
    let c4 = join_field(c3, match x.when_keyword { Some(t) => seq![t.raw_model()], None => seq![] });
    lemma_lexemes_join_field(c3, match x.when_keyword { Some(t) => seq![t.raw_model()], None => seq![] });
    let c5 = join_field(c4, match x.filter { Some(e) => tk_expr(*e), None => seq![] });
    lemma_lexemes_join_field(c4, match x.filter { Some(e) => tk_expr(*e), None => seq![] });
    let c6 = join_field(c5, tk_loop_body(x.body));
    lemma_lexemes_join_field(c5, tk_loop_body(x.body));
    assert(models_lexemes(c0) =~= Seq::<Seq<char>>::empty());
}

/// The lexemes of an emitted `WhileLoop` are those of its fields in order.
pub proof fn lemma_lx_while_loop(x: WhileLoop)
    ensures
        models_lexemes(tk_while_loop(x)) =~= models_lexemes(seq![x.keyword.raw_model()]) + models_lexemes(tk_expr(*x.condition)) + models_lexemes(tk_loop_body(x.body)),
{
    let c0 = Seq::<TokenModel>::empty();
    let c1 = join_field(c0, seq![x.keyword.raw_model()]);
    lemma_lexemes_join_field(c0, seq![x.keyword.raw_model()]);
    let c2 = join_field(c1, tk_expr(*x.condition));
    lemma_lexemes_join_field(c1, tk_expr(*x.condition));
    let c3 = join_field(c2, tk_loop_body(x.body));
    lemma_lexemes_join_field(c2, tk_loop_body(x.body));
    assert(models_lexemes(c0) =~= Seq::<Seq<char>>::empty());
}

/// The lexemes of an emitted `NewStatement` are those of its fields in order.
pub proof fn lemma_lx_new_statement(x: NewStatement)
    ensures
        models_lexemes(tk_new_statement(x)) =~= models_lexemes(seq![x.keyword.raw_model()]) + models_lexemes(tk_expr(*x.class)) + models_lexemes(match x.of_keyword { Some(t) => seq![t.raw_model()], None => seq![] }) + models_lexemes(match x.parent { Some(e) => tk_expr(*e), None => seq![] }) + models_lexemes(match x.from_keyword { Some(t) => seq![t.raw_model()], None => seq![] }) + models_lexemes(match x.instance { Some(e) => tk_expr(*e), None => seq![] }),
{
    let c0 = Seq::<TokenModel>::empty();
    let c1 = join_field(c0, seq![x.keyword.raw_model()]);
    lemma_lexemes_join_field(c0, seq![x.keyword.raw_model()]);
    let c2 = join_field(c1, tk_expr(*x.class));
    lemma_lexemes_join_field(c1, tk_expr(*x.class));
    let c3 = join_field(c2, match x.of_keyword { Some(t) => seq![t.raw_model()], None => seq![] });
    lemma_lexemes_join_field(c2, match x.of_keyword { Some(t) => seq![t.raw_model()], None => seq![] });
    let c4 = join_field(c3, match x.parent { Some(e) => tk_expr(*e), None => seq![] });
    lemma_lexemes_join_field(c3, match x.parent { Some(e) => tk_expr(*e), None => seq![] });
    let c5 = join_field(c4, match x.from_keyword { Some(t) => seq![t.raw_model()], None => seq![] });
    lemma_lexemes_join_field(c4, match x.from_keyword { Some(t) => seq![t.raw_model()], None => seq![] });
    let c6 = join_field(c5, match x.instance { Some(e) => tk_expr(*e), None => seq![] });
    lemma_lexemes_join_field(c5, match x.instance { Some(e) => tk_expr(*e), None => seq![] });
    assert(models_lexemes(c0) =~= Seq::<Seq<char>>::empty());
}

/// The lexemes of an emitted `DebugClause` are those of its fields in order.
pub proof fn lemma_lx_debug_clause(x: DebugClause)
    ensures
        models_lexemes(tk_debug_clause(x)) =~= models_lexemes(tk_debug_keyword(x.keyword)) + models_lexemes(match x.value { Some(e) => tk_expr(*e), None => seq![] }),
{
    let c0 = Seq::<TokenModel>::empty();
    let c1 = join_field(c0, tk_debug_keyword(x.keyword));
    lemma_lexemes_join_field(c0, tk_debug_keyword(x.keyword));
    let c2 = join_field(c1, match x.value { Some(e) => tk_expr(*e), None => seq![] });
    lemma_lexemes_join_field(c1, match x.value { Some(e) => tk_expr(*e), None => seq![] });
    assert(models_lexemes(c0) =~= Seq::<Seq<char>>::empty());
}

/// The lexemes of an emitted `BreakStatement` are those of its fields in order.
pub proof fn lemma_lx_break_statement(x: BreakStatement)
    ensures
        models_lexemes(tk_break_statement(x)) =~= models_lexemes(seq![x.keyword.raw_model()]) + models_lexemes(match x.value { Some(e) => tk_expr(*e), None => seq![] }),
{
    let c0 = Seq::<TokenModel>::empty();
    let c1 = join_field(c0, seq![x.keyword.raw_model()]);
    lemma_lexemes_join_field(c0, seq![x.keyword.raw_model()]);
    let c2 = join_field(c1, match x.value { Some(e) => tk_expr(*e), None => seq![] });
    lemma_lexemes_join_field(c1, match x.value { Some(e) => tk_expr(*e), None => seq![] });
    assert(models_lexemes(c0) =~= Seq::<Seq<char>>::empty());
}

/// The lexemes of an emitted `ContinueStatement` are those of its fields in order.
pub proof fn lemma_lx_continue_statement(x: ContinueStatement)
    ensures
        models_lexemes(tk_continue_statement(x)) =~= models_lexemes(seq![x.keyword.raw_model()]) + models_lexemes(match x.value { Some(e) => tk_expr(*e), None => seq![] }),
{
    let c0 = Seq::<TokenModel>::empty();
    let c1 = join_field(c0, seq![x.keyword.raw_model()]);
    lemma_lexemes_join_field(c0, seq![x.keyword.raw_model()]);
    let c2 = join_field(c1, match x.value { Some(e) => tk_expr(*e), None => seq![] });
    lemma_lexemes_join_field(c1, match x.value { Some(e) => tk_expr(*e), None => seq![] });
    assert(models_lexemes(c0) =~= Seq::<Seq<char>>::empty());
}

/// The lexemes of an emitted `ReturnStatement` are those of its fields in order.
pub proof fn lemma_lx_return_statement(x: ReturnStatement)
    ensures
        models_lexemes(tk_return_statement(x)) =~= models_lexemes(seq![x.keyword.raw_model()]) + models_lexemes(match x.value { Some(e) => tk_expr(*e), None => seq![] }),
{
    let c0 = Seq::<TokenModel>::empty();
    let c1 = join_field(c0, seq![x.keyword.raw_model()]);
    lemma_lexemes_join_field(c0, seq![x.keyword.raw_model()]);
    let c2 = join_field(c1, match x.value { Some(e) => tk_expr(*e), None => seq![] });
    lemma_lexemes_join_field(c1, match x.value { Some(e) => tk_expr(*e), None => seq![] });
    assert(models_lexemes(c0) =~= Seq::<Seq<char>>::empty());
}

/// The lexemes of an emitted `CatchStatement` are those of its fields in order.
pub proof fn lemma_lx_catch_statement(x: CatchStatement)
    ensures
        models_lexemes(tk_catch_statement(x)) =~= models_lexemes(seq![x.keyword.raw_model()]) + models_lexemes(tk_expr(*x.value)),
{
    let c0 = Seq::<TokenModel>::empty();
    let c1 = join_field(c0, seq![x.keyword.raw_model()]);
    lemma_lexemes_join_field(c0, seq![x.keyword.raw_model()]);
    let c2 = join_field(c1, tk_expr(*x.value));
    lemma_lexemes_join_field(c1, tk_expr(*x.value));
    assert(models_lexemes(c0) =~= Seq::<Seq<char>>::empty());
}

/// The lexemes of an emitted `ThrowStatement` are those of its fields in order.
pub proof fn lemma_lx_throw_statement(x: ThrowStatement)
    ensures
        models_lexemes(tk_throw_statement(x)) =~= models_lexemes(seq![x.keyword.raw_model()]) + models_lexemes(tk_expr(*x.value)),
{
    let c0 = Seq::<TokenModel>::empty();
    let c1 = join_field(c0, seq![x.keyword.raw_model()]);
    lemma_lexemes_join_field(c0, seq![x.keyword.raw_model()]);
    let c2 = join_field(c1, tk_expr(*x.value));
    lemma_lexemes_join_field(c1, tk_expr(*x.value));
    assert(models_lexemes(c0) =~= Seq::<Seq<char>>::empty());
}

/// The lexemes of an emitted `TrapStatement` are those of its fields in order.
pub proof fn lemma_lx_trap_statement(x: TrapStatement)
    ensures
        models_lexemes(tk_trap_statement(x)) =~= models_lexemes(seq![x.keyword.raw_model()]) + models_lexemes(tk_expr(*x.value)),
{
    let c0 = Seq::<TokenModel>::empty();
    let c1 = join_field(c0, seq![x.keyword.raw_model()]);
    lemma_lexemes_join_field(c0, seq![x.keyword.raw_model()]);
    let c2 = join_field(c1, tk_expr(*x.value));
    lemma_lexemes_join_field(c1, tk_expr(*x.value));
    assert(models_lexemes(c0) =~= Seq::<Seq<char>>::empty());
}

/// The lexemes of an emitted `ExceptClause` are those of its fields in order.
pub proof fn lemma_lx_except_clause(x: ExceptClause)
    ensures
        models_lexemes(tk_except_clause(x)) =~= models_lexemes(seq![x.keyword.raw_model()]) + models_lexemes(tk_symbol(x.exception)) + models_lexemes(seq![x.do_keyword.raw_model()]) + models_lexemes(tk_expr(*x.value)),
{
    let c0 = Seq::<TokenModel>::empty();
    let c1 = join_field(c0, seq![x.keyword.raw_model()]);
    lemma_lexemes_join_field(c0, seq![x.keyword.raw_model()]);
    let c2 = join_field(c1, tk_symbol(x.exception));
    lemma_lexemes_join_field(c1, tk_symbol(x.exception));
    let c3 = join_field(c2, seq![x.do_keyword.raw_model()]);
    lemma_lexemes_join_field(c2, seq![x.do_keyword.raw_model()]);
    let c4 = join_field(c3, tk_expr(*x.value));
    lemma_lexemes_join_field(c3, tk_expr(*x.value));
    assert(models_lexemes(c0) =~= Seq::<Seq<char>>::empty());
}

/// The lexemes of an emitted `TryStatement` are those of its fields in order.
pub proof fn lemma_lx_try_statement(x: TryStatement)
    ensures
        models_lexemes(tk_try_statement(x)) =~= models_lexemes(seq![x.keyword.raw_model()]) + models_lexemes(tk_expr(*x.value)) + models_lexemes(match x.then_clause { Some(v) => tk_then_clause(v), None => seq![] }) + models_lexemes(match x.fallback { Some(v) => tk_try_fallback(*v), None => seq![] }),
{
    let c0 = Seq::<TokenModel>::empty();
    let c1 = join_field(c0, seq![x.keyword.raw_model()]);
    lemma_lexemes_join_field(c0, seq![x.keyword.raw_model()]);
    let c2 = join_field(c1, tk_expr(*x.value));
    lemma_lexemes_join_field(c1, tk_expr(*x.value));
    let c3 = join_field(c2, match x.then_clause { Some(v) => tk_then_clause(v), None => seq![] });
    lemma_lexemes_join_field(c2, match x.then_clause { Some(v) => tk_then_clause(v), None => seq![] });
    let c4 = join_field(c3, match x.fallback { Some(v) => tk_try_fallback(*v), None => seq![] });
    lemma_lexemes_join_field(c3, match x.fallback { Some(v) => tk_try_fallback(*v), None => seq![] });
    assert(models_lexemes(c0) =~= Seq::<Seq<char>>::empty());
}

/// The lexemes of an emitted `QuoteExpression` are those of its fields in order.
pub proof fn lemma_lx_quote_expression(x: QuoteExpression)
    ensures
        models_lexemes(tk_quote_expression(x)) =~= models_lexemes(tk_quote_specifier(x.specifier)) + models_lexemes(tk_symbol(x.token)),
{
    let c0 = Seq::<TokenModel>::empty();
    let c1 = join_field(c0, tk_quote_specifier(x.specifier));
    lemma_lexemes_join_field(c0, tk_quote_specifier(x.specifier));
    let c2 = join_field(c1, tk_symbol(x.token));
    lemma_lexemes_join_field(c1, tk_symbol(x.token));
    assert(models_lexemes(c0) =~= Seq::<Seq<char>>::empty());
}

pub proof fn lemma_tk_list_any_cell_prefix(s: Seq<AnyCell>, t: Seq<AnyCell>, n: int)
    requires
        0 <= n <= s.len(),
        n <= t.len(),
        s.subrange(0, n) == t.subrange(0, n),
    ensures
        tk_list_any_cell(s, n) == tk_list_any_cell(t, n),
    decreases n,
{
    if n > 1 {
        assert(s.subrange(0, n - 1) =~= t.subrange(0, n - 1));
        lemma_tk_list_any_cell_prefix(s, t, n - 1);
        assert(s[n - 1] == s.subrange(0, n)[n - 1]);
        assert(t[n - 1] == t.subrange(0, n)[n - 1]);
    } else if n == 1 {
        assert(s[0] == s.subrange(0, n)[0]);
        assert(t[0] == t.subrange(0, n)[0]);
    }
}

/// Appending an item appends its lexemes.
pub proof fn lemma_lx_list_any_cell_push(s: Seq<AnyCell>, item: AnyCell)
    ensures
        models_lexemes(tk_list_any_cell(s.push(item), s.len() + 1 as int)) == models_lexemes(tk_list_any_cell(s, s.len() as int))
            + models_lexemes(tk_any_cell(item)),
{
    let t = s.push(item);
    assert(t.subrange(0, s.len() as int) =~= s.subrange(0, s.len() as int));
    lemma_tk_list_any_cell_prefix(s, t, s.len() as int);
    if s.len() == 0 {
        assert(models_lexemes(tk_list_any_cell(s, 0)) =~= Seq::<Seq<char>>::empty());
        assert(models_lexemes(tk_list_any_cell(s, 0)) + models_lexemes(tk_any_cell(item)) =~= models_lexemes(tk_any_cell(item)));
    } else {
        let head = tk_list_any_cell(s, s.len() as int);
        lemma_lexemes_append(head, seq![detached_newline()]);
        lemma_lexemes_append(head + seq![detached_newline()], tk_any_cell(item));
        assert(models_lexemes(seq![detached_newline()]) =~= Seq::<Seq<char>>::empty()) by {
            lemma_lexemes_single(detached_space());
            lemma_lexemes_single(detached_newline());
        }
    }
}

pub proof fn lemma_tk_list_muted_group_prefix(s: Seq<MutedGroup>, t: Seq<MutedGroup>, n: int)
    requires
        0 <= n <= s.len(),
        n <= t.len(),
        s.subrange(0, n) == t.subrange(0, n),
    ensures
        tk_list_muted_group(s, n) == tk_list_muted_group(t, n),
    decreases n,
{
    if n > 1 {
        assert(s.subrange(0, n - 1) =~= t.subrange(0, n - 1));
        lemma_tk_list_muted_group_prefix(s, t, n - 1);
        assert(s[n - 1] == s.subrange(0, n)[n - 1]);
        assert(t[n - 1] == t.subrange(0, n)[n - 1]);
    } else if n == 1 {
        assert(s[0] == s.subrange(0, n)[0]);
        assert(t[0] == t.subrange(0, n)[0]);
    }
}

/// Appending an item appends its lexemes.
pub proof fn lemma_lx_list_muted_group_push(s: Seq<MutedGroup>, item: MutedGroup)
    ensures
        models_lexemes(tk_list_muted_group(s.push(item), s.len() + 1 as int)) == models_lexemes(tk_list_muted_group(s, s.len() as int))
            + models_lexemes(tk_muted_group(item)),
{
    let t = s.push(item);
    assert(t.subrange(0, s.len() as int) =~= s.subrange(0, s.len() as int));
    lemma_tk_list_muted_group_prefix(s, t, s.len() as int);
    if s.len() == 0 {
        assert(models_lexemes(tk_list_muted_group(s, 0)) =~= Seq::<Seq<char>>::empty());
        assert(models_lexemes(tk_list_muted_group(s, 0)) + models_lexemes(tk_muted_group(item)) =~= models_lexemes(tk_muted_group(item)));
    } else {
        let head = tk_list_muted_group(s, s.len() as int);
        lemma_lexemes_append(head, seq![detached_space()]);
        lemma_lexemes_append(head + seq![detached_space()], tk_muted_group(item));
        assert(models_lexemes(seq![detached_space()]) =~= Seq::<Seq<char>>::empty()) by {
            lemma_lexemes_single(detached_space());
            lemma_lexemes_single(detached_newline());
        }
    }
}

pub proof fn lemma_tk_list_string_element_prefix(s: Seq<StringElement>, t: Seq<StringElement>, n: int)
    requires
        0 <= n <= s.len(),
        n <= t.len(),
        s.subrange(0, n) == t.subrange(0, n),
    ensures
        tk_list_string_element(s, n) == tk_list_string_element(t, n),
    decreases n,
{
    if n > 1 {
        assert(s.subrange(0, n - 1) =~= t.subrange(0, n - 1));
        lemma_tk_list_string_element_prefix(s, t, n - 1);
        assert(s[n - 1] == s.subrange(0, n)[n - 1]);
        assert(t[n - 1] == t.subrange(0, n)[n - 1]);
    } else if n == 1 {
        assert(s[0] == s.subrange(0, n)[0]);
        assert(t[0] == t.subrange(0, n)[0]);
    }
}

pub proof fn lemma_tk_list_raw_string_element_prefix(s: Seq<RawStringElement>, t: Seq<RawStringElement>, n: int)
    requires
        0 <= n <= s.len(),
        n <= t.len(),
        s.subrange(0, n) == t.subrange(0, n),
    ensures
        tk_list_raw_string_element(s, n) == tk_list_raw_string_element(t, n),
    decreases n,
{
    if n > 1 {
        assert(s.subrange(0, n - 1) =~= t.subrange(0, n - 1));
        lemma_tk_list_raw_string_element_prefix(s, t, n - 1);
        assert(s[n - 1] == s.subrange(0, n)[n - 1]);
        assert(t[n - 1] == t.subrange(0, n)[n - 1]);
    } else if n == 1 {
        assert(s[0] == s.subrange(0, n)[0]);
        assert(t[0] == t.subrange(0, n)[0]);
    }
}

pub proof fn lemma_tk_pairs_prefix(p: Punctuated<Component>, q: Punctuated<Component>, n: int)
    requires
        0 <= n <= p.spec_pairs().len(),
        n <= q.spec_pairs().len(),
        p.spec_pairs().subrange(0, n) == q.spec_pairs().subrange(0, n),
    ensures
        tk_pairs(p, n) == tk_pairs(q, n),
    decreases n,
{
    if n > 0 {
        assert(p.spec_pairs().subrange(0, n - 1) =~= q.spec_pairs().subrange(0, n - 1));
        lemma_tk_pairs_prefix(p, q, n - 1);
        assert(p.spec_pairs()[n - 1] == p.spec_pairs().subrange(0, n)[n - 1]);
        assert(q.spec_pairs()[n - 1] == q.spec_pairs().subrange(0, n)[n - 1]);
    }
}

/// A sequence with no pairs has the lexemes of its last component, if any.
pub proof fn lemma_lx_punct_unpaired(p: Punctuated<Component>)
    requires
        p.spec_pairs().len() == 0,
    ensures
        models_lexemes(tk_punct(p)) == match p.spec_last() {
            Some(v) => models_lexemes(tk_component(v)),
            None => Seq::<Seq<char>>::empty(),
        },
{
    assert(tk_pairs(p, 0) =~= Seq::<TokenModel>::empty());
    match p.spec_last() {
        Some(v) => {
            assert(tk_punct(p) =~= tk_component(v));
        },
        None => {
            assert(tk_punct(p) =~= Seq::<TokenModel>::empty());
        },
    }
}

/// Pushing a comma and a component appends their lexemes.
pub proof fn lemma_lx_punct_push(p: Punctuated<Component>, q: Punctuated<Component>, comma: _Cma, next: Component)
    requires
        p.spec_last() is Some,
        q.spec_pairs() == p.spec_pairs().push((p.spec_last().unwrap(), comma)),
        q.spec_last() == Some(next),
    ensures
        models_lexemes(tk_punct(q)) == models_lexemes(tk_punct(p)) + model_lexemes(comma.raw_model())
            + models_lexemes(tk_component(next)),
{
    let n = p.spec_pairs().len() as int;
    let v = p.spec_last().unwrap();
    assert(p.spec_pairs().subrange(0, n) =~= q.spec_pairs().subrange(0, n));
    lemma_tk_pairs_prefix(p, q, n);
    assert(q.spec_pairs()[n] == (v, comma));
    assert(tk_pairs(q, n + 1) == tk_pairs(p, n) + tk_component(v) + seq![comma.raw_model()]);
    lemma_lexemes_append(tk_pairs(p, n) + tk_component(v), seq![comma.raw_model()]);
    lemma_lexemes_append(tk_pairs(p, n), tk_component(v));
    lemma_lexemes_single(comma.raw_model());
    lemma_lexemes_append(tk_pairs(q, n + 1), tk_component(next));
    lemma_lexemes_append(tk_pairs(p, n), tk_component(v));
    assert(tk_punct(p) == tk_pairs(p, n) + tk_component(v));
    assert(tk_punct(q) == tk_pairs(q, n + 1) + tk_component(next));
}

} // verus!
