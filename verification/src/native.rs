//! Direct construction of the typed graph from lexed cells.
//!
//! The native precedence engine owns parsing decisions only. Token storage,
//! cursor position, trivia skipping, and newline detection belong to
//! [`ParseStream`], shared with typed [`Parse`] implementations.
use vstd::prelude::*;
use vstd::utf8::encode_utf8;

use crate::cst::Token;
use crate::delim::{
    closing_text, opening_text, Delimiter, DelimiterKind, DelimiterToken, _AngleBarDelimiter, _BraceDelimiter,
    _BracketDelimiter, _ParenthesisDelimiter,
};
use crate::lexemes::{
    cell_lexemes, cells_framed, cells_lexemes, lemma_cells_lexemes_prefix, lemma_framed_index, lemma_lexemes_single, lemma_lx_angle_bar_list, lemma_lx_array, lemma_lx_assignment, lemma_lx_binary_assignment, lemma_lx_binary_expression, lemma_lx_binary_installation, lemma_lx_break_statement, lemma_lx_catch_statement, lemma_lx_continue_statement, lemma_lx_debug_clause, lemma_lx_else_clause, lemma_lx_evaluated_assignment, lemma_lx_except_clause, lemma_lx_expression_cell, lemma_lx_for_loop, lemma_lx_if_statement, lemma_lx_iteration_range, lemma_lx_lambda_expression, lemma_lx_list, lemma_lx_list_any_cell_push, lemma_lx_list_muted_group_push, lemma_lx_local_assignment, lemma_lx_local_structured_binding, lemma_lx_loop_body, lemma_lx_muted_cell, lemma_lx_muted_group, lemma_lx_naked_sequence, lemma_lx_new_statement, lemma_lx_option_expression, lemma_lx_parenthesized_expression, lemma_lx_postfix_assignment, lemma_lx_postfix_expression, lemma_lx_postfix_installation, lemma_lx_prefix_assignment, lemma_lx_prefix_expression, lemma_lx_prefix_installation, lemma_lx_punct_push, lemma_lx_punct_unpaired, lemma_lx_quote_expression, lemma_lx_return_statement, lemma_lx_sequence, lemma_lx_sequence_cell, lemma_lx_source_file, lemma_lx_structured_binding, lemma_lx_then_clause, lemma_lx_throw_statement, lemma_lx_trap_statement, lemma_lx_try_statement, lemma_lx_while_loop, lemma_segment_empty, lemma_segment_split, lemma_segment_token, lemma_segment_trivia, lemma_segment_whole, literal_framed, model_framed, model_lexemes, models_framed, models_lexemes, segment, word,
};
use crate::lexer::{canonical_keyword_spelling, lex_str, LexError};
use crate::nodes::{
    AngleBarList, AnyCell, Array, Assignment, AssignmentExpr, BinaryAssignment, BinaryExpression, BinaryInstallation, BindingPack, BreakStatement, CatchStatement, Collection, Component, ContinueStatement, DebugClause, DebugKeyword, ElseClause, EmptyComponent, EvaluatedAssignment, ExceptClause, Expr, ExpressionCell, FloatLiteral, ForLoop, IfStatement, IntegerLiteral, IterationRange, LambdaExpression, LambdaParameters, List, LocalAssignment, LocalStructuredBinding, LoopBody, MutedCell, MutedGroup, NakedSequence, NewStatement, OperatorExpr, OptionExpression, ParenthesizedExpression, PostfixAssignment, PostfixExpression, PostfixInstallation, PrefixAssignment, PrefixExpression, PrefixInstallation, QuoteExpression, QuoteSpecifier, RawStringContent, RawStringElement, RawStringLiteral, ReturnStatement, Sequence, SequenceCell, SourceFile, StringContent, StringElement, StringLiteral, StructuredBinding, Symbol, ThenClause, ThrowStatement, TrapStatement, TryFallback, TryStatement, WhileLoop, tk_any_cell, tk_binding_pack, tk_collection, tk_debug_keyword, tk_else_clause, tk_empty_component, tk_expr, tk_float_literal, tk_integer_literal, tk_iteration_range, tk_lambda_parameters, tk_list_any_cell, tk_list_muted_group, tk_list_raw_string_element, tk_list_string_element, tk_loop_body, tk_punct, tk_quote_specifier, tk_raw_string_literal, tk_source_file, tk_string_literal, tk_symbol, tk_then_clause, tk_try_fallback,
};
use crate::parse::{Lookahead, Parse, ParseStream, Parser, SignificantToken, TokenParseError};
use crate::punct::Punctuated;
use crate::span::{SourceId, Span, Spanned};
use crate::token_stream::{
    CellModel, CellStream, cells_text, LiteralKind, TokenModel, TokenStream, TokenTree, append_str, lemma_models_text_single, model_span, model_spelling, models_text, str_eq,
};
use crate::tokens::{
    operator_info_of, token_text, BinaryOperator, OperatorForm, PostfixOperator, PrefixOperator, Tok,
    _BreakKeyword, _BreakpointKeyword, _CatchKeyword, _Cma, _ColEql, _ContinueKeyword,
    _DoKeyword, _ElapsedTimeKeyword, _ElapsedTimingKeyword, _ElseKeyword, _Eql, _EqlGst,
    _ExceptKeyword, _FinishKeyword, _ForKeyword, _FromKeyword, _GlobalKeyword, _IfKeyword,
    _InKeyword, _ListKeyword, _LocalKeyword, _LstSub, _NewKeyword, _OfKeyword, _ProfileKeyword,
    _ReturnKeyword, _Scl, _ShieldKeyword, _Space, _StepKeyword, _SubGst, _SymbolKeyword,
    _TestKeyword, _ThenKeyword, _ThreadLocalKeyword, _ThreadVariableKeyword, _ThrowKeyword,
    _TimeKeyword, _TimingKeyword, _ToKeyword, _TrapKeyword, _TryKeyword, _WhenKeyword,
    _WhileKeyword,
};

verus! {

/// Precedence of a closing boundary: nothing binds across it.
pub const PREC_CLOSER: u8 = 6;

/// Precedence of `;`.
pub const PREC_SEMICOLON: u8 = 8;

/// Precedence of `,`.
pub const PREC_COMMA: u8 = 10;

/// Precedence of the clause keywords of control forms.
pub const PREC_CONTROL: u8 = 12;

/// Precedence of the clause keywords of loops and `new`.
pub const PREC_LOOP_CLAUSE: u8 = 16;

/// Precedence of brackets and angle bars in operand position.
pub const PREC_COLLECTION: u8 = 56;

/// Binding strength of the right operand of implicit application.
pub const PREC_APPLICATION_RIGHT: u8 = 61;

/// Precedence of implicit application.
pub const PREC_APPLICATION: u8 = 62;

/// Binding strength of a quoted token.
pub const PREC_QUOTE: u8 = 74;

/// An error produced while parsing source natively.
#[derive(Debug, Clone, PartialEq, Eq)]
pub enum NativeParseError {
    Lex(LexError),
    Unexpected { found: String, expected: &'static str, span: Span },
    MissingOperand { operator: String, span: Span },
    NewlineInApplication { span: Span },
    InvalidAssignmentTarget { span: Span },
    InvalidLambdaParameters { span: Span },
    Unsupported { syntax: String, span: Span },
}

impl Spanned for NativeParseError {
    open spec fn spec_span(&self) -> Span {
        match self {
            NativeParseError::Lex(error) => error.span,
            NativeParseError::Unexpected { span, .. } => *span,
            NativeParseError::MissingOperand { span, .. } => *span,
            NativeParseError::NewlineInApplication { span } => *span,
            NativeParseError::InvalidAssignmentTarget { span } => *span,
            NativeParseError::InvalidLambdaParameters { span } => *span,
            NativeParseError::Unsupported { span, .. } => *span,
        }
    }

    fn span(&self) -> (span: Span) {
        match self {
            NativeParseError::Lex(error) => error.span,
            NativeParseError::Unexpected { span, .. } => *span,
            NativeParseError::MissingOperand { span, .. } => *span,
            NativeParseError::NewlineInApplication { span } => *span,
            NativeParseError::InvalidAssignmentTarget { span } => *span,
            NativeParseError::InvalidLambdaParameters { span } => *span,
            NativeParseError::Unsupported { span, .. } => *span,
        }
    }
}

impl NativeParseError {
    /// The diagnostic text of this error.
    pub fn to_string(&self) -> (text: String)
        ensures
            text@ == (match self {
                NativeParseError::Lex(error) => crate::lexer::lex_error_message(error.kind),
                NativeParseError::Unexpected { found, expected, .. } => "expected "@ + expected@
                    + ", found `"@ + found@ + "`"@,
                NativeParseError::MissingOperand { operator, .. } => "operator `"@ + operator@
                    + "` requires an operand"@,
                NativeParseError::NewlineInApplication { .. } =>
                    "implicit application cannot cross a line break"@,
                NativeParseError::InvalidAssignmentTarget { .. } => "invalid assignment target"@,
                NativeParseError::InvalidLambdaParameters { .. } =>
                    "invalid lambda parameter list"@,
                NativeParseError::Unsupported { syntax, .. } => "native parsing of `"@ + syntax@
                    + "` is not implemented yet"@,
            }),
    {
        let mut text = String::new();
        match self {
            NativeParseError::Lex(error) => append_str(&mut text, error.message()),
            NativeParseError::Unexpected { found, expected, .. } => {
                append_str(&mut text, "expected ");
                append_str(&mut text, expected);
                append_str(&mut text, ", found `");
                append_str(&mut text, found.as_str());
                append_str(&mut text, "`");
            },
            NativeParseError::MissingOperand { operator, .. } => {
                append_str(&mut text, "operator `");
                append_str(&mut text, operator.as_str());
                append_str(&mut text, "` requires an operand");
            },
            NativeParseError::NewlineInApplication { .. } => {
                append_str(&mut text, "implicit application cannot cross a line break");
            },
            NativeParseError::InvalidAssignmentTarget { .. } => {
                append_str(&mut text, "invalid assignment target");
            },
            NativeParseError::InvalidLambdaParameters { .. } => {
                append_str(&mut text, "invalid lambda parameter list");
            },
            NativeParseError::Unsupported { syntax, .. } => {
                append_str(&mut text, "native parsing of `");
                append_str(&mut text, syntax.as_str());
                append_str(&mut text, "` is not implemented yet");
            },
        }
        proof {
            assert(text@ =~= (match self {
                NativeParseError::Lex(error) => crate::lexer::lex_error_message(error.kind),
                NativeParseError::Unexpected { found, expected, .. } => "expected "@ + expected@
                    + ", found `"@ + found@ + "`"@,
                NativeParseError::MissingOperand { operator, .. } => "operator `"@ + operator@
                    + "` requires an operand"@,
                NativeParseError::NewlineInApplication { .. } =>
                    "implicit application cannot cross a line break"@,
                NativeParseError::InvalidAssignmentTarget { .. } => "invalid assignment target"@,
                NativeParseError::InvalidLambdaParameters { .. } =>
                    "invalid lambda parameter list"@,
                NativeParseError::Unsupported { syntax, .. } => "native parsing of `"@ + syntax@
                    + "` is not implemented yet"@,
            }));
        }
        text
    }
}

/// How the engine treats a token in operand position.
///
/// This is not a syntax category and is never stored in the token stream or
/// the typed graph; [`parse_info`] derives it from the current raw token.
#[derive(Debug, Clone, Copy, PartialEq, Eq, Structural)]
pub enum UnaryAction {
    Atom,
    Prefix,
    Statement,
    Control,
    Debug,
    Delimiter,
    Quote,
    Error,
}

/// The precedence and binding strengths of one token.
#[derive(Debug, Clone, Copy, PartialEq, Eq, Structural)]
pub struct ParseInfo {
    pub precedence: u8,
    pub binary_strength: Option<u8>,
    pub unary_strength: Option<u8>,
    pub unary: UnaryAction,
    pub postfix: bool,
}

pub open spec fn info(
    precedence: u8,
    binary_strength: Option<u8>,
    unary_strength: Option<u8>,
    unary: UnaryAction,
    postfix: bool,
) -> ParseInfo {
    ParseInfo { precedence, binary_strength, unary_strength, unary, postfix }
}

/// The words whose unary action is a prefix statement.
pub open spec fn is_statement_keyword(m: TokenModel) -> bool {
    _BreakKeyword::spec_matches(m) || _ContinueKeyword::spec_matches(m)
        || _ReturnKeyword::spec_matches(m) || _CatchKeyword::spec_matches(m)
        || _ThrowKeyword::spec_matches(m) || _TrapKeyword::spec_matches(m)
}

/// The words whose unary action is a control form.
pub open spec fn is_control_keyword(m: TokenModel) -> bool {
    _IfKeyword::spec_matches(m) || _ForKeyword::spec_matches(m) || _WhileKeyword::spec_matches(m)
        || _TryKeyword::spec_matches(m) || _NewKeyword::spec_matches(m)
}

/// The words whose unary action is a debugging clause.
pub open spec fn is_debug_keyword(m: TokenModel) -> bool {
    _TestKeyword::spec_matches(m) || _TimeKeyword::spec_matches(m) || _TimingKeyword::spec_matches(
        m,
    ) || _ElapsedTimeKeyword::spec_matches(m) || _ElapsedTimingKeyword::spec_matches(m)
        || _BreakpointKeyword::spec_matches(m) || _ProfileKeyword::spec_matches(m)
        || _ShieldKeyword::spec_matches(m) || _StepKeyword::spec_matches(m)
        || _FinishKeyword::spec_matches(m)
}

/// The words whose unary action quotes the next token.
pub open spec fn is_quote_keyword(m: TokenModel) -> bool {
    _SymbolKeyword::spec_matches(m) || _GlobalKeyword::spec_matches(m)
        || _ThreadVariableKeyword::spec_matches(m) || _ThreadLocalKeyword::spec_matches(m)
        || _LocalKeyword::spec_matches(m)
}

/// Facts about a token's parse information that the engine relies on.
pub open spec fn info_fits(m: TokenModel, i: ParseInfo) -> bool {
    &&& i.unary is Prefix ==> i.unary_strength is Some
    &&& i.unary is Statement ==> i.unary_strength is Some && is_statement_keyword(m)
    &&& i.unary is Control ==> is_control_keyword(m)
    &&& i.unary is Debug ==> is_debug_keyword(m)
    &&& i.unary is Delimiter ==> m is Group
    &&& i.unary is Quote ==> is_quote_keyword(m)
}

/// The spelling the engine dispatches on: the canonical keyword of a spelled
/// atom, and nothing for groups and trivia.
pub fn parsing_spelling(token: &TokenTree) -> (text: &str)
    ensures
        text@ == match model_spelling(token@) {
            Some(s) => crate::lexer::spec_canonical_keyword(s),
            None => seq![],
        },
{
    match token.spelling() {
        Some(spelling) => canonical_keyword_spelling(spelling),
        None => {
            proof {
                reveal_strlit("");
            }
            ""
        },
    }
}

/// The declared binding of the first operator kind from `k` on that is spelled `text`.
pub open spec fn operator_info_from(text: Seq<char>, k: int) -> Option<crate::tokens::OperatorInfo>
    decreases 110 - k,
{
    if k < 0 || k >= 110 {
        None
    } else if crate::tokens::token_spelling(k as u16) == text && crate::tokens::operator_info(
        k as u16,
    ) is Some {
        crate::tokens::operator_info(k as u16)
    } else {
        operator_info_from(text, k + 1)
    }
}

/// The parse information of a group of kind `kind`.
pub open spec fn group_info(kind: DelimiterKind) -> ParseInfo {
    match kind {
        DelimiterKind::Empty | DelimiterKind::Semicolon => info(
            PREC_CLOSER,
            None,
            None,
            UnaryAction::Error,
            false,
        ),
        DelimiterKind::Bracket | DelimiterKind::AngleBar => info(
            PREC_COLLECTION,
            None,
            Some(PREC_CLOSER),
            UnaryAction::Delimiter,
            false,
        ),
        DelimiterKind::Parenthesis | DelimiterKind::Brace => info(
            PREC_APPLICATION,
            None,
            Some(PREC_CLOSER),
            UnaryAction::Delimiter,
            false,
        ),
    }
}

/// The parse information of a declared operator binding.
pub open spec fn operator_parse_info(op: crate::tokens::OperatorInfo) -> ParseInfo {
    match op.form {
        OperatorForm::Binary => info(
            op.precedence,
            Some(op.binary_strength),
            None,
            UnaryAction::Error,
            false,
        ),
        OperatorForm::PrefixBinary => info(
            op.precedence,
            Some(op.binary_strength),
            Some(op.unary_strength),
            UnaryAction::Prefix,
            false,
        ),
        OperatorForm::Prefix => info(
            op.precedence,
            None,
            Some(op.unary_strength),
            UnaryAction::Prefix,
            false,
        ),
        OperatorForm::Postfix => info(op.precedence, None, None, UnaryAction::Error, true),
    }
}

/// How the engine treats a token: groups by their kind, declared operators by
/// their binding, then separators, clause words, statement, control, debugging
/// and quoting keywords, and finally atoms.
pub open spec fn parse_info_spec(m: TokenModel) -> ParseInfo {
    let text = match model_spelling(m) {
        Some(t) => crate::lexer::spec_canonical_keyword(t),
        None => seq![],
    };
    if let TokenModel::Group { delimiter, .. } = m {
        group_info(delimiter.kind)
    } else if let Some(op) = operator_info_from(text, 0) {
        operator_parse_info(op)
    } else if _Scl::spec_matches(m) {
        info(PREC_SEMICOLON, None, None, UnaryAction::Error, false)
    } else if _Cma::spec_matches(m) {
        info(PREC_COMMA, None, None, UnaryAction::Error, false)
    } else if _ElseKeyword::spec_matches(m) || _ThenKeyword::spec_matches(m)
        || _DoKeyword::spec_matches(m) || _ListKeyword::spec_matches(m)
        || _ExceptKeyword::spec_matches(m) {
        info(PREC_CONTROL, None, None, UnaryAction::Error, false)
    } else if _WhenKeyword::spec_matches(m) || _OfKeyword::spec_matches(m)
        || _InKeyword::spec_matches(m) || _FromKeyword::spec_matches(m)
        || _ToKeyword::spec_matches(m) {
        info(PREC_LOOP_CLAUSE, None, None, UnaryAction::Error, false)
    } else if is_statement_keyword(m) {
        info(PREC_APPLICATION, None, Some(PREC_CONTROL), UnaryAction::Statement, false)
    } else if _ForKeyword::spec_matches(m) || _NewKeyword::spec_matches(m) {
        info(PREC_APPLICATION, None, Some(PREC_LOOP_CLAUSE), UnaryAction::Control, false)
    } else if _IfKeyword::spec_matches(m) || _WhileKeyword::spec_matches(m)
        || _TryKeyword::spec_matches(m) {
        info(PREC_APPLICATION, None, Some(PREC_CONTROL), UnaryAction::Control, false)
    } else if is_debug_keyword(m) {
        info(PREC_APPLICATION, None, Some(PREC_CONTROL), UnaryAction::Debug, false)
    } else if is_quote_keyword(m) {
        info(PREC_APPLICATION, None, Some(PREC_QUOTE), UnaryAction::Quote, false)
    } else if m is Ident || m is Literal {
        info(PREC_APPLICATION, None, None, UnaryAction::Atom, false)
    } else {
        info(PREC_APPLICATION, None, None, UnaryAction::Error, false)
    }
}

/// The declared binding of the operator spelled `text`, if any.
fn operator_info_for(text: &str) -> (r: Option<crate::tokens::OperatorInfo>)
    ensures
        r == operator_info_from(text@, 0),
{
    let mut k: u16 = 0;
    while k < 110
        invariant
            k <= 110,
            operator_info_from(text@, 0) == operator_info_from(text@, k as int),
        decreases 110 - k,
    {
        if str_eq(token_text(k), text) {
            match operator_info_of(k) {
                Some(info) => return Some(info),
                None => {},
            }
        }
        k = k + 1;
    }
    None
}

/// Derives how the engine treats `token`.
pub fn parse_info(token: &TokenTree) -> (r: ParseInfo)
    ensures
        r == parse_info_spec(token@),
        info_fits(token@, r),
{
    if let TokenTree::Group(group) = token {
        return match group.delim_kind() {
            DelimiterKind::Empty | DelimiterKind::Semicolon => ParseInfo {
                precedence: PREC_CLOSER,
                binary_strength: None,
                unary_strength: None,
                unary: UnaryAction::Error,
                postfix: false,
            },
            DelimiterKind::Bracket | DelimiterKind::AngleBar => ParseInfo {
                precedence: PREC_COLLECTION,
                binary_strength: None,
                unary_strength: Some(PREC_CLOSER),
                unary: UnaryAction::Delimiter,
                postfix: false,
            },
            DelimiterKind::Parenthesis | DelimiterKind::Brace => ParseInfo {
                precedence: PREC_APPLICATION,
                binary_strength: None,
                unary_strength: Some(PREC_CLOSER),
                unary: UnaryAction::Delimiter,
                postfix: false,
            },
        };
    }
    let text = parsing_spelling(token);
    if let Some(op) = operator_info_for(text) {
        return match op.form {
            OperatorForm::Binary => ParseInfo {
                precedence: op.precedence,
                binary_strength: Some(op.binary_strength),
                unary_strength: None,
                unary: UnaryAction::Error,
                postfix: false,
            },
            OperatorForm::PrefixBinary => ParseInfo {
                precedence: op.precedence,
                binary_strength: Some(op.binary_strength),
                unary_strength: Some(op.unary_strength),
                unary: UnaryAction::Prefix,
                postfix: false,
            },
            OperatorForm::Prefix => ParseInfo {
                precedence: op.precedence,
                binary_strength: None,
                unary_strength: Some(op.unary_strength),
                unary: UnaryAction::Prefix,
                postfix: false,
            },
            OperatorForm::Postfix => ParseInfo {
                precedence: op.precedence,
                binary_strength: None,
                unary_strength: None,
                unary: UnaryAction::Error,
                postfix: true,
            },
        };
    }
    if _Scl::matches_token_tree(token) {
        return ParseInfo {
            precedence: PREC_SEMICOLON,
            binary_strength: None,
            unary_strength: None,
            unary: UnaryAction::Error,
            postfix: false,
        };
    }
    if _Cma::matches_token_tree(token) {
        return ParseInfo {
            precedence: PREC_COMMA,
            binary_strength: None,
            unary_strength: None,
            unary: UnaryAction::Error,
            postfix: false,
        };
    }
    if _ElseKeyword::matches_token_tree(token) || _ThenKeyword::matches_token_tree(token)
        || _DoKeyword::matches_token_tree(token) || _ListKeyword::matches_token_tree(token)
        || _ExceptKeyword::matches_token_tree(token) {
        return ParseInfo {
            precedence: PREC_CONTROL,
            binary_strength: None,
            unary_strength: None,
            unary: UnaryAction::Error,
            postfix: false,
        };
    }
    if _WhenKeyword::matches_token_tree(token) || _OfKeyword::matches_token_tree(token)
        || _InKeyword::matches_token_tree(token) || _FromKeyword::matches_token_tree(token)
        || _ToKeyword::matches_token_tree(token) {
        return ParseInfo {
            precedence: PREC_LOOP_CLAUSE,
            binary_strength: None,
            unary_strength: None,
            unary: UnaryAction::Error,
            postfix: false,
        };
    }
    if _BreakKeyword::matches_token_tree(token) || _ContinueKeyword::matches_token_tree(token)
        || _ReturnKeyword::matches_token_tree(token) || _CatchKeyword::matches_token_tree(token)
        || _ThrowKeyword::matches_token_tree(token) || _TrapKeyword::matches_token_tree(token) {
        return ParseInfo {
            precedence: PREC_APPLICATION,
            binary_strength: None,
            unary_strength: Some(PREC_CONTROL),
            unary: UnaryAction::Statement,
            postfix: false,
        };
    }
    let control_strength = if _ForKeyword::matches_token_tree(token)
        || _NewKeyword::matches_token_tree(token) {
        Some(PREC_LOOP_CLAUSE)
    } else if _IfKeyword::matches_token_tree(token) || _WhileKeyword::matches_token_tree(token)
        || _TryKeyword::matches_token_tree(token) {
        Some(PREC_CONTROL)
    } else {
        None
    };
    if let Some(strength) = control_strength {
        return ParseInfo {
            precedence: PREC_APPLICATION,
            binary_strength: None,
            unary_strength: Some(strength),
            unary: UnaryAction::Control,
            postfix: false,
        };
    }
    if _TestKeyword::matches_token_tree(token) || _TimeKeyword::matches_token_tree(token)
        || _TimingKeyword::matches_token_tree(token) || _ElapsedTimeKeyword::matches_token_tree(
        token,
    ) || _ElapsedTimingKeyword::matches_token_tree(token)
        || _BreakpointKeyword::matches_token_tree(token) || _ProfileKeyword::matches_token_tree(
        token,
    ) || _ShieldKeyword::matches_token_tree(token) || _StepKeyword::matches_token_tree(token)
        || _FinishKeyword::matches_token_tree(token) {
        return ParseInfo {
            precedence: PREC_APPLICATION,
            binary_strength: None,
            unary_strength: Some(PREC_CONTROL),
            unary: UnaryAction::Debug,
            postfix: false,
        };
    }
    if _SymbolKeyword::matches_token_tree(token) || _GlobalKeyword::matches_token_tree(token)
        || _ThreadVariableKeyword::matches_token_tree(token)
        || _ThreadLocalKeyword::matches_token_tree(token) || _LocalKeyword::matches_token_tree(
        token,
    ) {
        return ParseInfo {
            precedence: PREC_APPLICATION,
            binary_strength: None,
            unary_strength: Some(PREC_QUOTE),
            unary: UnaryAction::Quote,
            postfix: false,
        };
    }
    match token {
        TokenTree::Ident(_) | TokenTree::Literal(_) => ParseInfo {
            precedence: PREC_APPLICATION,
            binary_strength: None,
            unary_strength: None,
            unary: UnaryAction::Atom,
            postfix: false,
        },
        _ => ParseInfo {
            precedence: PREC_APPLICATION,
            binary_strength: None,
            unary_strength: None,
            unary: UnaryAction::Error,
            postfix: false,
        },
    }
}

// ---------------------------------------------------------------------------
// Termination measure
// ---------------------------------------------------------------------------
/// The number of token trees in `m`, counting nested trees.
pub open spec fn tree_size(m: TokenModel) -> nat
    decreases m, 0int,
{
    match m {
        TokenModel::Group { stream, .. } => 1 + suffix_size(stream, 0),
        _ => 1,
    }
}

/// The number of token trees from position `p` on, counting nested trees.
pub open spec fn suffix_size(s: Seq<TokenModel>, p: int) -> nat
    decreases s, s.len() - p,
{
    if p < 0 || p >= s.len() {
        0
    } else {
        tree_size(s[p]) + suffix_size(s, p + 1)
    }
}

proof fn lemma_tree_size_positive(m: TokenModel)
    ensures
        tree_size(m) >= 1,
{
}

proof fn lemma_suffix_mono(s: Seq<TokenModel>, p: int, q: int)
    requires
        0 <= p <= q,
    ensures
        suffix_size(s, q) <= suffix_size(s, p),
    decreases q - p,
{
    if p < q {
        lemma_suffix_mono(s, p + 1, q);
    }
}

proof fn lemma_suffix_consume(s: Seq<TokenModel>, p: int, q: int)
    requires
        0 <= p <= q < s.len(),
    ensures
        suffix_size(s, q + 1) + tree_size(s[q]) <= suffix_size(s, p),
    decreases q - p,
{
    if p < q {
        lemma_suffix_consume(s, p + 1, q);
    }
}

// ---------------------------------------------------------------------------
// Diagnostics
// ---------------------------------------------------------------------------
/// How the engine names a token in diagnostics: a group by its opening
/// delimiter, trivia by its text, and an atom by its spelling.
pub open spec fn native_description(m: TokenModel) -> Seq<char> {
    match m {
        TokenModel::Group { delimiter, .. } => crate::delim::opening_text(delimiter.kind),
        TokenModel::Trivia { text, .. } => text,
        _ => match model_spelling(m) {
            Some(text) => text,
            None => seq![],
        },
    }
}

/// The diagnostic name of a token.
pub fn describe(token: &TokenTree) -> (text: String)
    ensures
        text@ == native_description(token@),
{
    let mut text = String::new();
    match token {
        TokenTree::Group(group) => append_str(&mut text, group.delim_kind().opening()),
        TokenTree::Trivia(trivia) => append_str(&mut text, trivia.text.as_str()),
        _ => match token.spelling() {
            Some(spelling) => append_str(&mut text, spelling),
            None => {},
        },
    }
    proof {
        assert(text@ =~= native_description(token@));
    }
    text
}

fn owned(text: &str) -> (owned: String)
    ensures
        owned@ == text@,
{
    text.to_owned()
}

fn unexpected(token: &TokenTree, expected: &'static str) -> (error: NativeParseError)
    ensures
        error == (NativeParseError::Unexpected {
            found: error->Unexpected_found,
            expected,
            span: model_span(token@),
        }),
        error->Unexpected_found@ == native_description(token@),
{
    NativeParseError::Unexpected { found: describe(token), expected, span: token.span() }
}

fn end_of_input(expected: &'static str, span: Span) -> (error: NativeParseError)
    ensures
        error matches NativeParseError::Unexpected { found, expected: e, span: s } && found@
            == "end of input"@ && e == expected && s == span,
{
    NativeParseError::Unexpected { found: owned("end of input"), expected, span }
}

/// Replaces a missing-operand error raised below `keyword` by one naming it.
fn blame_missing_operand(error: NativeParseError, keyword: &TokenTree) -> (blamed: NativeParseError)
    ensures
        !(error is Lex) ==> !(blamed is Lex),
        error is MissingOperand ==> (blamed matches NativeParseError::MissingOperand {
            operator,
            span,
        } && operator@ == native_description(keyword@) && span == model_span(keyword@)),
        !(error is MissingOperand) ==> blamed == error,
{
    match error {
        NativeParseError::MissingOperand { .. } => NativeParseError::MissingOperand {
            operator: describe(keyword),
            span: keyword.span(),
        },
        error => error,
    }
}

fn typed<T: Token>(token: TokenTree) -> (t: T)
    requires
        T::spec_matches(token@),
    ensures
        t.spec_raw() == token@,
{
    T::from_token_tree(token).unwrap()
}

// ---------------------------------------------------------------------------
// Lowering of consumed atoms
// ---------------------------------------------------------------------------
/// The characters of `text` between `skip` leading and `skip` trailing ones.
fn inner_text(text: &str, skip: usize) -> (inner: &str)
    requires
        skip <= 3,
    ensures
        text@.len() >= 2 * skip ==> inner@ == text@.subrange(skip as int, text@.len() - skip),
        text@.len() < 2 * skip ==> inner@.len() == 0,
{
    let len = text.unicode_len();
    if len < 2 * skip {
        proof {
            reveal_strlit("");
        }
        ""
    } else {
        text.substring_char(skip, len - skip)
    }
}

fn lower_string_literal(text: &str, span: Span) -> (e: Expr)
    ensures
        literal_framed(LiteralKind::String, text@) ==> lx(e) == word(text@),
        !(e is OperatorExpr),
{
    let body = inner_text(text, 1);
    let mut elements: Vec<StringElement> = Vec::new();
    if body.unicode_len() != 0 {
        elements.push(StringElement::StringContent(StringContent::new(body, span)));
    }
    let literal = StringLiteral::new(elements);
    proof {
        if literal_framed(LiteralKind::String, text@) {
            let c1 = Seq::<TokenModel>::empty() + tk_list_string_element(literal.elements@, literal.elements@.len() as int);
            if body@.len() == 0 {
                assert(c1 =~= Seq::<TokenModel>::empty());
                assert(models_text(c1) =~= Seq::<char>::empty());
            } else {
                assert(c1 =~= seq![TokenModel::Ident { text: body@, span }]);
                lemma_models_text_single(TokenModel::Ident { text: body@, span });
            }
            assert(seq!['"'] + models_text(c1) + seq!['"'] =~= text@);
            lemma_lexemes_single(tk_string_literal(literal)[0]);
        }
    }
    Expr::StringLiteral(literal)
}

fn lower_raw_string_literal(text: &str, span: Span) -> (e: Expr)
    ensures
        literal_framed(LiteralKind::RawString, text@) ==> lx(e) == word(text@),
        !(e is OperatorExpr),
{
    let body = inner_text(text, 3);
    let mut elements: Vec<RawStringElement> = Vec::new();
    if body.unicode_len() != 0 {
        elements.push(RawStringElement::RawStringContent(RawStringContent::new(body, span)));
    }
    let literal = RawStringLiteral::new(elements);
    proof {
        if literal_framed(LiteralKind::RawString, text@) {
            let c1 = Seq::<TokenModel>::empty() + tk_list_raw_string_element(literal.elements@, literal.elements@.len() as int);
            if body@.len() == 0 {
                assert(c1 =~= Seq::<TokenModel>::empty());
                assert(models_text(c1) =~= Seq::<char>::empty());
            } else {
                assert(c1 =~= seq![TokenModel::Ident { text: body@, span }]);
                lemma_models_text_single(TokenModel::Ident { text: body@, span });
            }
            let t = text@;
            assert(t =~= t.subrange(0, 3) + t.subrange(3, t.len() - 3) + t.subrange(t.len() - 3, t.len() as int));
            assert(seq!['/', '/', '/'] + models_text(c1) + seq!['/', '/', '/'] =~= text@);
            lemma_lexemes_single(tk_raw_string_literal(literal)[0]);
        }
    }
    Expr::RawStringLiteral(literal)
}

fn lower_atom(token: TokenTree) -> (r: Result<Expr, NativeParseError>)
    ensures
        r matches Err(e) ==> !(e is Lex),
        r is Ok <==> (token@ is Ident || token@ is Literal),
        token@ is Ident ==> r matches Ok(Expr::Symbol(_)),
        r matches Err(e) ==> (e matches NativeParseError::Unexpected { found, expected, span }
            && expected == "an expression" && span == model_span(token@) && found@
            == native_description(token@)),
        r matches Ok(e) ==> (model_framed(token@) ==> lx(e) == model_lexemes(token@)),
        r matches Ok(e) ==> !(e is OperatorExpr),
{
    match token {
        TokenTree::Ident(ident) => {
            let symbol = Symbol::new(ident.text.as_str(), ident.span);
            proof {
                lemma_lexemes_single(tk_symbol(symbol)[0]);
            }
            Ok(Expr::Symbol(symbol))
        },
        TokenTree::Literal(literal) => {
            let span = literal.span;
            let text = literal.text.as_str();
            let e = match literal.kind {
                LiteralKind::Integer => {
                    let value = IntegerLiteral::new(text, span);
                    proof {
                        lemma_lexemes_single(tk_integer_literal(value)[0]);
                    }
                    Expr::IntegerLiteral(value)
                },
                LiteralKind::Float => {
                    let value = FloatLiteral::new(text, span);
                    proof {
                        lemma_lexemes_single(tk_float_literal(value)[0]);
                    }
                    Expr::FloatLiteral(value)
                },
                LiteralKind::String => lower_string_literal(text, span),
                LiteralKind::RawString => lower_raw_string_literal(text, span),
            };
            Ok(e)
        },
        token => Err(unexpected(&token, "an expression")),
    }
}

fn binding_pack(collection: Collection) -> (pack: BindingPack)
    ensures
        tk_binding_pack(pack) == tk_collection(collection),
{
    match collection {
        Collection::ParenthesizedExpression(value) => BindingPack::ParenthesizedExpression(value),
        Collection::Sequence(value) => BindingPack::Sequence(value),
        Collection::List(value) => BindingPack::List(value),
        Collection::Array(value) => BindingPack::Array(value),
        Collection::AngleBarList(value) => BindingPack::AngleBarList(value),
    }
}

fn lambda_parameters(expression: Expr) -> (parameters: Option<LambdaParameters>)
    ensures
        parameters is Some <==> (expression is Symbol || expression is Collection),
        parameters matches Some(p) ==> tk_lambda_parameters(p) == tk_expr(expression),
{
    match expression {
        Expr::Symbol(value) => Some(LambdaParameters::Symbol(value)),
        Expr::Collection(Collection::ParenthesizedExpression(value)) => Some(
            LambdaParameters::ParenthesizedExpression(value),
        ),
        Expr::Collection(Collection::Sequence(value)) => Some(LambdaParameters::Sequence(value)),
        Expr::Collection(Collection::List(value)) => Some(LambdaParameters::List(value)),
        Expr::Collection(Collection::Array(value)) => Some(LambdaParameters::Array(value)),
        Expr::Collection(Collection::AngleBarList(value)) => Some(
            LambdaParameters::AngleBarList(value),
        ),
        _ => None,
    }
}

fn lower_global_assignment(left: Expr, operator: _Eql, right: Expr) -> (r: Result<
    Expr,
    NativeParseError,
>)
    ensures
        r matches Err(e) ==> !(e is Lex),
        r matches Ok(e) ==> lx(e) == lx(left) + model_lexemes(operator.raw_model()) + lx(right),
        r matches Ok(e) ==> !(e is OperatorExpr),
{
    let span = operator.span();
    let ghost parts = lx(left) + model_lexemes(operator.raw_model()) + lx(right);
    proof {
        lemma_lexemes_single(operator.raw_model());
    }
    let result = match left {
        Expr::Symbol(left) => {
            let node = Assignment::new(left, operator, right);
            proof {
                lemma_lx_assignment(node);
            }
            AssignmentExpr::Assignment(node)
        },
        Expr::Collection(left) => {
            let node = StructuredBinding::new(binding_pack(left), operator, right);
            proof {
                lemma_lx_structured_binding(node);
            }
            AssignmentExpr::StructuredBinding(node)
        },
        Expr::OperatorExpr(OperatorExpr::BinaryExpression(left)) => {
            let node = BinaryAssignment::new(left, operator, right);
            proof {
                lemma_lx_binary_assignment(node);
            }
            AssignmentExpr::BinaryAssignment(node)
        },
        Expr::OperatorExpr(OperatorExpr::PrefixExpression(left)) => {
            let node = PrefixAssignment::new(left, operator, right);
            proof {
                lemma_lx_prefix_assignment(node);
            }
            AssignmentExpr::PrefixAssignment(node)
        },
        Expr::OperatorExpr(OperatorExpr::PostfixExpression(left)) => {
            let node = PostfixAssignment::new(left, operator, right);
            proof {
                lemma_lx_postfix_assignment(node);
            }
            AssignmentExpr::PostfixAssignment(node)
        },
        _ => return Err(NativeParseError::InvalidAssignmentTarget { span }),
    };
    proof {
        assert(lx(Expr::AssignmentExpr(result)) == parts);
    }
    Ok(Expr::AssignmentExpr(result))
}

fn lower_local_assignment(left: Expr, operator: _ColEql, right: Expr) -> (r: Result<
    Expr,
    NativeParseError,
>)
    ensures
        r matches Err(e) ==> !(e is Lex),
        r matches Ok(e) ==> lx(e) == lx(left) + model_lexemes(operator.raw_model()) + lx(right),
        r matches Ok(e) ==> !(e is OperatorExpr),
{
    let span = operator.span();
    let ghost parts = lx(left) + model_lexemes(operator.raw_model()) + lx(right);
    proof {
        lemma_lexemes_single(operator.raw_model());
    }
    let result = match left {
        Expr::Symbol(left) => {
            let node = LocalAssignment::new(left, operator, right);
            proof {
                lemma_lx_local_assignment(node);
            }
            AssignmentExpr::LocalAssignment(node)
        },
        Expr::Collection(left) => {
            let node = LocalStructuredBinding::new(binding_pack(left), operator, right);
            proof {
                lemma_lx_local_structured_binding(node);
            }
            AssignmentExpr::LocalStructuredBinding(node)
        },
        Expr::OperatorExpr(OperatorExpr::BinaryExpression(left)) => {
            let node = BinaryInstallation::new(left, operator, right);
            proof {
                lemma_lx_binary_installation(node);
            }
            AssignmentExpr::BinaryInstallation(node)
        },
        Expr::OperatorExpr(OperatorExpr::PrefixExpression(left)) => {
            let node = PrefixInstallation::new(left, operator, right);
            proof {
                lemma_lx_prefix_installation(node);
            }
            AssignmentExpr::PrefixInstallation(node)
        },
        Expr::OperatorExpr(OperatorExpr::PostfixExpression(left)) => {
            let node = PostfixInstallation::new(left, operator, right);
            proof {
                lemma_lx_postfix_installation(node);
            }
            AssignmentExpr::PostfixInstallation(node)
        },
        _ => return Err(NativeParseError::InvalidAssignmentTarget { span }),
    };
    proof {
        assert(lx(Expr::AssignmentExpr(result)) == parts);
    }
    Ok(Expr::AssignmentExpr(result))
}

/// Builds the node of an infix operator application.
fn lower_binary(left: Expr, operator: TokenTree, right: Expr) -> (r: Result<Expr, NativeParseError>)
    ensures
        r matches Err(e) ==> !(e is Lex),
        r matches Ok(e) ==> lx(e) == lx(left) + model_lexemes(operator@) + lx(right),
        r matches Ok(Expr::OperatorExpr(OperatorExpr::BinaryExpression(b))) ==> *b.left == left
            && *b.right == right && b.operator.raw_model() == operator@,
        r matches Ok(e) ==> (e is OperatorExpr ==> is_binary_expr(e)),
{
    let span = operator.span();
    let ghost parts = lx(left) + model_lexemes(operator@) + lx(right);
    proof {
        lemma_lexemes_single(operator@);
    }
    if _Eql::matches_token_tree(&operator) {
        lower_global_assignment(left, typed(operator), right)
    } else if _ColEql::matches_token_tree(&operator) {
        lower_local_assignment(left, typed(operator), right)
    } else if _LstSub::matches_token_tree(&operator) {
        let node = EvaluatedAssignment::new(left, typed(operator), right);
        proof {
            lemma_lx_evaluated_assignment(node);
        }
        Ok(Expr::AssignmentExpr(AssignmentExpr::EvaluatedAssignment(node)))
    } else if _EqlGst::matches_token_tree(&operator) {
        let node = OptionExpression::new(left, typed(operator), right);
        proof {
            lemma_lx_option_expression(node);
        }
        Ok(Expr::OptionExpression(node))
    } else if _SubGst::matches_token_tree(&operator) {
        let ghost left_lexemes = lx(left);
        match lambda_parameters(left) {
            Some(parameters) => {
                let node = LambdaExpression::new(parameters, typed(operator), right);
                proof {
                    lemma_lx_lambda_expression(node);
                }
                Ok(Expr::LambdaExpression(node))
            },
            None => Err(NativeParseError::InvalidLambdaParameters { span }),
        }
    } else {
        let syntax = describe(&operator);
        match BinaryOperator::from_token_tree(operator) {
            Some(operator) => {
                let node = BinaryExpression::new(left, operator, right);
                proof {
                    lemma_lx_binary_expression(node);
                }
                Ok(Expr::OperatorExpr(OperatorExpr::BinaryExpression(node)))
            },
            None => Err(NativeParseError::Unsupported { syntax, span }),
        }
    }
}

fn only_expression(components: Punctuated<Component>, eof: Span) -> (r: Result<
    Expr,
    NativeParseError,
>)
    ensures
        r matches Err(e) ==> !(e is Lex),
        r is Ok ==> components.values().len() == 1,
        r matches Ok(e) ==> (components.spec_last() is Some ==> lx(e) == models_lexemes(
            tk_punct(components),
        )),
        r matches Ok(e) ==> (components_grouped(components) ==> grouped_by_strength(e)),
{
    let ghost original = components;
    proof {
        crate::punct::lemma_values(components);
    }
    let mut values = components.into_values();
    if values.len() == 1 {
        match values.pop().unwrap() {
            Component::Expr(value) => {
                proof {
                    assert(original.values()[0] == Component::Expr(value));
                    if original.spec_last() is Some {
                        assert(original.spec_pairs().len() == 0);
                        lemma_lx_punct_unpaired(original);
                    }
                }
                Ok(value)
            },
            value => Err(
                NativeParseError::Unexpected {
                    found: owned("a sequence"),
                    expected: "one expression",
                    span: value.span(),
                },
            ),
        }
    } else if values.len() == 0 {
        Err(NativeParseError::MissingOperand { operator: owned("empty expression"), span: eof })
    } else {
        let first = values.remove(0);
        Err(
            NativeParseError::Unexpected {
                found: owned("a sequence"),
                expected: "one expression",
                span: first.span(),
            },
        )
    }
}

fn lower_debug_keyword(keyword: TokenTree) -> (r: DebugKeyword)
    requires
        is_debug_keyword(keyword@),
    ensures
        tk_debug_keyword(r) == seq![keyword@],
{
    if _StepKeyword::matches_token_tree(&keyword) {
        DebugKeyword::Step(typed(keyword))
    } else if _FinishKeyword::matches_token_tree(&keyword) {
        DebugKeyword::Finish(typed(keyword))
    } else if _ShieldKeyword::matches_token_tree(&keyword) {
        DebugKeyword::Shield(typed(keyword))
    } else if _TestKeyword::matches_token_tree(&keyword) {
        DebugKeyword::Test(typed(keyword))
    } else if _TimeKeyword::matches_token_tree(&keyword) {
        DebugKeyword::Time(typed(keyword))
    } else if _TimingKeyword::matches_token_tree(&keyword) {
        DebugKeyword::Timing(typed(keyword))
    } else if _BreakpointKeyword::matches_token_tree(&keyword) {
        DebugKeyword::Breakpoint(typed(keyword))
    } else if _ElapsedTimeKeyword::matches_token_tree(&keyword) {
        DebugKeyword::ElapsedTime(typed(keyword))
    } else if _ElapsedTimingKeyword::matches_token_tree(&keyword) {
        DebugKeyword::ElapsedTiming(typed(keyword))
    } else {
        DebugKeyword::Profile(typed(keyword))
    }
}

fn lower_quote_specifier(keyword: TokenTree) -> (r: QuoteSpecifier)
    requires
        is_quote_keyword(keyword@),
    ensures
        tk_quote_specifier(r) == seq![keyword@],
{
    if _SymbolKeyword::matches_token_tree(&keyword) {
        QuoteSpecifier::Symbol(typed(keyword))
    } else if _LocalKeyword::matches_token_tree(&keyword) {
        QuoteSpecifier::Local(typed(keyword))
    } else if _GlobalKeyword::matches_token_tree(&keyword) {
        QuoteSpecifier::Global(typed(keyword))
    } else if _ThreadVariableKeyword::matches_token_tree(&keyword) {
        QuoteSpecifier::ThreadVariable(typed(keyword))
    } else {
        QuoteSpecifier::ThreadLocal(typed(keyword))
    }
}

/// Whether an expression is a binary expression.
pub open spec fn is_binary_expr(e: Expr) -> bool {
    e matches Expr::OperatorExpr(OperatorExpr::BinaryExpression(_))
}

/// Whether a binary operator is adjacency, written `SPACE` or left implicit.
pub open spec fn is_adjacency(op: BinaryOperator) -> bool {
    op.spec_kind() == crate::tokens::SPACE_KIND
}

/// The binding strength the precedence table gives an operator: how tightly
/// its right operand holds together.
pub open spec fn binding_strength(op: BinaryOperator) -> int {
    match parse_info_spec(op.raw_model()).binary_strength {
        Some(s) => s as int,
        None => 0,
    }
}

/// The precedence the table gives an operator.
pub open spec fn operator_precedence(op: BinaryOperator) -> int {
    parse_info_spec(op.raw_model()).precedence as int
}

/// Whether an expression holds together above `level`: when it is a binary
/// expression whose operator is not adjacency, that operator's precedence is
/// above `level`.
pub open spec fn binds_above(e: Expr, level: int) -> bool {
    match e {
        Expr::OperatorExpr(OperatorExpr::BinaryExpression(b)) => is_adjacency(b.operator)
            || operator_precedence(b.operator) > level,
        _ => true,
    }
}

/// Whether every binary expression along the operator spine of `e` groups
/// its operands by the precedence table: the right operand of an operator
/// holds together above the operator's binding strength, and an operator
/// that is the left operand of another binds at least as strongly as the
/// other's precedence (so `x - y - z` is `(x - y) - z`); the operand of a
/// prefix operator holds together above the operator's binding strength.
pub open spec fn grouped_by_strength(e: Expr) -> bool
    decreases e,
{
    match e {
        Expr::OperatorExpr(OperatorExpr::BinaryExpression(b)) => {
            &&& !is_adjacency(b.operator) ==> binds_above(*b.right, binding_strength(b.operator))
            &&& !is_adjacency(b.operator) ==> match *b.left {
                Expr::OperatorExpr(OperatorExpr::BinaryExpression(l)) => is_adjacency(l.operator)
                    || binding_strength(l.operator) >= operator_precedence(b.operator),
                _ => true,
            }
            &&& grouped_by_strength(*b.left)
            &&& grouped_by_strength(*b.right)
        },
        Expr::OperatorExpr(OperatorExpr::PrefixExpression(p)) => {
            &&& binds_above(*p.operand, prefix_strength(p.operator))
            &&& grouped_by_strength(*p.operand)
        },
        _ => true,
    }
}

/// The binding strength the precedence table gives a prefix operator: how
/// tightly its operand holds together.
pub open spec fn prefix_strength(op: PrefixOperator) -> int {
    match parse_info_spec(op.raw_model()).unary_strength {
        Some(s) => s as int,
        None => 0,
    }
}

/// Whether every expression among the components is grouped by the table.
pub open spec fn components_grouped(c: Punctuated<Component>) -> bool {
    forall|i: int|
        0 <= i < c.values().len() ==> (#[trigger] c.values()[i] matches Component::Expr(e)
            ==> grouped_by_strength(e))
}

/// Whether every expression a cell holds at its top is grouped by the table.
pub open spec fn cell_grouped(c: AnyCell) -> bool {
    match c {
        AnyCell::ExpressionCell(x) => grouped_by_strength(*x.value),
        AnyCell::SequenceCell(x) => components_grouped(x.value.elements),
        AnyCell::MutedCell(x) => components_grouped(x.elements),
    }
}

/// The lexemes an expression emits.
pub open spec fn lx(e: Expr) -> Seq<Seq<char>> {
    models_lexemes(tk_expr(e))
}

/// Builds the collection that a group of kind `kind` holds: its muted groups
/// and the comma sequence after them.
#[verifier::rlimit(40)]
fn collection_of(
    kind: DelimiterKind,
    delimiter_span: Span,
    muted: Vec<MutedGroup>,
    elements: Punctuated<Component>,
    comma: bool,
    eof: Span,
) -> (r: Result<Expr, NativeParseError>)
    requires
        elements.spec_last() is None ==> elements.spec_pairs().len() == 0,
    ensures
        r matches Err(e) ==> !(e is Lex),
        r matches Ok(e) ==> lx(e) == word(opening_text(kind)) + models_lexemes(
            tk_list_muted_group(muted@, muted@.len() as int),
        ) + models_lexemes(tk_punct(elements)) + word(closing_text(kind)),
        r matches Ok(e) ==> !(e is OperatorExpr),
{
    match kind {
        DelimiterKind::Empty | DelimiterKind::Semicolon => {
            let mut syntax = String::new();
            append_str(&mut syntax, kind.opening());
            append_str(&mut syntax, " cell delimiter in expression position");
            Err(NativeParseError::Unsupported { syntax, span: delimiter_span })
        },
        DelimiterKind::Bracket => {
            let mut value = Array::new(muted, elements);
            value.delimiter = _BracketDelimiter::new(delimiter_span);
            proof {
                lemma_lx_array(value);
            }
            Ok(Expr::Collection(Collection::Array(value)))
        },
        DelimiterKind::Brace => {
            let mut value = List::new(muted, elements);
            value.delimiter = _BraceDelimiter::new(delimiter_span);
            proof {
                lemma_lx_list(value);
            }
            Ok(Expr::Collection(Collection::List(value)))
        },
        DelimiterKind::AngleBar => {
            let mut value = AngleBarList::new(muted, elements);
            value.delimiter = _AngleBarDelimiter::new(delimiter_span);
            proof {
                lemma_lx_angle_bar_list(value);
            }
            Ok(Expr::Collection(Collection::AngleBarList(value)))
        },
        DelimiterKind::Parenthesis => {
            if muted.len() > 0 || comma {
                let mut value = Sequence::new(muted, elements);
                value.delimiter = _ParenthesisDelimiter::new(delimiter_span);
                proof {
                    lemma_lx_sequence(value);
                }
                Ok(Expr::Collection(Collection::Sequence(value)))
            } else {
                let ghost punct = elements;
                proof {
                    assert(tk_list_muted_group(muted@, 0) =~= Seq::<TokenModel>::empty());
                }
                let value = if elements.is_empty() {
                    proof {
                        lemma_lx_punct_unpaired(punct);
                    }
                    None
                } else {
                    proof {
                        crate::punct::lemma_values(punct);
                    }
                    Some(only_expression(elements, eof)?)
                };
                let mut value = ParenthesizedExpression::new(Vec::new(), value);
                value.delimiter = _ParenthesisDelimiter::new(delimiter_span);
                proof {
                    lemma_lx_parenthesized_expression(value);
                    assert(tk_list_muted_group(value.muted@, 0) =~= Seq::<TokenModel>::empty());
                }
                Ok(Expr::Collection(Collection::ParenthesizedExpression(value)))
            }
        },
    }
}

// ---------------------------------------------------------------------------
// The precedence engine
// ---------------------------------------------------------------------------
/// The precedence engine over the tokens of one cell or group.
struct Engine {
    input: ParseStream,
}

impl Engine {
    /// The number of token trees left to parse, counting nested trees.
    spec fn rem(&self) -> nat {
        suffix_size(self.input.trees(), self.input.pos())
    }

    spec fn wf(&self) -> bool {
        0 <= self.input.pos() <= self.input.trees().len()
    }

    /// The lexemes this engine consumed since it was in state `before`.
    spec fn consumed(&self, before: Engine) -> Seq<Seq<char>> {
        segment(self.input.trees(), before.input.pos(), self.input.pos())
    }

    /// Whether every string literal this engine reads is framed.
    spec fn framed(&self) -> bool {
        models_framed(self.input.trees())
    }

    proof fn lemma_consumed_chain(a: Engine, b: Engine, c: Engine)
        requires
            a.wf(),
            b.follows(a),
            c.follows(b),
        ensures
            c.consumed(a) == b.consumed(a) + c.consumed(b),
    {
        lemma_segment_split(a.input.trees(), a.input.pos(), b.input.pos(), c.input.pos());
    }

    proof fn lemma_consumed_none(a: Engine)
        requires
            a.wf(),
        ensures
            a.consumed(a) == Seq::<Seq<char>>::empty(),
    {
        lemma_segment_empty(a.input.trees(), a.input.pos());
    }

    /// Whether the operand read so far ends here for `level`: no significant
    /// token is left, or the next one binds no tighter than `level`.
    spec fn operand_ends(&self, level: u8) -> bool {
        self.input.next_sig() >= self.input.trees().len() || parse_info_spec(
            self.input.trees()[self.input.next_sig()],
        ).precedence <= level
    }

    /// This engine reached its state from `before` by moving forward only.
    spec fn follows(&self, before: Engine) -> bool {
        &&& self.input.trees() == before.input.trees()
        &&& self.input.spec_eof_span() == before.input.spec_eof_span()
        &&& before.input.pos() <= self.input.pos() <= self.input.trees().len()
        &&& self.rem() <= before.rem()
    }

    fn new(tokens: TokenStream) -> (engine: Self)
        ensures
            engine.wf(),
            engine.input.trees() == tokens@,
            engine.input.pos() == 0,
    {
        Engine { input: ParseStream::new(tokens) }
    }

    fn peek(&self) -> (lookahead: Lookahead)
        requires
            self.wf(),
        ensures
            self.input.next_sig() < self.input.trees().len() ==> (lookahead matches Lookahead::Token(t)
                && t.token@ == self.input.trees()[self.input.next_sig()]),
            self.input.next_sig() >= self.input.trees().len() ==> lookahead == Lookahead::End(
                self.input.spec_eof_span(),
            ),
    {
        self.input.lookahead()
    }

    fn consume(&mut self) -> (lookahead: Lookahead)
        requires
            old(self).wf(),
        ensures
            final(self).wf(),
            final(self).follows(*old(self)),
            old(self).input.next_sig() < old(self).input.trees().len() ==> (lookahead matches Lookahead::Token(
                t,
            ) && t.token@ == old(self).input.trees()[old(self).input.next_sig()] && final(self).input.pos()
                == old(self).input.next_sig() + 1 && final(self).rem() + tree_size(t.token@)
                <= old(self).rem()),
            old(self).input.next_sig() >= old(self).input.trees().len() ==> (lookahead
                == Lookahead::End(old(self).input.spec_eof_span()) && final(self).input.pos()
                == old(self).input.pos()),
            final(self).consumed(*old(self)) == match lookahead {
                Lookahead::Token(t) => model_lexemes(t.token@),
                Lookahead::End(_) => Seq::<Seq<char>>::empty(),
            },
            lookahead matches Lookahead::Token(t) ==> (old(self).framed() ==> model_framed(t.token@)),
    {
        proof {
            crate::parse::lemma_sig_pos_bounds(self.input.trees(), self.input.pos());
        }
        let lookahead = self.input.consume_lookahead();
        proof {
            let trees = self.input.trees();
            if old(self).input.next_sig() < trees.len() {
                lemma_suffix_consume(trees, old(self).input.pos(), old(self).input.next_sig());
                lemma_segment_token(trees, old(self).input.pos(), old(self).input.next_sig());
                if old(self).framed() {
                    lemma_framed_index(trees, old(self).input.next_sig());
                }
            } else {
                lemma_segment_empty(trees, old(self).input.pos());
            }
        }
        lookahead
    }

    fn skip_trivia(&mut self)
        requires
            old(self).wf(),
        ensures
            final(self).wf(),
            final(self).follows(*old(self)),
            final(self).input.pos() == old(self).input.next_sig(),
    {
        proof {
            crate::parse::lemma_sig_pos_bounds(self.input.trees(), self.input.pos());
            lemma_suffix_mono(self.input.trees(), self.input.pos(), self.input.next_sig());
        }
        self.input.skip_trivia();
    }

    fn at_end(&self) -> (r: bool)
        requires
            self.wf(),
        ensures
            r == (self.input.next_sig() >= self.input.trees().len()),
    {
        self.input.is_empty()
    }

    /// Whether the next significant token is an atom of token type `T`.
    fn at<T: Token>(&self) -> (r: bool)
        requires
            self.wf(),
        ensures
            r == (self.input.next_sig() < self.input.trees().len() && T::spec_matches(
                self.input.trees()[self.input.next_sig()],
            )),
    {
        match self.input.peek() {
            Some(token) => T::matches_token_tree(token),
            None => false,
        }
    }

    /// Consumes the next significant token when it is an atom of token type `T`.
    fn take<T: Token>(&mut self) -> (r: Option<T>)
        requires
            old(self).wf(),
        ensures
            final(self).wf(),
            final(self).follows(*old(self)),
            r is Some ==> final(self).rem() < old(self).rem(),
            r is None ==> *final(self) == *old(self),
            r matches Some(t) ==> final(self).consumed(*old(self)) == model_lexemes(t.spec_raw()),
    {
        if self.at::<T>() {
            match self.consume() {
                Lookahead::Token(token) => {
                    proof {
                        lemma_tree_size_positive(token.token@);
                    }
                    Some(typed(token.token))
                },
                Lookahead::End(_) => None,
            }
        } else {
            None
        }
    }

    /// Consumes the next significant token, which must be an atom of token type `T`.
    fn expect<T: Token>(&mut self, expected: &'static str) -> (r: Result<T, NativeParseError>)
        requires
            old(self).wf(),
        ensures
            r matches Err(e) ==> !(e is Lex),
            final(self).wf(),
            final(self).follows(*old(self)),
            r matches Ok(t) ==> final(self).consumed(*old(self)) == model_lexemes(t.spec_raw()),
    {
        match self.consume() {
            Lookahead::Token(token) => {
                if T::matches_token_tree(&token.token) {
                    Ok(typed(token.token))
                } else {
                    Err(unexpected(&token.token, expected))
                }
            },
            Lookahead::End(span) => Err(end_of_input(expected, span)),
        }
    }

    fn expected_at_lookahead(&self, expected: &'static str) -> (error: NativeParseError)
        requires
            self.wf(),
        ensures
            !(error is Lex),
    {
        match self.peek() {
            Lookahead::Token(token) => unexpected(&token.token, expected),
            Lookahead::End(span) => end_of_input(expected, span),
        }
    }

    fn consume_symbol(&mut self, expected: &'static str) -> (r: Result<Symbol, NativeParseError>)
        requires
            old(self).wf(),
        ensures
            r matches Err(e) ==> !(e is Lex),
            final(self).wf(),
            final(self).follows(*old(self)),
            r matches Ok(symbol) ==> final(self).consumed(*old(self)) == models_lexemes(
                tk_symbol(symbol),
            ),
    {
        match self.consume() {
            Lookahead::Token(token) => {
                let atom = match parse_info(&token.token).unary {
                    UnaryAction::Atom => true,
                    _ => false,
                };
                match &token.token {
                    TokenTree::Ident(ident) => {
                        if atom {
                            let symbol = Symbol::new(ident.text.as_str(), ident.span);
                            proof {
                                lemma_lexemes_single(tk_symbol(symbol)[0]);
                            }
                            return Ok(symbol);
                        }
                    },
                    _ => {},
                }
                Err(unexpected(&token.token, expected))
            },
            Lookahead::End(span) => Err(end_of_input(expected, span)),
        }
    }

    /// Parses the components of a comma sequence up to a semicolon or the end.
    #[verifier::rlimit(40)]
    #[verifier::spinoff_prover]
    fn parse_components(&mut self) -> (r: Result<(Punctuated<Component>, bool), NativeParseError>)
        requires
            old(self).wf(),
        ensures
            r matches Err(e) ==> !(e is Lex),
            final(self).wf(),
            final(self).follows(*old(self)),
            r matches Ok((components, comma)) ==> {
                &&& !comma ==> components.values().len() <= 1
                &&& components.spec_last() is None ==> components.spec_pairs().len() == 0
                &&& old(self).framed() ==> models_lexemes(tk_punct(components)) == final(self).consumed(*old(self))
                &&& components_grouped(components)
            },
        decreases old(self).rem(), 10int,
    {
        if self.at_end() || self.at::<_Scl>() {
            let empty = Punctuated::new();
            proof {
                Engine::lemma_consumed_none(*self);
                lemma_lx_punct_unpaired(empty);
            }
            return Ok((empty, false));
        }
        let first = if self.at::<_Cma>() {
            let empty = EmptyComponent::new("", self.peek().span());
            proof {
                reveal_strlit("");
                Engine::lemma_consumed_none(*self);
                lemma_lexemes_single(tk_empty_component(empty)[0]);
            }
            Component::EmptyComponent(empty)
        } else {
            Component::Expr(self.parse_required(PREC_COMMA)?)
        };
        let mut elements = Punctuated::from_value(first);
        proof {
            lemma_lx_punct_unpaired(elements);
            assert(elements.values()[0] == first);
        }
        let mut has_comma = false;
        let ghost entry = *old(self);
        loop
            invariant
                self.wf(),
                self.follows(entry),
                entry == *old(self),
                entry.wf(),
                elements.spec_last() is Some,
                !has_comma ==> elements.values().len() == 1,
                entry.framed() ==> models_lexemes(tk_punct(elements)) == self.consumed(entry),
                components_grouped(elements),
            decreases self.rem(),
        {
            let ghost before = *self;
            let comma = match self.take::<_Cma>() {
                Some(comma) => comma,
                None => break,
            };
            let ghost middle = *self;
            has_comma = true;
            let next = if self.at_end() || self.at::<_Scl>() || self.at::<_Cma>() {
                let empty = EmptyComponent::new("", self.peek().span());
                proof {
                    reveal_strlit("");
                    Engine::lemma_consumed_none(*self);
                    lemma_lexemes_single(tk_empty_component(empty)[0]);
                }
                Component::EmptyComponent(empty)
            } else {
                Component::Expr(self.parse_required(PREC_COMMA)?)
            };
            let ghost previous = elements;
            elements.push(comma, next);
            proof {
                assert forall|i: int| 0 <= i < elements.values().len() implies (
                #[trigger] elements.values()[i] matches Component::Expr(e) ==> grouped_by_strength(
                    e,
                )) by {
                    if i < previous.values().len() {
                        assert(elements.values()[i] == previous.values()[i]);
                    }
                }
                assert(self.rem() < before.rem());
                Engine::lemma_consumed_chain(entry, before, middle);
                Engine::lemma_consumed_chain(entry, middle, *self);
                lemma_lx_punct_push(previous, elements, comma, next);
                lemma_lexemes_single(comma.raw_model());
            }
        }
        Ok((elements, has_comma))
    }

    /// Parses one operand that must be present.
    #[verifier::rlimit(40)]
    #[verifier::spinoff_prover]
    fn parse_required(&mut self, level: u8) -> (r: Result<Expr, NativeParseError>)
        requires
            old(self).wf(),
        ensures
            r matches Err(e) ==> !(e is Lex),
            final(self).wf(),
            final(self).follows(*old(self)),
            r matches Ok(e) ==> (old(self).framed() ==> lx(e) == final(self).consumed(*old(self))),
            r matches Ok(e) ==> grouped_by_strength(e) && binds_above(e, level as int) && final(self).operand_ends(level),
        decreases old(self).rem(), 9int,
    {
        let ghost entry = *self;
        let token = match self.consume() {
            Lookahead::Token(token) => token,
            Lookahead::End(span) => {
                return Err(
                    NativeParseError::MissingOperand { operator: owned("end of input"), span },
                );
            },
        };
        let ghost middle = *self;
        let r = self.parse_consumed(token, level);
        proof {
            Engine::lemma_consumed_chain(entry, middle, *self);
        }
        r
    }

    /// Parses an operand when the next token binds tighter than `level`.
    #[verifier::rlimit(40)]
    #[verifier::spinoff_prover]
    fn parse_nullable(&mut self, level: u8) -> (r: Result<Option<Expr>, NativeParseError>)
        requires
            old(self).wf(),
        ensures
            r matches Err(e) ==> !(e is Lex),
            final(self).wf(),
            final(self).follows(*old(self)),
            r matches Ok(Some(e)) ==> (old(self).framed() ==> lx(e) == final(self).consumed(*old(self))),
            r matches Ok(None) ==> final(self).input.pos() == old(self).input.pos(),
            r matches Ok(Some(e)) ==> grouped_by_strength(e) && binds_above(e, level as int) && final(self).operand_ends(level),
        decreases old(self).rem(), 9int,
    {
        let ghost entry = *self;
        let token = match self.peek() {
            Lookahead::Token(token) => token,
            Lookahead::End(_) => return Ok(None),
        };
        if parse_info(&token.token).precedence <= level {
            return Ok(None);
        }
        match self.consume() {
            Lookahead::Token(token) => {
                let ghost middle = *self;
                match self.parse_consumed(token, level) {
                    Ok(value) => {
                        proof {
                            Engine::lemma_consumed_chain(entry, middle, *self);
                        }
                        Ok(Some(value))
                    },
                    Err(error) => Err(error),
                }
            },
            Lookahead::End(_) => Ok(None),
        }
    }

    /// Parses the clause value after `keyword`, which must be present.
    fn required_clause_expression(&mut self, level: u8, keyword: &TokenTree) -> (r: Result<
        Expr,
        NativeParseError,
    >)
        requires
            old(self).wf(),
        ensures
            r matches Err(e) ==> !(e is Lex),
            final(self).wf(),
            final(self).follows(*old(self)),
            r matches Ok(e) ==> (old(self).framed() ==> lx(e) == final(self).consumed(*old(self))),
            r matches Ok(e) ==> grouped_by_strength(e) && binds_above(e, level as int),
        decreases old(self).rem(), 10int,
    {
        match self.parse_nullable(level)? {
            None => Err(
                NativeParseError::MissingOperand { operator: describe(keyword), span: keyword.span() },
            ),
            Some(expression) => Ok(expression),
        }
    }

    /// Parses the operand that starts with the consumed `token`, then its
    /// binary and postfix continuations above `level`.
    #[verifier::rlimit(40)]
    #[verifier::spinoff_prover]
    fn parse_consumed(&mut self, token: SignificantToken, level: u8) -> (r: Result<
        Expr,
        NativeParseError,
    >)
        requires
            old(self).wf(),
            old(self).framed() ==> model_framed(token.token@),
        ensures
            r matches Err(e) ==> !(e is Lex),
            final(self).wf(),
            final(self).follows(*old(self)),
            r matches Ok(e) ==> (old(self).framed() ==> lx(e) == model_lexemes(token.token@) + final(self).consumed(*old(self))),
            parse_info_spec(token.token@).unary is Error ==> (r matches Err(
                NativeParseError::Unexpected { found, expected, span },
            ) && expected == "an expression" && span == model_span(token.token@) && found@
                == native_description(token.token@)),
            parse_info_spec(token.token@).unary is Atom && !(token.token@ is Ident
                || token.token@ is Literal) ==> r is Err,
            parse_info_spec(token.token@).unary is Atom && (token.token@ is Ident
                || token.token@ is Literal) && old(self).operand_ends(level) ==> r is Ok
                && *final(self) == *old(self),
            parse_info_spec(token.token@).unary is Atom && token.token@ is Ident && old(
                self,
            ).operand_ends(level) ==> r matches Ok(Expr::Symbol(_)),
            r matches Ok(e) ==> grouped_by_strength(e) && binds_above(e, level as int) && final(self).operand_ends(level),
        decreases old(self).rem() + tree_size(token.token@), 7int,
    {
        proof {
            lemma_tree_size_positive(token.token@);
        }
        let ghost entry = *self;
        let ghost head = model_lexemes(token.token@);
        proof {
            lemma_lexemes_single(token.token@);
            Engine::lemma_consumed_none(entry);
        }
        let info = parse_info(&token.token);
        let result = match info.unary {
            UnaryAction::Atom => {
                let atom = lower_atom(token.token)?;
                proof {
                    assert(entry.framed() ==> lx(atom) =~= head + self.consumed(entry));
                }
                atom
            },
            UnaryAction::Prefix => {
                let strength = info.unary_strength.unwrap();
                let floor = if level > strength {
                    level
                } else {
                    strength
                };
                let operand = self.parse_required(floor)?;
                let span = token.token.span();
                let syntax = describe(&token.token);
                match PrefixOperator::from_token_tree(token.token) {
                    Some(operator) => {
                        let node = PrefixExpression::new(operator, operand);
                        proof {
                            lemma_lx_prefix_expression(node);
                            assert(entry.framed() ==> lx(Expr::OperatorExpr(OperatorExpr::PrefixExpression(node))) =~= head + self.consumed(entry));
                        }
                        Expr::OperatorExpr(OperatorExpr::PrefixExpression(node))
                    },
                    None => return Err(NativeParseError::Unsupported { syntax, span }),
                }
            },
            UnaryAction::Statement => {
                let strength = info.unary_strength.unwrap();
                let floor = if level > strength {
                    level
                } else {
                    strength
                };
                let keyword = token.token;
                if _BreakKeyword::matches_token_tree(&keyword) {
                    let value = self.parse_nullable(floor)?;
                    let node = BreakStatement::new(typed(keyword), value);
                    proof {
                        lemma_lx_break_statement(node);
                        if value is None {
                            Engine::lemma_consumed_none(*self);
                        }
                        assert(entry.framed() ==> lx(Expr::BreakStatement(node)) =~= head + self.consumed(entry));
                    }
                    Expr::BreakStatement(node)
                } else if _ContinueKeyword::matches_token_tree(&keyword) {
                    let value = self.parse_nullable(floor)?;
                    let node = ContinueStatement::new(typed(keyword), value);
                    proof {
                        lemma_lx_continue_statement(node);
                        if value is None {
                            Engine::lemma_consumed_none(*self);
                        }
                        assert(entry.framed() ==> lx(Expr::ContinueStatement(node)) =~= head + self.consumed(entry));
                    }
                    Expr::ContinueStatement(node)
                } else if _ReturnKeyword::matches_token_tree(&keyword) {
                    let value = self.parse_nullable(floor)?;
                    let node = ReturnStatement::new(typed(keyword), value);
                    proof {
                        lemma_lx_return_statement(node);
                        if value is None {
                            Engine::lemma_consumed_none(*self);
                        }
                        assert(entry.framed() ==> lx(Expr::ReturnStatement(node)) =~= head + self.consumed(entry));
                    }
                    Expr::ReturnStatement(node)
                } else {
                    let value = match self.parse_required(floor) {
                        Ok(value) => value,
                        Err(error) => return Err(blame_missing_operand(error, &keyword)),
                    };
                    if _CatchKeyword::matches_token_tree(&keyword) {
                        let node = CatchStatement::new(typed(keyword), value);
                        proof {
                            lemma_lx_catch_statement(node);
                            assert(entry.framed() ==> lx(Expr::CatchStatement(node)) =~= head + self.consumed(entry));
                        }
                        Expr::CatchStatement(node)
                    } else if _ThrowKeyword::matches_token_tree(&keyword) {
                        let node = ThrowStatement::new(typed(keyword), value);
                        proof {
                            lemma_lx_throw_statement(node);
                            assert(entry.framed() ==> lx(Expr::ThrowStatement(node)) =~= head + self.consumed(entry));
                        }
                        Expr::ThrowStatement(node)
                    } else {
                        let node = TrapStatement::new(typed(keyword), value);
                        proof {
                            lemma_lx_trap_statement(node);
                            assert(entry.framed() ==> lx(Expr::TrapStatement(node)) =~= head + self.consumed(entry));
                        }
                        Expr::TrapStatement(node)
                    }
                }
            },
            UnaryAction::Control => {
                let keyword = token.token;
                if _IfKeyword::matches_token_tree(&keyword) {
                    self.parse_if_statement(typed(keyword))?
                } else if _ForKeyword::matches_token_tree(&keyword) {
                    self.parse_for_loop(typed(keyword))?
                } else if _WhileKeyword::matches_token_tree(&keyword) {
                    self.parse_while_loop(typed(keyword))?
                } else if _TryKeyword::matches_token_tree(&keyword) {
                    self.parse_try_statement(typed(keyword))?
                } else {
                    self.parse_new_statement(typed(keyword))?
                }
            },
            UnaryAction::Debug => self.parse_debug_clause(token.token)?,
            UnaryAction::Delimiter => self.parse_delimited(token.token)?,
            UnaryAction::Quote => {
                let keyword = token.token;
                let quoted = match self.consume() {
                    Lookahead::Token(quoted) => quoted.token,
                    Lookahead::End(span) => {
                        return Err(
                            NativeParseError::MissingOperand { operator: describe(&keyword), span },
                        );
                    },
                };
                let specifier = lower_quote_specifier(keyword);
                let quoted_span = quoted.span();
                let text = match quoted.spelling() {
                    Some(text) => text,
                    None => return Err(unexpected(&quoted, "a quoted token")),
                };
                let symbol = Symbol::new(text, quoted_span);
                let node = QuoteExpression::new(specifier, symbol);
                proof {
                    lemma_lx_quote_expression(node);
                    lemma_lexemes_single(tk_symbol(symbol)[0]);
                    lemma_lexemes_single(keyword@);
                    assert(entry.framed() ==> lx(Expr::QuoteExpression(node)) =~= head + self.consumed(entry));
                }
                Expr::QuoteExpression(node)
            },
            UnaryAction::Error => return Err(unexpected(&token.token, "an expression")),
        };
        let ghost middle = *self;
        proof {
            assert(entry.framed() ==> lx(result) == head + middle.consumed(entry));
        }
        let r = self.accumulate(result, level);
        proof {
            Engine::lemma_consumed_chain(entry, middle, *self);
        }
        r
    }

    /// Extends `left` with binary, postfix, and adjacency continuations that
    /// bind tighter than `level`.
    #[verifier::rlimit(40)]
    #[verifier::spinoff_prover]
    fn accumulate(&mut self, first: Expr, level: u8) -> (r: Result<Expr, NativeParseError>)
        requires
            old(self).wf(),
            !is_binary_expr(first),
            grouped_by_strength(first),
        ensures
            r matches Ok(e) ==> grouped_by_strength(e) && binds_above(e, level as int) && final(self).operand_ends(level),
            r matches Err(e) ==> !(e is Lex),
            final(self).wf(),
            final(self).follows(*old(self)),
            r matches Ok(e) ==> (old(self).framed() ==> lx(e) == lx(first) + final(self).consumed(*old(self))),
            old(self).operand_ends(level) ==> r == Ok::<Expr, NativeParseError>(first)
                && *final(self) == *old(self),
        decreases old(self).rem(), 8int,
    {
        let mut left = first;
        let ghost entry = *old(self);
        proof {
            Engine::lemma_consumed_none(entry);
            assert(lx(first) + entry.consumed(entry) =~= lx(first));
        }
        loop
            invariant
                self.wf(),
                self.follows(entry),
                entry == *old(self),
                entry.wf(),
                entry.framed() ==> lx(left) == lx(first) + self.consumed(entry),
                entry.operand_ends(level) ==> *self == entry && left == first,
                grouped_by_strength(left),
                binds_above(left, level as int),
                left matches Expr::OperatorExpr(OperatorExpr::BinaryExpression(l)) ==> (is_adjacency(
                    l.operator,
                ) || self.operand_ends(binding_strength(l.operator) as u8)),
            decreases self.rem(),
        {
            let next = match self.peek() {
                Lookahead::Token(next) => next,
                Lookahead::End(_) => return Ok(left),
            };
            let info = parse_info(&next.token);
            if info.precedence <= level {
                return Ok(left);
            }
            let ghost before = *self;
            let operator = match self.consume() {
                Lookahead::Token(operator) => operator,
                Lookahead::End(_) => return Ok(left),
            };
            let ghost middle = *self;
            proof {
                lemma_tree_size_positive(operator.token@);
                Engine::lemma_consumed_chain(entry, before, middle);
            }
            left = match info.binary_strength {
                Some(strength) => {
                    let right = match self.parse_required(strength) {
                        Ok(right) => right,
                        Err(error) => return Err(blame_missing_operand(error, &operator.token)),
                    };
                    proof {
                        Engine::lemma_consumed_chain(entry, middle, *self);
                    }
                    lower_binary(left, operator.token, right)?
                },
                None => {
                    if info.postfix {
                        let span = operator.token.span();
                        let syntax = describe(&operator.token);
                        match PostfixOperator::from_token_tree(operator.token) {
                            Some(op) => {
                                let node = PostfixExpression::new(left, op);
                                proof {
                                    lemma_lx_postfix_expression(node);
                                    lemma_lexemes_single(op.raw_model());
                                    Engine::lemma_consumed_none(*self);
                                    assert(middle.consumed(entry) + self.consumed(middle) =~= middle.consumed(entry));
                                }
                                Expr::OperatorExpr(OperatorExpr::PostfixExpression(node))
                            },
                            None => return Err(NativeParseError::Unsupported { syntax, span }),
                        }
                    } else if info.unary != UnaryAction::Error {
                        if operator.crossed_newline {
                            return Err(
                                NativeParseError::NewlineInApplication { span: operator.token.span() },
                            );
                        }
                        let adjacency = _Space::new(operator.leading_span);
                        let gap = BinaryOperator::from_token(adjacency);
                        let ghost operator_lexemes = model_lexemes(operator.token@);
                        let right = self.parse_consumed(operator, PREC_APPLICATION_RIGHT)?;
                        let node = BinaryExpression::new(left, gap, right);
                        proof {
                            lemma_lx_binary_expression(node);
                            lemma_lexemes_single(gap.raw_model());
                            Engine::lemma_consumed_chain(entry, middle, *self);
                        }
                        Expr::OperatorExpr(OperatorExpr::BinaryExpression(node))
                    } else {
                        return Err(unexpected(&operator.token, "an operator"));
                    }
                },
            };
            proof {
                assert(self.rem() < before.rem());
            }
        }
    }

    #[verifier::rlimit(40)]
    #[verifier::spinoff_prover]
    fn parse_if_statement(&mut self, keyword: _IfKeyword) -> (r: Result<Expr, NativeParseError>)
        requires
            old(self).wf(),
        ensures
            r matches Err(e) ==> !(e is Lex),
            final(self).wf(),
            final(self).follows(*old(self)),
            r matches Ok(e) ==> (old(self).framed() ==> lx(e) == model_lexemes(keyword.raw_model())
                + final(self).consumed(*old(self))),
                r matches Ok(e) ==> !(e is OperatorExpr),
        decreases old(self).rem(), 11int,
    {
        let ghost s0 = *self;
        let condition = self.required_clause_expression(PREC_CONTROL, keyword.raw())?;
        let ghost s1 = *self;
        let then_keyword: _ThenKeyword = self.expect("then")?;
        let ghost s2 = *self;
        let then_value = self.required_clause_expression(PREC_CONTROL, then_keyword.raw())?;
        let ghost s3 = *self;
        let then_clause = ThenClause::new(then_keyword, then_value);
        let else_clause = match self.take::<_ElseKeyword>() {
            Some(else_keyword) => {
                let ghost s4 = *self;
                let value = self.required_clause_expression(PREC_CONTROL, else_keyword.raw())?;
                let clause = ElseClause::new(else_keyword, value);
                proof {
                    lemma_lx_else_clause(clause);
                    lemma_lexemes_single(else_keyword.raw_model());
                    Engine::lemma_consumed_chain(s3, s4, *self);
                }
                Some(clause)
            },
            None => {
                proof {
                    Engine::lemma_consumed_none(*self);
                }
                None
            },
        };
        let node = IfStatement::new(keyword, condition, then_clause, else_clause);
        proof {
            lemma_lx_if_statement(node);
            lemma_lx_then_clause(then_clause);
            lemma_lexemes_single(keyword.raw_model());
            lemma_lexemes_single(then_keyword.raw_model());
            Engine::lemma_consumed_chain(s0, s1, s2);
            Engine::lemma_consumed_chain(s0, s2, s3);
            Engine::lemma_consumed_chain(s0, s3, *self);
            assert(s0.framed() ==> self.consumed(s3) =~= models_lexemes(match node.else_clause {
                Some(v) => tk_else_clause(v),
                None => seq![],
            }));
            assert(s0.framed() ==> lx(Expr::IfStatement(node)) =~= model_lexemes(keyword.raw_model())
                + self.consumed(s0));
        }
        Ok(Expr::IfStatement(node))
    }

    /// Parses an optional clause: `K` followed by its required value at `level`.
    fn optional_clause<const K: u16>(&mut self, level: u8) -> (r: Result<
        (Option<Tok<K>>, Option<Expr>),
        NativeParseError,
    >)
        requires
            old(self).wf(),
        ensures
            r matches Err(e) ==> !(e is Lex),
            final(self).wf(),
            final(self).follows(*old(self)),
            r matches Ok((k, v)) ==> {
                &&& (k is Some) == (v is Some)
                &&& old(self).framed() ==> models_lexemes(
                    match k {
                        Some(t) => seq![t.raw_model()],
                        None => seq![],
                    },
                ) + models_lexemes(
                    match v {
                        Some(e) => tk_expr(e),
                        None => seq![],
                    },
                ) == final(self).consumed(*old(self))
            },
        decreases old(self).rem(), 10int,
    {
        let ghost s0 = *self;
        match self.take::<Tok<K>>() {
            Some(token) => {
                let ghost s1 = *self;
                let value = self.required_clause_expression(level, token.raw())?;
                proof {
                    lemma_lexemes_single(token.raw_model());
                    Engine::lemma_consumed_chain(s0, s1, *self);
                }
                Ok((Some(token), Some(value)))
            },
            None => {
                proof {
                    Engine::lemma_consumed_none(*self);
                    assert(models_lexemes(Seq::<TokenModel>::empty()) + models_lexemes(Seq::<TokenModel>::empty()) =~= Seq::<Seq<char>>::empty());
                }
                Ok((None, None))
            },
        }
    }

    /// Parses the optional `in`, or `from` and `to`, clauses of a `for` loop.
    #[verifier::spinoff_prover]
    #[verifier::rlimit(40)]
    fn parse_iteration_range(&mut self) -> (r: Result<Option<IterationRange>, NativeParseError>)
        requires
            old(self).wf(),
        ensures
            r matches Err(e) ==> !(e is Lex),
            final(self).wf(),
            final(self).follows(*old(self)),
            r matches Ok(range) ==> (old(self).framed() ==> models_lexemes(
                match range {
                    Some(v) => tk_iteration_range(v),
                    None => seq![],
                },
            ) == final(self).consumed(*old(self))),
        decreases old(self).rem(), 11int,
    {
        let ghost s1 = *self;
        let (in_keyword, iterated_collection): (Option<_InKeyword>, Option<Expr>) = self.optional_clause(PREC_LOOP_CLAUSE)?;
        let ghost s2 = *self;
        let (from_keyword, range_start, to_keyword, range_end) = if in_keyword.is_some() {
            proof {
                Engine::lemma_consumed_none(*self);
            }
            (None, None, None, None)
        } else {
            let (from_keyword, range_start): (Option<_FromKeyword>, Option<Expr>) = self.optional_clause(PREC_LOOP_CLAUSE)?;
            let ghost s3 = *self;
            let (to_keyword, range_end): (Option<_ToKeyword>, Option<Expr>) = self.optional_clause(PREC_LOOP_CLAUSE)?;
            proof {
                Engine::lemma_consumed_chain(s2, s3, *self);
            }
            (from_keyword, range_start, to_keyword, range_end)
        };
        proof {
            Engine::lemma_consumed_chain(s1, s2, *self);
        }
        if in_keyword.is_some() || from_keyword.is_some() || to_keyword.is_some() {
            let range = IterationRange::new(
                in_keyword,
                iterated_collection,
                from_keyword,
                range_start,
                to_keyword,
                range_end,
            );
            proof {
                lemma_lx_iteration_range(range);
            }
            Ok(Some(range))
        } else {
            proof {
                assert(s1.framed() ==> self.consumed(s1) =~= Seq::<Seq<char>>::empty());
            }
            Ok(None)
        }
    }

    #[verifier::rlimit(40)]
    #[verifier::spinoff_prover]
    fn parse_for_loop(&mut self, keyword: _ForKeyword) -> (r: Result<Expr, NativeParseError>)
        requires
            old(self).wf(),
        ensures
            r matches Err(e) ==> !(e is Lex),
            final(self).wf(),
            final(self).follows(*old(self)),
            r matches Ok(e) ==> (old(self).framed() ==> lx(e) == model_lexemes(keyword.raw_model())
                + final(self).consumed(*old(self))),
                r matches Ok(e) ==> !(e is OperatorExpr),
        decreases old(self).rem(), 12int,
    {
        let ghost s0 = *self;
        let variable = self.consume_symbol("a loop variable")?;
        let ghost s1 = *self;
        let range = self.parse_iteration_range()?;
        let ghost s4 = *self;
        let (when_keyword, filter): (Option<_WhenKeyword>, Option<Expr>) = self.optional_clause(PREC_LOOP_CLAUSE)?;
        let ghost s5 = *self;
        let body = self.parse_loop_body()?;
        let node = ForLoop::new(keyword, variable, range, when_keyword, filter, body);
        proof {
            lemma_lx_for_loop(node);
            lemma_lexemes_single(keyword.raw_model());
            Engine::lemma_consumed_chain(s0, s1, s4);
            Engine::lemma_consumed_chain(s0, s4, s5);
            Engine::lemma_consumed_chain(s0, s5, *self);
            assert(s0.framed() ==> s4.consumed(s1) =~= models_lexemes(match node.range {
                Some(v) => tk_iteration_range(*v),
                None => seq![],
            }));
            assert(s0.framed() ==> lx(Expr::ForLoop(node)) =~= model_lexemes(keyword.raw_model())
                + self.consumed(s0));
        }
        Ok(Expr::ForLoop(node))
    }

    #[verifier::rlimit(40)]
    #[verifier::spinoff_prover]
    fn parse_while_loop(&mut self, keyword: _WhileKeyword) -> (r: Result<Expr, NativeParseError>)
        requires
            old(self).wf(),
        ensures
            r matches Err(e) ==> !(e is Lex),
            final(self).wf(),
            final(self).follows(*old(self)),
            r matches Ok(e) ==> (old(self).framed() ==> lx(e) == model_lexemes(keyword.raw_model())
                + final(self).consumed(*old(self))),
                r matches Ok(e) ==> !(e is OperatorExpr),
        decreases old(self).rem(), 12int,
    {
        let ghost s0 = *self;
        let condition = self.required_clause_expression(PREC_CONTROL, keyword.raw())?;
        let ghost s1 = *self;
        let body = self.parse_loop_body()?;
        let node = WhileLoop::new(keyword, condition, body);
        proof {
            lemma_lx_while_loop(node);
            lemma_lexemes_single(keyword.raw_model());
            Engine::lemma_consumed_chain(s0, s1, *self);
            assert(s0.framed() ==> lx(Expr::WhileLoop(node)) =~= model_lexemes(keyword.raw_model())
                + self.consumed(s0));
        }
        Ok(Expr::WhileLoop(node))
    }

    #[verifier::rlimit(40)]
    #[verifier::spinoff_prover]
    fn parse_loop_body(&mut self) -> (r: Result<LoopBody, NativeParseError>)
        requires
            old(self).wf(),
        ensures
            r matches Err(e) ==> !(e is Lex),
            final(self).wf(),
            final(self).follows(*old(self)),
            r matches Ok(b) ==> (old(self).framed() ==> models_lexemes(tk_loop_body(b)) == final(self).consumed(*old(self))),
        decreases old(self).rem(), 11int,
    {
        let ghost s0 = *self;
        let (list_keyword, listed_value): (Option<_ListKeyword>, Option<Expr>) = self.optional_clause(PREC_CONTROL)?;
        let ghost s1 = *self;
        let (do_keyword, ignored_value): (Option<_DoKeyword>, Option<Expr>) = self.optional_clause(PREC_CONTROL)?;
        if list_keyword.is_none() && do_keyword.is_none() {
            return Err(self.expected_at_lookahead("`list` or `do`"));
        }
        let node = LoopBody::new(list_keyword, listed_value, do_keyword, ignored_value);
        proof {
            lemma_lx_loop_body(node);
            Engine::lemma_consumed_chain(s0, s1, *self);
            assert(s0.framed() ==> models_lexemes(tk_loop_body(node)) =~= self.consumed(s0));
        }
        Ok(node)
    }

    #[verifier::rlimit(40)]
    #[verifier::spinoff_prover]
    fn parse_try_statement(&mut self, keyword: _TryKeyword) -> (r: Result<Expr, NativeParseError>)
        requires
            old(self).wf(),
        ensures
            r matches Err(e) ==> !(e is Lex),
            final(self).wf(),
            final(self).follows(*old(self)),
            r matches Ok(e) ==> (old(self).framed() ==> lx(e) == model_lexemes(keyword.raw_model())
                + final(self).consumed(*old(self))),
                r matches Ok(e) ==> !(e is OperatorExpr),
        decreases old(self).rem(), 11int,
    {
        let ghost s0 = *self;
        let value = self.required_clause_expression(PREC_CONTROL, keyword.raw())?;
        let ghost s1 = *self;
        let then_clause = match self.take::<_ThenKeyword>() {
            Some(then_keyword) => {
                let ghost t1 = *self;
                let value = self.required_clause_expression(PREC_CONTROL, then_keyword.raw())?;
                let clause = ThenClause::new(then_keyword, value);
                proof {
                    lemma_lx_then_clause(clause);
                    lemma_lexemes_single(then_keyword.raw_model());
                    Engine::lemma_consumed_chain(s1, t1, *self);
                }
                Some(clause)
            },
            None => {
                proof {
                    Engine::lemma_consumed_none(*self);
                }
                None
            },
        };
        let ghost s2 = *self;
        proof {
            assert(s0.framed() ==> s2.consumed(s1) =~= models_lexemes(match then_clause {
                Some(v) => tk_then_clause(v),
                None => seq![],
            }));
        }
        let fallback = match self.take::<_ElseKeyword>() {
            Some(else_keyword) => {
                let ghost t1 = *self;
                let value = self.required_clause_expression(PREC_CONTROL, else_keyword.raw())?;
                let clause = ElseClause::new(else_keyword, value);
                proof {
                    lemma_lx_else_clause(clause);
                    lemma_lexemes_single(else_keyword.raw_model());
                    Engine::lemma_consumed_chain(s2, t1, *self);
                }
                Some(TryFallback::ElseClause(clause))
            },
            None => match self.take::<_ExceptKeyword>() {
                Some(except_keyword) => {
                    let ghost t1 = *self;
                    let exception = self.consume_symbol("an exception symbol")?;
                    let ghost t2 = *self;
                    let do_keyword: _DoKeyword = self.expect("do")?;
                    let ghost t3 = *self;
                    let value = self.required_clause_expression(PREC_CONTROL, do_keyword.raw())?;
                    let clause = ExceptClause::new(except_keyword, exception, do_keyword, value);
                    proof {
                        lemma_lx_except_clause(clause);
                        lemma_lexemes_single(except_keyword.raw_model());
                        lemma_lexemes_single(do_keyword.raw_model());
                        Engine::lemma_consumed_chain(s2, t1, t2);
                        Engine::lemma_consumed_chain(s2, t2, t3);
                        Engine::lemma_consumed_chain(s2, t3, *self);
                    }
                    Some(TryFallback::ExceptClause(clause))
                },
                None => {
                    proof {
                        Engine::lemma_consumed_none(*self);
                    }
                    None
                },
            },
        };
        let node = TryStatement::new(keyword, value, then_clause, fallback);
        proof {
            lemma_lx_try_statement(node);
            lemma_lexemes_single(keyword.raw_model());
            Engine::lemma_consumed_chain(s0, s1, s2);
            Engine::lemma_consumed_chain(s0, s2, *self);
            assert(s0.framed() ==> self.consumed(s2) =~= models_lexemes(match node.fallback {
                Some(v) => tk_try_fallback(*v),
                None => seq![],
            }));
            assert(s0.framed() ==> lx(Expr::TryStatement(node)) =~= model_lexemes(keyword.raw_model())
                + self.consumed(s0));
        }
        Ok(Expr::TryStatement(node))
    }

    #[verifier::spinoff_prover]
    #[verifier::rlimit(40)]
    fn parse_new_statement(&mut self, keyword: _NewKeyword) -> (r: Result<Expr, NativeParseError>)
        requires
            old(self).wf(),
        ensures
            r matches Err(e) ==> !(e is Lex),
            final(self).wf(),
            final(self).follows(*old(self)),
            r matches Ok(e) ==> (old(self).framed() ==> lx(e) == model_lexemes(keyword.raw_model())
                + final(self).consumed(*old(self))),
                r matches Ok(e) ==> !(e is OperatorExpr),
        decreases old(self).rem(), 12int,
    {
        let ghost s0 = *self;
        let class = self.required_clause_expression(PREC_LOOP_CLAUSE, keyword.raw())?;
        let ghost s1 = *self;
        let (of_keyword, parent): (Option<_OfKeyword>, Option<Expr>) = self.optional_clause(PREC_LOOP_CLAUSE)?;
        let ghost s2 = *self;
        let (from_keyword, instance): (Option<_FromKeyword>, Option<Expr>) = self.optional_clause(PREC_LOOP_CLAUSE)?;
        let node = NewStatement::new(keyword, class, of_keyword, parent, from_keyword, instance);
        proof {
            lemma_lx_new_statement(node);
            lemma_lexemes_single(keyword.raw_model());
            Engine::lemma_consumed_chain(s0, s1, s2);
            Engine::lemma_consumed_chain(s0, s2, *self);
            assert(s0.framed() ==> lx(Expr::NewStatement(node)) =~= model_lexemes(keyword.raw_model())
                + self.consumed(s0));
        }
        Ok(Expr::NewStatement(node))
    }

    #[verifier::rlimit(40)]
    #[verifier::spinoff_prover]
    fn parse_debug_clause(&mut self, keyword: TokenTree) -> (r: Result<Expr, NativeParseError>)
        requires
            old(self).wf(),
            is_debug_keyword(keyword@),
        ensures
            r matches Err(e) ==> !(e is Lex),
            final(self).wf(),
            final(self).follows(*old(self)),
            r matches Ok(e) ==> (old(self).framed() ==> lx(e) == model_lexemes(keyword@) + final(self).consumed(*old(self))),
            r matches Ok(e) ==> !(e is OperatorExpr),
        decreases old(self).rem(), 10int,
    {
        let ghost s0 = *self;
        let ghost keyword_model = keyword@;
        let optional = _StepKeyword::matches_token_tree(&keyword)
            || _FinishKeyword::matches_token_tree(&keyword);
        let value = if optional {
            self.parse_nullable(PREC_CONTROL)?
        } else {
            match self.parse_required(PREC_CONTROL) {
                Ok(value) => Some(value),
                Err(error) => return Err(blame_missing_operand(error, &keyword)),
            }
        };
        let node = DebugClause::new(lower_debug_keyword(keyword), value);
        proof {
            lemma_lx_debug_clause(node);
            lemma_lexemes_single(keyword_model);
            if value is None {
                Engine::lemma_consumed_none(*self);
            }
            assert(s0.framed() ==> lx(Expr::DebugClause(node)) =~= model_lexemes(keyword_model)
                + self.consumed(s0));
        }
        Ok(Expr::DebugClause(node))
    }

    /// Parses the contents of a consumed delimited group as a collection.
    #[verifier::rlimit(40)]
    #[verifier::spinoff_prover]
    fn parse_delimited(&mut self, token: TokenTree) -> (r: Result<Expr, NativeParseError>)
        requires
            old(self).wf(),
        ensures
            r matches Err(e) ==> !(e is Lex),
            *final(self) == *old(self),
            r matches Ok(e) ==> (model_framed(token@) ==> lx(e) == model_lexemes(token@)),
            r matches Ok(e) ==> !(e is OperatorExpr),
        decreases old(self).rem() + tree_size(token@), 6int,
    {
        let group = match token {
            TokenTree::Group(group) => group,
            token => return Err(unexpected(&token, "a delimited group")),
        };
        let kind = group.delimiter.kind;
        let delimiter_span = group.span();
        proof {
            assert(tree_size(token@) == 1 + suffix_size(group.stream@, 0));
        }
        let ghost stream = group.stream@;
        let mut contents = Engine::new(group.into_stream());
        let ghost start = contents;
        let mut muted: Vec<MutedGroup> = Vec::new();
        let ghost limit = contents.rem();
        let mut result: (Punctuated<Component>, bool);
        proof {
            Engine::lemma_consumed_none(start);
        }
        loop
            invariant_except_break
                start.framed() ==> models_lexemes(tk_list_muted_group(muted@, muted@.len() as int))
                    == contents.consumed(start),
            invariant
                contents.wf(),
                start.wf(),
                start.input.pos() == 0,
                start.input.trees() == stream,
                contents.follows(start),
                contents.rem() <= limit,
                limit < old(self).rem() + tree_size(token@),
            ensures
                start.framed() ==> models_lexemes(tk_list_muted_group(muted@, muted@.len() as int))
                    + models_lexemes(tk_punct(result.0)) == contents.consumed(start),
                result.0.spec_last() is None ==> result.0.spec_pairs().len() == 0,
            decreases contents.rem(),
        {
            let ghost before = contents;
            let (elements, comma) = contents.parse_components()?;
            let ghost middle = contents;
            let separator = match contents.take::<_Scl>() {
                Some(separator) => separator,
                None => {
                    proof {
                        Engine::lemma_consumed_chain(start, before, middle);
                    }
                    result = (elements, comma);
                    break ;
                },
            };
            if elements.is_empty() {
                return Err(unexpected(separator.raw(), "a statement before `;`"));
            }
            let group = MutedGroup::new(elements, separator);
            let ghost previous = muted@;
            muted.push(group);
            proof {
                lemma_lx_muted_group(group);
                lemma_lexemes_single(separator.raw_model());
                lemma_lx_list_muted_group_push(previous, group);
                assert(muted@ == previous.push(group));
                Engine::lemma_consumed_chain(start, before, middle);
                Engine::lemma_consumed_chain(start, middle, contents);
            }
        }
        let (elements, comma) = result;
        if let Lookahead::Token(token) = contents.peek() {
            return Err(unexpected(&token.token, "the end of the group"));
        }
        proof {
            let trees = contents.input.trees();
            crate::parse::lemma_sig_pos_bounds(trees, contents.input.pos());
            lemma_segment_trivia(trees, contents.input.pos(), trees.len() as int);
            lemma_segment_split(trees, 0, contents.input.pos(), trees.len() as int);
            lemma_segment_whole(trees);
        }
        collection_of(kind, delimiter_span, muted, elements, comma, contents.input.eof_span())
    }

    /// Parses the tokens of one cell ended by `delimiter`; an empty ordinary
    /// cell yields no cell.
    #[verifier::spinoff_prover]
    #[verifier::rlimit(40)]
    fn parse_cell(self, delimiter: Delimiter) -> (r: Result<Option<AnyCell>, NativeParseError>)
        requires
            self.wf(),
            self.input.pos() == 0,
        ensures
            r matches Err(e) ==> !(e is Lex),
            r is Ok ==> (delimiter.kind is Empty || delimiter.kind is Semicolon),
            r matches Ok(Some(cell)) ==> (self.framed() ==> models_lexemes(tk_any_cell(cell))
                == models_lexemes(self.input.trees()) + word(closing_text(delimiter.kind))),
            r matches Ok(None) ==> delimiter.kind is Empty && models_lexemes(self.input.trees())
                == Seq::<Seq<char>>::empty(),
            r matches Ok(None) <==> delimiter.kind is Empty && stream_blank(self.input.trees()),
            r matches Ok(Some(cell)) ==> (cell is MutedCell <==> delimiter.kind is Semicolon),
            r matches Ok(Some(cell)) ==> cell_grouped(cell),
            delimiter.kind is Semicolon && stream_blank(self.input.trees()) ==> (r matches Err(
                NativeParseError::Unexpected { found, .. },
            ) && found@ == ";"@),
    {
        let ghost start = self;
        let ghost trees = self.input.trees();
        let mut engine = self;
        engine.skip_trivia();
        proof {
            crate::parse::lemma_sig_pos_bounds(trees, 0);
            lemma_segment_trivia(trees, 0, engine.input.pos());
            lemma_segment_whole(trees);
        }
        if engine.at_end() {
            proof {
                if engine.input.pos() < trees.len() {
                    assert(!(trees[engine.input.pos()] is Trivia));
                }
            }
            return match delimiter.kind {
                DelimiterKind::Empty => Ok(None),
                DelimiterKind::Semicolon => Err(
                    NativeParseError::Unexpected {
                        found: owned(";"),
                        expected: "a statement before `;`",
                        span: delimiter.closing_span(),
                    },
                ),
                _ => Err(
                    NativeParseError::Unexpected {
                        found: owned(delimiter.kind.opening()),
                        expected: "an empty or semicolon cell delimiter",
                        span: delimiter.span,
                    },
                ),
            };
        }
        let ghost before = engine;
        let (components, comma) = engine.parse_components()?;
        if let Lookahead::Token(token) = engine.peek() {
            return Err(unexpected(&token.token, "the end of the cell"));
        }
        proof {
            Engine::lemma_consumed_chain(start, before, engine);
            crate::parse::lemma_sig_pos_bounds(trees, engine.input.pos());
            lemma_segment_trivia(trees, engine.input.pos(), trees.len() as int);
            lemma_segment_split(trees, 0, engine.input.pos(), trees.len() as int);
            assert(start.framed() ==> models_lexemes(trees) =~= models_lexemes(tk_punct(components)));
        }
        match delimiter.kind {
            DelimiterKind::Semicolon => {
                let closing = delimiter.closing_span();
                let semicolon = _Scl::new(closing);
                let cell = MutedCell::new(components, semicolon);
                proof {
                    crate::tokens::lemma_fresh_semicolon(closing);
                    lemma_lx_muted_cell(cell);
                    lemma_lexemes_single(semicolon.raw_model());
                    assert(model_lexemes(semicolon.raw_model()) =~= word(closing_text(delimiter.kind)));
                }
                Ok(Some(AnyCell::MutedCell(cell)))
            },
            DelimiterKind::Empty => {
                if comma {
                    let cell = SequenceCell::new(NakedSequence::new(components));
                    proof {
                        lemma_lx_sequence_cell(cell);
                        lemma_lx_naked_sequence(cell.value);
                        assert(word(closing_text(delimiter.kind)) =~= Seq::<Seq<char>>::empty());
                    }
                    Ok(Some(AnyCell::SequenceCell(cell)))
                } else {
                    let ghost punct = components;
                    let value = only_expression(components, engine.input.eof_span())?;
                    let cell = ExpressionCell::new(value);
                    proof {
                        lemma_lx_expression_cell(cell);
                        if punct.spec_last() is None {
                            assert(punct.spec_pairs().len() == 0);
                            crate::punct::lemma_values(punct);
                        }
                        assert(word(closing_text(delimiter.kind)) =~= Seq::<Seq<char>>::empty());
                    }
                    Ok(Some(AnyCell::ExpressionCell(cell)))
                }
            },
            _ => Err(
                NativeParseError::Unexpected {
                    found: owned(delimiter.kind.opening()),
                    expected: "an empty or semicolon cell delimiter",
                    span: delimiter.span,
                },
            ),
        }
    }
}

/// Whether a token stream holds nothing but trivia.
pub open spec fn stream_blank(s: Seq<TokenModel>) -> bool {
    crate::parse::sig_pos(s, 0) >= s.len()
}

/// The cells that become elements of a parsed file, in order: those holding
/// a significant token.
pub open spec fn element_cells(cells: Seq<CellModel>) -> Seq<CellModel>
    decreases cells.len(),
{
    if cells.len() == 0 {
        seq![]
    } else if stream_blank(cells.last().stream) {
        element_cells(cells.drop_last())
    } else {
        element_cells(cells.drop_last()).push(cells.last())
    }
}

/// Whether every cell is a blank ordinary cell.
pub open spec fn cells_blank(cells: Seq<CellModel>) -> bool {
    forall|i: int|
        0 <= i < cells.len() ==> stream_blank(#[trigger] cells[i].stream) && cells[i].delimiter.kind
            is Empty
}

proof fn lemma_blank_prefix(c: Seq<CellModel>, m: int, k: int)
    requires
        0 <= k <= m <= c.len(),
        cells_blank(c.subrange(0, m)),
    ensures
        cells_blank(c.subrange(0, k)),
{
    let a = c.subrange(0, m);
    let b = c.subrange(0, k);
    assert forall|i: int| 0 <= i < b.len() implies stream_blank(#[trigger] b[i].stream)
        && b[i].delimiter.kind is Empty by {
        assert(b[i] == a[i]);
        assert(stream_blank(a[i].stream));
    }
}

/// What parsing the cells `cells` gives, as far as it is fixed without the
/// expression grammar: no lexical error; on success one element per cell
/// with a significant token, in order, muted exactly for the cells a `;`
/// ended, emitting the cells' lexemes; success with no element for blank
/// cells; and the `;` reported when the first cell that is not blank is a
/// `;` with nothing before it.
pub open spec fn cells_parse_outcome(cells: Seq<CellModel>, r: Result<SourceFile, NativeParseError>) -> bool {
    &&& r matches Err(e) ==> !(e is Lex)
    &&& r matches Ok(file) ==> (cells_framed(cells) ==> models_lexemes(tk_source_file(file))
        == cells_lexemes(cells))
    &&& r matches Ok(file) ==> file.elements@.len() == element_cells(cells).len() && forall|i: int|
        0 <= i < file.elements@.len() ==> ((#[trigger] file.elements@[i]) is MutedCell
            <==> element_cells(cells)[i].delimiter.kind is Semicolon)
    &&& r matches Ok(file) ==> forall|i: int|
        0 <= i < file.elements@.len() ==> cell_grouped(#[trigger] file.elements@[i])
    &&& cells_blank(cells) ==> (r matches Ok(file) && file.elements@.len() == 0)
    &&& (exists|k: int|
        0 <= k < cells.len() && cells_blank(cells.subrange(0, k)) && stream_blank(
            #[trigger] cells[k].stream,
        ) && cells[k].delimiter.kind is Semicolon) ==> (r matches Err(
        NativeParseError::Unexpected { found, .. },
    ) && found@ == ";"@)
}

/// Parses lexed cells into a typed source file, one element per nonempty cell.
///
/// The parse keeps every significant token: when every string literal of the
/// input is framed by its quotes, the lexemes the file emits are exactly those
/// of the input cells, in order.
pub fn parse_cells(cells: CellStream) -> (r: Result<SourceFile, NativeParseError>)
    ensures
        cells_parse_outcome(cells@, r),
{
    let ghost original = cells@;
    let ghost blocks = cells.cells@;
    let mut elements: Vec<AnyCell> = Vec::new();
    let mut forward = cells.into_cells();
    let ghost n = forward@.len();
    let mut pending: Vec<crate::token_stream::CellBlock> = Vec::new();
    while forward.len() > 0
        invariant
            forward@.len() + pending@.len() == n,
            n == blocks.len(),
            forward@ == blocks.subrange(0, forward@.len() as int),
            forall|i: int| 0 <= i < pending@.len() ==> #[trigger] pending@[i] == blocks[n - 1 - i],
        decreases forward.len(),
    {
        let ghost before = forward@;
        let cell = forward.pop().unwrap();
        proof {
            assert(cell == before.last());
            assert(forward@ =~= blocks.subrange(0, forward@.len() as int));
        }
        pending.push(cell);
    }
    proof {
        assert(elements@.len() == 0);
        assert(original.subrange(0, 0) =~= Seq::<CellModel>::empty());
    }
    while pending.len() > 0
        invariant
            pending@.len() <= n,
            n == blocks.len(),
            original == crate::token_stream::cells_model(blocks),
            forall|i: int| 0 <= i < pending@.len() ==> #[trigger] pending@[i] == blocks[n - 1 - i],
            cells_framed(original) ==> models_lexemes(tk_list_any_cell(elements@, elements@.len() as int))
                == cells_lexemes(original.subrange(0, n - pending@.len())),
            elements@.len() == element_cells(original.subrange(0, n - pending@.len())).len(),
            forall|i: int|
                0 <= i < elements@.len() ==> ((#[trigger] elements@[i]) is MutedCell
                    <==> element_cells(original.subrange(0, n - pending@.len()))[i].delimiter.kind
                    is Semicolon),
            cells_blank(original.subrange(0, n - pending@.len())) ==> elements@.len() == 0,
            forall|i: int| 0 <= i < elements@.len() ==> cell_grouped(#[trigger] elements@[i]),
            forall|j: int|
                0 <= j < n - pending@.len() ==> !(cells_blank(original.subrange(0, j))
                    && stream_blank(#[trigger] original[j].stream) && original[j].delimiter.kind
                    is Semicolon),
            original.len() == n,
            original == cells@,
        decreases pending.len(),
    {
        let ghost k: int = n - pending@.len();
        let ghost done = original.subrange(0, k);
        let ghost next = original.subrange(0, k + 1);
        let cell = pending.pop().unwrap();
        proof {
            assert(cell == blocks[k]);
            assert(original[k] == crate::token_stream::cell_model(cell));
            lemma_cells_lexemes_prefix(original, k);
            assert(next.drop_last() =~= done);
            assert(next.last() == original[k]);
        }
        let delimiter = cell.delimiter;
        let ghost stream = cell.stream@;
        let engine = Engine::new(cell.into_stream());
        let parsed = engine.parse_cell(delimiter);
        proof {
            if parsed is Err {
                assert(!(stream_blank(original[k].stream) && original[k].delimiter.kind is Empty));
                assert(!cells_blank(original));
                if exists|j: int|
                    0 <= j < original.len() && cells_blank(original.subrange(0, j)) && stream_blank(
                        #[trigger] original[j].stream,
                    ) && original[j].delimiter.kind is Semicolon {
                    let j = choose|j: int|
                        0 <= j < original.len() && cells_blank(original.subrange(0, j))
                            && stream_blank(#[trigger] original[j].stream)
                            && original[j].delimiter.kind is Semicolon;
                    if j > k {
                        assert(original.subrange(0, j)[k] == original[k]);
                    }
                    assert(j == k);
                }
            }
        }
        match parsed? {
            Some(element) => {
                let ghost previous = elements@;
                elements.push(element);
                proof {
                    lemma_lx_list_any_cell_push(previous, element);
                    if cells_framed(original) {
                        assert(models_framed(original[k].stream));
                    }
                    assert(element_cells(next) == element_cells(done).push(original[k]));
                    assert forall|i: int| 0 <= i < elements@.len() implies ((#[trigger] elements@[i])
                        is MutedCell <==> element_cells(next)[i].delimiter.kind is Semicolon) by {
                        if i < previous.len() {
                            assert(elements@[i] == previous[i]);
                        }
                    }
                    assert(!cells_blank(next)) by {
                        assert(!(stream_blank(next[k].stream) && next[k].delimiter.kind is Empty));
                    }
                }
            },
            None => {
                proof {
                    assert(cell_lexemes(original[k]) =~= Seq::<Seq<char>>::empty());
                    assert(element_cells(next) == element_cells(done));
                    if cells_blank(next) {
                        lemma_blank_prefix(original, k + 1, k);
                    }
                }
            },
        }
    }
    let file = SourceFile::new(elements);
    proof {
        lemma_lx_source_file(file);
        assert(original.subrange(0, n as int) =~= original);
        assert(file.elements == elements);
    }
    Ok(file)
}

/// What lexing and parsing `source` natively gives: a lexical error that
/// bytes of the source show, or else the outcome of parsing the cells the
/// source lexes to, which on success emit exactly those cells' lexemes.
pub open spec fn native_outcome(
    source: Seq<char>,
    source_id: SourceId,
    r: Result<SourceFile, NativeParseError>,
) -> bool {
    &&& r matches Err(NativeParseError::Lex(e)) ==> crate::lexer::lex_error_shown(
        encode_utf8(source),
        source_id,
        e,
    )
    &&& !(r matches Err(NativeParseError::Lex(_))) ==> exists|cells: CellStream|
        #[trigger] crate::lexer::lexes_to(source, source_id, cells) && cells_parse_outcome(
            cells@,
            r,
        ) && (r matches Ok(file) ==> models_lexemes(tk_source_file(file)) == cells_lexemes(
            cells@,
        ))
}

/// Lexes and parses Macaulay2 source with the native precedence parser.
///
/// On success the file comes from cells that render exactly the source and
/// have the shape the lexer gives its tokens, and it emits exactly their
/// lexemes. A lexical error reports bytes of the source that show it; every other error
/// comes from the parser.
pub fn parse_native(source: &str, source_id: SourceId) -> (r: Result<SourceFile, NativeParseError>)
    ensures
        native_outcome(source@, source_id, r),
{
    let tokens = match lex_str(source, source_id) {
        Ok(tokens) => tokens,
        Err(error) => return Err(NativeParseError::Lex(error)),
    };
    let ghost lexed = tokens;
    let ghost cells = tokens@;
    let r = parse_cells(tokens);
    proof {
        crate::lexer::lemma_cells_shaped_framed(cells);
        assert(crate::lexer::lexes_to(source@, source_id, lexed));
    }
    r
}

/// The built-in parser implemented directly from Macaulay2's precedence table.
#[derive(Debug, Default)]
pub struct NativeParser;

impl NativeParser {
    /// The parser; it holds no state.
    pub fn new() -> (parser: Self)
        ensures
            parser == NativeParser,
    {
        NativeParser
    }
}

impl Parser<SourceFile> for NativeParser {
    type Error = NativeParseError;

    /// Parses the cells exactly as [`parse_cells`] does.
    fn parse(&mut self, tokens: CellStream) -> (r: Result<SourceFile, NativeParseError>)
        ensures
            cells_parse_outcome(tokens@, r),
    {
        parse_cells(tokens)
    }
}

/// Every expression cell of a natively parsed file groups its operands by
/// the precedence table, all along its operator spine.
pub proof fn law_cells_group_by_the_table(
    source: Seq<char>,
    source_id: SourceId,
    file: SourceFile,
    i: int,
)
    requires
        native_outcome(source, source_id, Ok(file)),
        0 <= i < file.elements@.len(),
        file.elements@[i] is ExpressionCell,
    ensures
        grouped_by_strength(*file.elements@[i]->ExpressionCell_0.value),
{
    let cells = choose|cells: CellStream|
        #[trigger] crate::lexer::lexes_to(source, source_id, cells) && cells_parse_outcome(
            cells@,
            Ok::<SourceFile, NativeParseError>(file),
        ) && models_lexemes(tk_source_file(file)) == cells_lexemes(cells@);
    assert(cell_grouped(file.elements@[i]));
}

/// Binary operators group by the precedence table. When an expression cell
/// of a natively parsed file is a binary expression `b` (other than
/// adjacency), its right operand holds no top-level operator whose
/// precedence is at most `b`'s binding strength, and an operator standing as
/// its left operand binds at least as strongly as `b`'s precedence. So an
/// operator whose strength equals its precedence, such as `-`, associates to
/// the left: `a - b - c` is `(a - b) - c`.
pub proof fn law_binary_operands_follow_the_table(
    source: Seq<char>,
    source_id: SourceId,
    file: SourceFile,
    i: int,
    b: BinaryExpression,
)
    requires
        native_outcome(source, source_id, Ok(file)),
        0 <= i < file.elements@.len(),
        file.elements@[i] is ExpressionCell,
        *file.elements@[i]->ExpressionCell_0.value == Expr::OperatorExpr(
            OperatorExpr::BinaryExpression(b),
        ),
        !is_adjacency(b.operator),
    ensures
        !((*b.right) matches Expr::OperatorExpr(OperatorExpr::BinaryExpression(r)) && !is_adjacency(
            r.operator,
        ) && operator_precedence(r.operator) <= binding_strength(b.operator)),
        (*b.left) matches Expr::OperatorExpr(OperatorExpr::BinaryExpression(l)) ==> (is_adjacency(
            l.operator,
        ) || binding_strength(l.operator) >= operator_precedence(b.operator)),
{
    law_cells_group_by_the_table(source, source_id, file, i);
}

} // verus!
