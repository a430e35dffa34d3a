//! Parsing boundaries over the shared raw token representation.
//!
//! [`Parser`] consumes a whole [`CellStream`] and is the backend interface.
//! [`Parse`] consumes one value from a [`ParseStream`] and is the dual of
//! [`ToTokens`](crate::token_stream::ToTokens). Native parsing and typed token
//! parsing use the same cursor instead of maintaining parallel token arrays.
use std::rc::Rc;

use vstd::prelude::*;
use vstd::utf8::encode_utf8;

use crate::cst::Token;
use crate::delim::DelimiterKind;
use crate::lexer::{lex_str, LexError};
use crate::span::{SourceId, Span, Spanned, TextRange};
use crate::text::{decimal, push_decimal};
use crate::token_stream::{
    append_str, cell_model, cells_text, lemma_seq_model_index, lemma_seq_model_len, model_span, model_spelling,
    CellModel, CellStream, TokenModel, TokenStream, TokenTree, TriviaKind,
};

verus! {

/// The zero-width located span at the end of `span`; detached when unlocated.
pub open spec fn point_after(span: Span) -> Span {
    match span {
        Span::FileLocated { source, range: TextRange::Range { end, .. } } => Span::FileLocated {
            source,
            range: TextRange::Range { start: end, end },
        },
        _ => Span::Detached,
    }
}

/// Returns the zero-width located span at the end of `span`.
pub fn boundary_after(span: Span) -> (r: Span)
    ensures
        r == point_after(span),
{
    match (span.source(), span.end_point()) {
        (Ok(source), Ok(point)) => Span::new(source, TextRange::from_point(point)),
        _ => Span::detached(),
    }
}

/// The span reported at the end of a token sequence: just after its last tree.
pub open spec fn eof_span_of(trees: Seq<TokenModel>) -> Span {
    if trees.len() == 0 {
        Span::Detached
    } else {
        point_after(model_span(trees.last()))
    }
}

/// The first position at or after `p` that does not hold trivia.
pub open spec fn sig_pos(trees: Seq<TokenModel>, p: int) -> int
    decreases trees.len() - p,
{
    if p < 0 || p >= trees.len() {
        trees.len() as int
    } else if trees[p] is Trivia {
        sig_pos(trees, p + 1)
    } else {
        p
    }
}

/// Whether trivia between `from` and `to` spans a physical line break.
pub open spec fn crosses_newline(trees: Seq<TokenModel>, from: int, to: int) -> bool {
    exists|i: int|
        from <= i < to && 0 <= i < trees.len() && ((#[trigger] trees[i]) matches TokenModel::Trivia {
            text,
            ..
        } && text.contains('\n'))
}

pub proof fn lemma_sig_pos_bounds(trees: Seq<TokenModel>, p: int)
    requires
        0 <= p <= trees.len(),
    ensures
        p <= sig_pos(trees, p) <= trees.len(),
        sig_pos(trees, p) < trees.len() ==> !(trees[sig_pos(trees, p)] is Trivia),
        forall|i: int| p <= i < sig_pos(trees, p) ==> (#[trigger] trees[i]) is Trivia,
    decreases trees.len() - p,
{
    if p < trees.len() && trees[p] is Trivia {
        lemma_sig_pos_bounds(trees, p + 1);
    }
}

/// One significant (non-trivia) token together with facts about the trivia
/// immediately before it.
pub struct SignificantToken {
    pub token: TokenTree,
    pub crossed_newline: bool,
    pub leading_span: Span,
}

/// The next significant token, or the end of input with its span.
pub enum Lookahead {
    Token(SignificantToken),
    End(Span),
}

impl Lookahead {
    /// The span of the significant token, or the end-of-input span.
    pub fn span(&self) -> (span: Span)
        ensures
            span == (match self {
                Lookahead::Token(t) => model_span(t.token@),
                Lookahead::End(s) => *s,
            }),
    {
        match self {
            Lookahead::Token(token) => token.token.span(),
            Lookahead::End(span) => *span,
        }
    }
}

/// An owned, cheaply forkable cursor over one immutable token stream.
///
/// Forks share the token storage and copy only their current position.
/// Advancing a fork never changes the cursor from which it came.
pub struct ParseStream {
    tokens: Rc<TokenStream>,
    position: usize,
    eof_span: Span,
}

/// Shares the immutable token storage of a cursor.
#[verifier::external_body]
fn share_tokens(tokens: &Rc<TokenStream>) -> (shared: Rc<TokenStream>)
    ensures
        shared == *tokens,
{
    Rc::clone(tokens)
}

impl ParseStream {
    /// The models of the token trees under the cursor.
    pub closed spec fn trees(&self) -> Seq<TokenModel> {
        (*self.tokens)@
    }

    /// The cursor position.
    pub closed spec fn pos(&self) -> int {
        self.position as int
    }

    /// The span reported at the end of input.
    pub closed spec fn spec_eof_span(&self) -> Span {
        self.eof_span
    }

    /// The position of the next significant token.
    pub open spec fn next_sig(&self) -> int {
        sig_pos(self.trees(), self.pos())
    }

    #[verifier::type_invariant]
    closed spec fn inv(&self) -> bool {
        &&& self.position <= self.tokens.0@.len()
        &&& self.tokens.0@.len() == (*self.tokens)@.len()
    }

    /// Creates a cursor at the beginning of `tokens`.
    pub fn new(tokens: TokenStream) -> (stream: Self)
        ensures
            stream.trees() == tokens@,
            stream.pos() == 0,
            stream.trees().len() == tokens.0@.len(),
            stream.spec_eof_span() == eof_span_of(tokens@),
    {
        proof {
            lemma_seq_model_len(tokens.0@);
        }
        let eof_span = match tokens.last() {
            Some(token) => boundary_after(token.span()),
            None => Span::detached(),
        };
        proof {
            if tokens.0@.len() > 0 {
                lemma_seq_model_index(tokens.0@, tokens.0@.len() - 1);
            }
        }
        ParseStream { tokens: Rc::new(tokens), position: 0, eof_span }
    }

    /// The cursor position, which never passes the end of the trees.
    pub fn position(&self) -> (position: usize)
        ensures
            position == self.pos(),
            position <= self.trees().len(),
    {
        proof {
            use_type_invariant(self);
        }
        self.position
    }

    /// Creates an independent cursor over the same immutable token storage.
    pub fn fork(&self) -> (fork: Self)
        ensures
            fork.trees() == self.trees(),
            fork.pos() == self.pos(),
            fork.pos() <= fork.trees().len(),
            fork.spec_eof_span() == self.spec_eof_span(),
    {
        proof {
            use_type_invariant(self);
        }
        ParseStream {
            tokens: share_tokens(&self.tokens),
            position: self.position,
            eof_span: self.eof_span,
        }
    }

    /// Commits this cursor to a position reached by one of its forks.
    pub fn advance_to(&mut self, fork: &Self)
        requires
            old(self).trees() == fork.trees(),
        ensures
            final(self).trees() == old(self).trees(),
            final(self).pos() == fork.pos(),
            final(self).pos() <= final(self).trees().len(),
            final(self).spec_eof_span() == old(self).spec_eof_span(),
    {
        proof {
            use_type_invariant(&*self);
            use_type_invariant(fork);
        }
        self.position = fork.position;
    }

    /// The trees under the cursor.
    fn stream(&self) -> (stream: &TokenStream)
        ensures
            stream@ == self.trees(),
            stream.0@.len() == self.trees().len(),
    {
        proof {
            use_type_invariant(self);
        }
        &*self.tokens
    }

    fn tree_at(&self, position: usize) -> (tree: Option<&TokenTree>)
        ensures
            position < self.trees().len() ==> (tree matches Some(t) && t@ == self.trees()[position as int]),
            position >= self.trees().len() ==> tree is None,
    {
        let stream = self.stream();
        let tree = stream.get(position);
        proof {
            if position < self.trees().len() {
                lemma_seq_model_index(stream.0@, position as int);
            }
        }
        tree
    }

    fn significant_position(&self) -> (position: usize)
        ensures
            position == self.next_sig(),
    {
        proof {
            use_type_invariant(self);
            lemma_seq_model_len(self.tokens.0@);
        }
        let mut position = self.position;
        while position < self.stream().len() && self.tree_at(position).unwrap().is_trivia()
            invariant
                self.pos() <= position <= self.trees().len(),
                sig_pos(self.trees(), position as int) == sig_pos(self.trees(), self.pos()),
            decreases self.trees().len() - position,
        {
            position = position + 1;
        }
        position
    }

    /// Returns the next significant token without consuming it.
    pub fn peek(&self) -> (token: Option<&TokenTree>)
        ensures
            self.next_sig() < self.trees().len() ==> (token matches Some(t) && t@
                == self.trees()[self.next_sig()]),
            self.next_sig() >= self.trees().len() ==> token is None,
    {
        let position = self.significant_position();
        self.tree_at(position)
    }

    /// Whether no significant token remains.
    pub fn is_empty(&self) -> (r: bool)
        ensures
            r == (self.next_sig() >= self.trees().len()),
    {
        self.peek().is_none()
    }

    /// The span reported at the end of input.
    pub fn eof_span(&self) -> (span: Span)
        ensures
            span == self.spec_eof_span(),
    {
        self.eof_span
    }

    fn set_position(&mut self, position: usize)
        requires
            position <= old(self).trees().len(),
        ensures
            final(self).trees() == old(self).trees(),
            final(self).pos() == position,
            final(self).spec_eof_span() == old(self).spec_eof_span(),
    {
        proof {
            use_type_invariant(&*self);
        }
        self.position = position;
    }

    /// Moves the cursor past any trivia.
    pub fn skip_trivia(&mut self)
        ensures
            final(self).trees() == old(self).trees(),
            final(self).pos() == old(self).next_sig(),
            final(self).pos() <= final(self).trees().len(),
            final(self).spec_eof_span() == old(self).spec_eof_span(),
    {
        let position = self.significant_position();
        proof {
            use_type_invariant(&*self);
            lemma_sig_pos_bounds(self.trees(), self.pos());
        }
        self.set_position(position);
    }

    /// Consumes the next token, including trivia.
    pub fn next_raw_token(&mut self) -> (token: Option<TokenTree>)
        ensures
            final(self).trees() == old(self).trees(),
            final(self).pos() <= final(self).trees().len(),
            final(self).spec_eof_span() == old(self).spec_eof_span(),
            old(self).pos() < old(self).trees().len() ==> {
                &&& token matches Some(t) && t@ == old(self).trees()[old(self).pos()]
                &&& final(self).pos() == old(self).pos() + 1
            },
            old(self).pos() >= old(self).trees().len() ==> token is None && final(self).pos()
                == old(self).pos(),
    {
        proof {
            use_type_invariant(&*self);
        }
        let position = self.position;
        if position < self.stream().len() {
            let token = self.tree_at(position).unwrap().duplicate();
            self.set_position(position + 1);
            Some(token)
        } else {
            None
        }
    }

    /// Consumes and returns the next significant token.
    pub fn next_token(&mut self) -> (token: Option<TokenTree>)
        ensures
            final(self).trees() == old(self).trees(),
            final(self).pos() <= final(self).trees().len(),
            final(self).spec_eof_span() == old(self).spec_eof_span(),
            old(self).next_sig() < old(self).trees().len() ==> {
                &&& token matches Some(t) && t@ == old(self).trees()[old(self).next_sig()]
                &&& final(self).pos() == old(self).next_sig() + 1
            },
            old(self).next_sig() >= old(self).trees().len() ==> token is None && final(self).pos()
                == old(self).next_sig(),
    {
        self.skip_trivia();
        self.next_raw_token()
    }

    /// Looks at the next significant token and the trivia before it.
    pub fn lookahead(&self) -> (lookahead: Lookahead)
        ensures
            self.next_sig() < self.trees().len() ==> (lookahead matches Lookahead::Token(t) && {
                &&& t.token@ == self.trees()[self.next_sig()]
                &&& t.crossed_newline == crosses_newline(self.trees(), self.pos(), self.next_sig())
                &&& t.leading_span == crate::delim::point_before(model_span(t.token@))
            }),
            self.next_sig() >= self.trees().len() ==> lookahead == Lookahead::End(
                self.spec_eof_span(),
            ),
    {
        proof {
            use_type_invariant(&*self);
            lemma_sig_pos_bounds(self.trees(), self.pos());
        }
        let mut position = self.position;
        let mut crossed_newline = false;
        let mut leading_span = Span::detached();
        while position < self.stream().len() && self.tree_at(position).unwrap().is_trivia()
            invariant
                self.pos() <= position <= self.trees().len(),
                sig_pos(self.trees(), position as int) == self.next_sig(),
                self.pos() <= self.next_sig() <= self.trees().len(),
                forall|i: int| self.pos() <= i < self.next_sig() ==> (#[trigger] self.trees()[i]) is Trivia,
                crossed_newline == crosses_newline(self.trees(), self.pos(), position as int),
                leading_span is Detached,
            decreases self.trees().len() - position,
        {
            let tree = self.tree_at(position).unwrap();
            let breaks = tree.is_line_break();
            crossed_newline = crossed_newline || breaks;
            leading_span = leading_span.join(tree.span());
            proof {
                let trees = self.trees();
                if breaks {
                    assert(crosses_newline(trees, self.pos(), position + 1)) by {
                        assert(self.pos() <= position < position + 1);
                        assert(trees[position as int] matches TokenModel::Trivia { text, .. }
                            && text.contains('\n'));
                    }
                }
                if crosses_newline(trees, self.pos(), position + 1) && !crosses_newline(
                    trees,
                    self.pos(),
                    position as int,
                ) {
                    let i = choose|i: int|
                        self.pos() <= i < position + 1 && 0 <= i < trees.len() && ((
                        #[trigger] trees[i]) matches TokenModel::Trivia { text, .. } && text.contains(
                            '\n',
                        ));
                    assert(i == position);
                }
            }
            position = position + 1;
        }
        match self.tree_at(position) {
            Some(tree) => {
                let token = tree.duplicate();
                let leading_span = if leading_span == Span::detached() {
                    crate::delim::boundary_before(token.span())
                } else {
                    leading_span
                };
                Lookahead::Token(SignificantToken { token, crossed_newline, leading_span })
            },
            None => Lookahead::End(self.eof_span),
        }
    }

    /// Consumes the next significant token, reporting the trivia before it.
    pub fn consume_lookahead(&mut self) -> (lookahead: Lookahead)
        ensures
            final(self).trees() == old(self).trees(),
            final(self).pos() <= final(self).trees().len(),
            final(self).spec_eof_span() == old(self).spec_eof_span(),
            old(self).next_sig() < old(self).trees().len() ==> (lookahead matches Lookahead::Token(
                t,
            ) && {
                &&& t.token@ == old(self).trees()[old(self).next_sig()]
                &&& t.crossed_newline == crosses_newline(
                    old(self).trees(),
                    old(self).pos(),
                    old(self).next_sig(),
                )
                &&& t.leading_span == crate::delim::point_before(model_span(t.token@))
                &&& final(self).pos() == old(self).next_sig() + 1
            }),
            old(self).next_sig() >= old(self).trees().len() ==> lookahead == Lookahead::End(
                old(self).spec_eof_span(),
            ) && final(self).pos() == old(self).pos(),
    {
        proof {
            use_type_invariant(&*self);
            lemma_sig_pos_bounds(self.trees(), self.pos());
        }
        let lookahead = self.lookahead();
        let position = self.significant_position();
        if position < self.stream().len() {
            self.set_position(position + 1);
        }
        lookahead
    }

    /// Parses one typed token from its matching raw atom.
    pub fn parse_token<T: Token>(&mut self) -> (r: Result<T, TokenParseError>)
        ensures
            final(self).trees() == old(self).trees(),
            final(self).pos() <= final(self).trees().len(),
            final(self).spec_eof_span() == old(self).spec_eof_span(),
            token_outcome(old(self).trees(), old(self).pos(), old(self).spec_eof_span(), r),
            old(self).pos() >= old(self).trees().len() ==> final(self).pos() == old(self).pos(),
            old(self).pos() < old(self).trees().len() ==> final(self).pos() == old(self).pos() + 1,
    {
        proof {
            use_type_invariant(&*self);
        }
        let expected = T::spelling_text();
        match self.next_raw_token() {
            None => Err(TokenParseError::UnexpectedEnd { expected, span: self.eof_span }),
            Some(token) => {
                let span = token.span();
                let found = describe_token(&token);
                match T::from_token_tree(token) {
                    Some(t) => Ok(t),
                    None => Err(TokenParseError::UnexpectedToken { expected, found, span }),
                }
            },
        }
    }

    /// Fails with the first significant token left after a complete parse.
    pub fn finish(&mut self) -> (r: Result<(), TokenParseError>)
        ensures
            final(self).trees() == old(self).trees(),
            old(self).next_sig() >= old(self).trees().len() ==> r is Ok,
            old(self).next_sig() < old(self).trees().len() ==> {
                let raw = old(self).trees()[old(self).next_sig()];
                r matches Err(TokenParseError::TrailingToken { found, span }) && found@
                    == token_description(raw) && span == model_span(raw)
            },
    {
        match self.next_token() {
            None => Ok(()),
            Some(token) => Err(
                TokenParseError::TrailingToken { found: describe_token(&token), span: token.span() },
            ),
        }
    }
}

/// What parsing a token of type `T` at raw position `pos` of `trees` gives:
/// the token retaining the atom there, or the error that reports the atom or
/// the end of input.
pub open spec fn token_outcome<T: Token>(
    trees: Seq<TokenModel>,
    pos: int,
    eof_span: Span,
    r: Result<T, TokenParseError>,
) -> bool {
    if pos >= trees.len() {
        r matches Err(TokenParseError::UnexpectedEnd { expected, span }) && expected@
            == T::spec_spelling() && span == eof_span
    } else {
        let raw = trees[pos];
        if T::spec_matches(raw) {
            r matches Ok(t) && t.spec_raw() == raw
        } else {
            r matches Err(TokenParseError::UnexpectedToken { expected, found, span }) && expected@
                == T::spec_spelling() && found@ == token_description(raw) && span == model_span(raw)
        }
    }
}

/// An error produced while parsing typed syntax from tokens.
#[derive(Debug, Clone, PartialEq, Eq)]
pub enum TokenParseError {
    UnexpectedEnd { expected: &'static str, span: Span },
    UnexpectedToken { expected: &'static str, found: String, span: Span },
    TrailingToken { found: String, span: Span },
    Syntax { message: String, span: Span },
}

/// The diagnostic text of a trivia kind.
pub open spec fn trivia_description(kind: TriviaKind) -> Seq<char> {
    match kind {
        TriviaKind::Whitespace => "whitespace"@,
        TriviaKind::CarriageReturn => "carriage return"@,
        TriviaKind::LineBreak => "line break"@,
        TriviaKind::LineComment => "line comment"@,
        TriviaKind::BlockComment => "block comment"@,
    }
}

/// How a token is named in diagnostics: a group by its opening delimiter,
/// trivia by its kind, and an atom by its spelling.
pub open spec fn token_description(m: TokenModel) -> Seq<char> {
    match m {
        TokenModel::Group { delimiter, .. } => crate::delim::opening_text(delimiter.kind),
        TokenModel::Trivia { kind, .. } => trivia_description(kind),
        _ => match model_spelling(m) {
            Some(text) => text,
            None => seq![],
        },
    }
}

fn describe_trivia(kind: TriviaKind) -> (text: &'static str)
    ensures
        text@ == trivia_description(kind),
{
    match kind {
        TriviaKind::Whitespace => "whitespace",
        TriviaKind::CarriageReturn => "carriage return",
        TriviaKind::LineBreak => "line break",
        TriviaKind::LineComment => "line comment",
        TriviaKind::BlockComment => "block comment",
    }
}

/// The diagnostic name of a token.
pub fn describe_token(token: &TokenTree) -> (text: String)
    ensures
        text@ == token_description(token@),
{
    let mut text = String::new();
    match token {
        TokenTree::Group(group) => append_str(&mut text, group.delim_kind().opening()),
        TokenTree::Trivia(trivia) => append_str(&mut text, describe_trivia(trivia.kind)),
        _ => match token.spelling() {
            Some(spelling) => append_str(&mut text, spelling),
            None => {},
        },
    }
    proof {
        assert(text@ =~= token_description(token@));
    }
    text
}

impl TokenParseError {
    /// The diagnostic text of this error.
    pub fn to_string(&self) -> (text: String)
        ensures
            text@ == (match self {
                TokenParseError::UnexpectedEnd { expected, .. } => "expected `"@ + expected@
                    + "`, found the end of input"@,
                TokenParseError::UnexpectedToken { expected, found, .. } => "expected `"@
                    + expected@ + "`, found `"@ + found@ + "`"@,
                TokenParseError::TrailingToken { found, .. } => "expected the end of input, found `"@
                    + found@ + "`"@,
                TokenParseError::Syntax { message, .. } => message@,
            }),
    {
        let mut text = String::new();
        match self {
            TokenParseError::UnexpectedEnd { expected, .. } => {
                append_str(&mut text, "expected `");
                append_str(&mut text, expected);
                append_str(&mut text, "`, found the end of input");
            },
            TokenParseError::UnexpectedToken { expected, found, .. } => {
                append_str(&mut text, "expected `");
                append_str(&mut text, expected);
                append_str(&mut text, "`, found `");
                append_str(&mut text, found.as_str());
                append_str(&mut text, "`");
            },
            TokenParseError::TrailingToken { found, .. } => {
                append_str(&mut text, "expected the end of input, found `");
                append_str(&mut text, found.as_str());
                append_str(&mut text, "`");
            },
            TokenParseError::Syntax { message, .. } => {
                append_str(&mut text, message.as_str());
            },
        }
        proof {
            assert(text@ =~= (match self {
                TokenParseError::UnexpectedEnd { expected, .. } => "expected `"@ + expected@
                    + "`, found the end of input"@,
                TokenParseError::UnexpectedToken { expected, found, .. } => "expected `"@
                    + expected@ + "`, found `"@ + found@ + "`"@,
                TokenParseError::TrailingToken { found, .. } => "expected the end of input, found `"@
                    + found@ + "`"@,
                TokenParseError::Syntax { message, .. } => message@,
            }));
        }
        text
    }
}

impl Spanned for TokenParseError {
    open spec fn spec_span(&self) -> Span {
        match self {
            TokenParseError::UnexpectedEnd { span, .. } => *span,
            TokenParseError::UnexpectedToken { span, .. } => *span,
            TokenParseError::TrailingToken { span, .. } => *span,
            TokenParseError::Syntax { span, .. } => *span,
        }
    }

    fn span(&self) -> (span: Span) {
        match self {
            TokenParseError::UnexpectedEnd { span, .. } => *span,
            TokenParseError::UnexpectedToken { span, .. } => *span,
            TokenParseError::TrailingToken { span, .. } => *span,
            TokenParseError::Syntax { span, .. } => *span,
        }
    }
}

/// An error produced while lexing or parsing one typed syntax fragment.
#[derive(Debug, Clone, PartialEq, Eq)]
pub enum FragmentParseError {
    /// The source could not be converted into token trees.
    Lex(LexError),
    /// The token trees did not match the requested fragment type.
    Parse(TokenParseError),
    /// The source held top-level cell boundaries and so was not one fragment.
    MultipleCells { count: usize },
}

impl FragmentParseError {
    /// The diagnostic text of this error.
    pub fn to_string(&self) -> (text: String)
        ensures
            text@ == (match self {
                FragmentParseError::Lex(error) => crate::lexer::lex_error_message(error.kind),
                FragmentParseError::Parse(error) => match error {
                    TokenParseError::UnexpectedEnd { expected, .. } => "expected `"@ + expected@
                        + "`, found the end of input"@,
                    TokenParseError::UnexpectedToken { expected, found, .. } => "expected `"@
                        + expected@ + "`, found `"@ + found@ + "`"@,
                    TokenParseError::TrailingToken { found, .. } =>
                        "expected the end of input, found `"@ + found@ + "`"@,
                    TokenParseError::Syntax { message, .. } => message@,
                },
                FragmentParseError::MultipleCells { count } => "expected one source cell, found "@
                    + decimal(*count as nat),
            }),
    {
        match self {
            FragmentParseError::Lex(error) => {
                let mut text = String::new();
                append_str(&mut text, error.message());
                proof {
                    assert(text@ =~= crate::lexer::lex_error_message(error.kind));
                }
                text
            },
            FragmentParseError::Parse(error) => error.to_string(),
            FragmentParseError::MultipleCells { count } => {
                let mut text = String::new();
                append_str(&mut text, "expected one source cell, found ");
                push_decimal(&mut text, *count as u64);
                proof {
                    assert(text@ =~= "expected one source cell, found "@ + decimal(*count as nat));
                }
                text
            },
        }
    }
}

/// A typed syntax value that can consume itself from a token cursor.
///
/// Parsing only moves the cursor forward over the same tokens.
pub trait Parse: Sized {
    fn parse(input: &mut ParseStream) -> (r: Result<Self, TokenParseError>)
        ensures
            final(input).trees() == old(input).trees(),
            final(input).spec_eof_span() == old(input).spec_eof_span(),
            old(input).pos() <= final(input).pos() <= final(input).trees().len(),
    ;
}

/// What parsing a whole stream gives once `T` has parsed from it: `T`'s error,
/// or the value when only trivia remains after it, or else the first
/// significant token left reported as trailing.
pub open spec fn complete_outcome<T>(
    after: ParseStream,
    parsed: Result<T, TokenParseError>,
    r: Result<T, TokenParseError>,
) -> bool {
    match parsed {
        Err(e) => r == Err::<T, TokenParseError>(e),
        Ok(value) => if after.next_sig() >= after.trees().len() {
            r == Ok::<T, TokenParseError>(value)
        } else {
            let left = after.trees()[after.next_sig()];
            r matches Err(TokenParseError::TrailingToken { found, span }) && found@
                == token_description(left) && span == model_span(left)
        },
    }
}

/// Parses one complete token stream as `T`: `T` parses from a fresh cursor at
/// the start of `tokens`, and must leave no significant token behind.
pub fn parse2<T: Parse>(tokens: TokenStream) -> (r: Result<T, TokenParseError>)
    ensures
        exists|m: &mut ParseStream, parsed: Result<T, TokenParseError>|
            m.trees() == tokens@ && m.pos() == 0 && m.spec_eof_span() == eof_span_of(tokens@)
                && #[trigger] call_ensures(T::parse, (m,), parsed) && (*final(m)).trees()
                == tokens@ && complete_outcome(*final(m), parsed, r),
{
    let ghost trees = tokens@;
    let mut input = ParseStream::new(tokens);
    let ghost start = input;
    let parsed = T::parse(&mut input);
    proof {
        assert(exists|m: &mut ParseStream|
            *m == start && *final(m) == input && call_ensures(T::parse, (m,), parsed));
    }
    let ghost after = input;
    let value = match parsed {
        Ok(value) => value,
        Err(error) => return Err(error),
    };
    match input.finish() {
        Ok(()) => Ok(value),
        Err(error) => Err(error),
    }
}

/// The tokens of a fragment's only cell, or none when the source has no cell.
pub open spec fn fragment_tokens(cells: Seq<CellModel>) -> Seq<TokenModel> {
    if cells.len() == 1 {
        cells[0].stream
    } else {
        Seq::empty()
    }
}

/// What a fragment parse gives, read as the result of parsing its tokens.
pub open spec fn fragment_as_token_result<T>(r: Result<T, FragmentParseError>) -> Result<
    T,
    TokenParseError,
> {
    match r {
        Ok(value) => Ok(value),
        Err(FragmentParseError::Parse(e)) => Err(e),
        Err(_) => arbitrary(),
    }
}

/// Lexes one source cell and parses it as a typed syntax fragment.
///
/// A source that lexes to no cell is parsed from the empty stream; a source of
/// more than one cell is refused before `T` sees it.
pub fn parse_fragment_str<T: Parse>(source: &str, source_id: SourceId) -> (r: Result<
    T,
    FragmentParseError,
>)
    ensures
        r matches Err(FragmentParseError::Lex(e)) ==> crate::lexer::lex_error_shown(
            encode_utf8(source@),
            source_id,
            e,
        ),
        !(r matches Err(FragmentParseError::Lex(_))) ==> exists|cells: CellStream|
            #[trigger] crate::lexer::lexes_to(source@, source_id, cells) && (cells@.len() > 1
                ==> r == Err::<T, FragmentParseError>(
                FragmentParseError::MultipleCells { count: cells@.len() as usize },
            )) && (cells@.len() <= 1 ==> (r is Ok || r matches Err(FragmentParseError::Parse(_)))
                && exists|m: &mut ParseStream, parsed: Result<T, TokenParseError>|
                m.trees() == fragment_tokens(cells@) && m.pos() == 0 && m.spec_eof_span()
                    == eof_span_of(fragment_tokens(cells@)) && #[trigger] call_ensures(
                    T::parse,
                    (m,),
                    parsed,
                ) && (*final(m)).trees() == fragment_tokens(cells@) && complete_outcome(
                    *final(m),
                    parsed,
                    fragment_as_token_result(r),
                )),
{
    let lexed = match lex_str(source, source_id) {
        Ok(cells) => cells,
        Err(error) => return Err(FragmentParseError::Lex(error)),
    };
    let ghost witness = lexed;
    let cells = lexed.into_cells();
    let count = cells.len();
    if count > 1 {
        proof {
            assert(witness@.len() == count);
        }
        return Err(FragmentParseError::MultipleCells { count });
    }
    let mut cells = cells;
    let tokens = match cells.pop() {
        Some(cell) => cell.into_stream(),
        None => TokenStream::new(),
    };
    proof {
        assert(witness@.len() == count);
        if count == 1 {
            assert(witness@[0] == cell_model(witness.cells@[0]));
        }
        assert(tokens@ == fragment_tokens(witness@));
    }
    let parsed = parse2(tokens);
    match parsed {
        Ok(value) => Ok(value),
        Err(error) => Err(FragmentParseError::Parse(error)),
    }
}

/// A parser backend that produces one typed syntax target from lexed cells.
pub trait Parser<T> {
    type Error;

    fn parse(&mut self, tokens: CellStream) -> Result<T, Self::Error>;
}

/// Parses an existing cell stream with an explicitly selected backend: the
/// result is exactly what one call of the backend's `parse` on `tokens` gives.
pub fn parse_with<T, P: Parser<T>>(parser: &mut P, tokens: CellStream) -> (r: Result<T, P::Error>)
    ensures
        exists|m: &mut P|
            *m == *old(parser) && *final(m) == *final(parser) && #[trigger] call_ensures(
                P::parse,
                (m, tokens),
                r,
            ),
{
    parser.parse(tokens)
}

} // verus!
