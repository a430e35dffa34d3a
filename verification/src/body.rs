//! Value-returning bodies with semicolon-terminated discarded statements.
use vstd::prelude::*;

use crate::cst::Token;
use crate::parse::{Parse, ParseStream, TokenParseError};
use crate::span::{span_join, span_join_all, Span, Spanned};
use crate::token_stream::{model_span, ToTokens, TokenModel, TokenStream, TokenTree};
use crate::tokens::_Scl;

verus! {

/// A statement whose value is discarded by a trailing semicolon.
#[derive(Debug, PartialEq, Eq)]
pub struct Terminated<S> {
    pub statement: S,
    pub semicolon: _Scl,
}

impl<S> Terminated<S> {
    /// Creates a value-discarding terminated statement.
    pub fn new(statement: S, semicolon: _Scl) -> (terminated: Self)
        ensures
            terminated.statement == statement,
            terminated.semicolon == semicolon,
    {
        Terminated { statement, semicolon }
    }
}

impl<S: Spanned> Spanned for Terminated<S> {
    open spec fn spec_span(&self) -> Span {
        span_join(self.statement.spec_span(), self.semicolon.spec_span())
    }

    fn span(&self) -> (span: Span) {
        self.statement.span().join(self.semicolon.span())
    }
}

impl<S: ToTokens> ToTokens for Terminated<S> {
    open spec fn spec_tokens(&self) -> Seq<TokenModel> {
        self.statement.spec_tokens() + seq![self.semicolon.raw_model()]
    }

    fn to_tokens(&self, output: &mut TokenStream) {
        self.statement.to_tokens(output);
        self.semicolon.to_tokens(output);
        proof {
            assert(self.semicolon.spec_tokens() == seq![self.semicolon.raw_model()]);
            assert(output@ =~= old(output)@ + self.spec_tokens());
        }
    }
}

/// Whether the next significant token of `input` is a semicolon.
pub open spec fn semicolon_next(input: ParseStream) -> bool {
    input.next_sig() < input.trees().len() && _Scl::spec_matches(input.trees()[input.next_sig()])
}

/// The error that refuses an empty statement before the next semicolon.
pub open spec fn empty_statement_error(input: ParseStream, e: TokenParseError) -> bool {
    e matches TokenParseError::UnexpectedToken { expected, found, span } && expected@
        == "a statement before `;`"@ && found@ == ";"@ && span == model_span(
        input.trees()[input.next_sig()],
    )
}

/// Refuses an empty statement: a semicolon with nothing before it.
fn reject_empty_statement(input: &ParseStream) -> (r: Result<(), TokenParseError>)
    ensures
        r is Err <==> semicolon_next(*input),
        r matches Err(e) ==> empty_statement_error(*input, e),
{
    match input.peek() {
        Some(token) => {
            if _Scl::matches_token_tree(token) {
                proof {
                    reveal_strlit(";");
                    reveal_strlit("a statement before `;`");
                }
                Err(
                    TokenParseError::UnexpectedToken {
                        expected: "a statement before `;`",
                        found: ";".to_owned(),
                        span: token.span(),
                    },
                )
            } else {
                Ok(())
            }
        },
        None => Ok(()),
    }
}

impl<S: Parse> Parse for Terminated<S> {
    /// Parses a statement and the semicolon right after it; a semicolon with
    /// nothing before it is refused.
    fn parse(input: &mut ParseStream) -> (r: Result<Self, TokenParseError>)
        ensures
            semicolon_next(*old(input)) ==> (r matches Err(e) && empty_statement_error(
                *old(input),
                e,
            )),
            r matches Ok(t) ==> old(input).pos() < final(input).pos() && t.semicolon.spec_raw()
                == old(input).trees()[final(input).pos() - 1],
    {
        input.position();
        reject_empty_statement(input)?;
        let statement = S::parse(input)?;
        let semicolon = _Scl::parse(input)?;
        Ok(Terminated::new(statement, semicolon))
    }
}

/// Statements discarded by semicolons followed by an optional returned tail.
///
/// Every terminated statement is evaluated for effects, while the
/// unterminated tail supplies the body's value.
#[derive(Debug, PartialEq, Eq)]
pub struct Body<S> {
    pub statements: Vec<Terminated<S>>,
    pub tail: Option<S>,
}

impl<S> Body<S> {
    /// Creates a body from discarded statements and its returned tail.
    pub fn new(statements: Vec<Terminated<S>>, tail: Option<S>) -> (body: Self)
        ensures
            body.statements == statements,
            body.tail == tail,
    {
        Body { statements, tail }
    }
}

/// The tokens of the first `n` terminated statements.
pub open spec fn statements_tokens<S: ToTokens>(s: Seq<Terminated<S>>, n: int) -> Seq<TokenModel>
    decreases n,
{
    if n <= 0 {
        seq![]
    } else {
        statements_tokens(s, n - 1) + s[n - 1].spec_tokens()
    }
}

impl<S: ToTokens> ToTokens for Body<S> {
    open spec fn spec_tokens(&self) -> Seq<TokenModel> {
        statements_tokens(self.statements@, self.statements@.len() as int) + match self.tail {
            Some(tail) => tail.spec_tokens(),
            None => seq![],
        }
    }

    fn to_tokens(&self, output: &mut TokenStream) {
        let mut i: usize = 0;
        while i < self.statements.len()
            invariant
                i <= self.statements@.len(),
                output@ == old(output)@ + statements_tokens(self.statements@, i as int),
            decreases self.statements@.len() - i,
        {
            self.statements[i].to_tokens(output);
            proof {
                assert(output@ =~= old(output)@ + statements_tokens(self.statements@, i + 1));
            }
            i = i + 1;
        }
        match &self.tail {
            Some(tail) => tail.to_tokens(output),
            None => {},
        }
        proof {
            assert(output@ =~= old(output)@ + self.spec_tokens());
        }
    }
}

impl<S: Parse> Parse for Body<S> {
    /// Parses semicolon-terminated statements until the input ends or a
    /// statement is not followed by a semicolon, which is then the tail.
    fn parse(input: &mut ParseStream) -> (r: Result<Self, TokenParseError>)
        ensures
            old(input).next_sig() >= old(input).trees().len() ==> (r matches Ok(b)
                && b.statements@.len() == 0 && b.tail is None),
            semicolon_next(*old(input)) ==> (r matches Err(e) && empty_statement_error(
                *old(input),
                e,
            )),
            r matches Ok(b) ==> match b.tail {
                None => final(input).next_sig() >= final(input).trees().len(),
                Some(_) => !semicolon_next(*final(input)),
            },
    {
        input.position();
        let mut statements: Vec<Terminated<S>> = Vec::new();
        let ghost first = true;
        while !input.is_empty()
            invariant
                input.trees() == old(input).trees(),
                input.spec_eof_span() == old(input).spec_eof_span(),
                old(input).pos() <= input.pos() <= input.trees().len(),
                first ==> *input == *old(input) && statements@.len() == 0,
                old(input).next_sig() >= old(input).trees().len() ==> first,
                semicolon_next(*old(input)) ==> first,
            decreases input.trees().len() - input.pos(),
        {
            reject_empty_statement(input)?;
            let statement = S::parse(input)?;
            let terminated = match input.peek() {
                Some(token) => _Scl::matches_token_tree(token),
                None => false,
            };
            if terminated {
                let ghost before = input.pos();
                proof {
                    crate::parse::lemma_sig_pos_bounds(input.trees(), input.pos());
                }
                let semicolon = _Scl::parse(input)?;
                statements.push(Terminated::new(statement, semicolon));
                proof {
                    first = false;
                }
            } else {
                return Ok(Body::new(statements, Some(statement)));
            }
        }
        Ok(Body::new(statements, None))
    }
}

} // verus!
