//! Typed syntax contained by one of the six delimiter families.
use vstd::prelude::*;

use crate::cst::Token;
use crate::delim::{
    boundary_before, is_paired, opening_text, point_before, surround_tokens, Delim, Delimiter, DelimiterKind,
    DelimiterToken,
};
use crate::parse::{parse2, sig_pos, token_outcome, Parse, ParseStream, TokenParseError};
use crate::span::{span_join, Span, Spanned};
use crate::token_stream::{model_span, model_spelling, CellStream, ToCells, ToTokens, TokenModel, TokenStream, TokenTree};
use crate::tokens::_Scl;

verus! {

/// Syntax contained by a statically known delimiter family.
///
/// The delimiter retains the span of the whole value, while `contents` owns
/// the syntax between its boundaries.
#[derive(Debug, Clone, PartialEq, Eq)]
pub struct Delimited<S, D> {
    /// The typed delimiter family and its span.
    pub delimiter: D,
    /// The syntax enclosed or terminated by the delimiter.
    pub contents: S,
}

impl<S, D> Delimited<S, D> {
    /// Creates a delimited value from its delimiter and contents.
    pub fn new(delimiter: D, contents: S) -> (value: Self)
        ensures
            value.delimiter == delimiter,
            value.contents == contents,
    {
        Delimited { delimiter, contents }
    }

    /// Separates the delimiter from the contained syntax.
    pub fn into_parts(self) -> (parts: (D, S))
        ensures
            parts == (self.delimiter, self.contents),
    {
        (self.delimiter, self.contents)
    }
}

impl<S: Spanned, D: Spanned> Spanned for Delimited<S, D> {
    open spec fn spec_span(&self) -> Span {
        span_join(self.delimiter.spec_span(), self.contents.spec_span())
    }

    fn span(&self) -> (span: Span) {
        self.delimiter.span().join(self.contents.span())
    }
}

impl<S: ToTokens, D: DelimiterToken> ToTokens for Delimited<S, D> {
    open spec fn spec_tokens(&self) -> Seq<TokenModel> {
        surround_tokens(
            Delimiter { kind: D::spec_kind(), span: self.delimiter.spec_span() },
            self.contents.spec_tokens(),
        )
    }

    fn to_tokens(&self, output: &mut TokenStream) {
        let contents = self.contents.to_token_stream();
        self.delimiter.surround(output, contents);
    }
}

impl<S: ToCells, D> ToCells for Delimited<S, D> {
    fn to_cells(&self, output: &mut CellStream) {
        self.contents.to_cells(output);
    }
}

/// The zero-width span before the next significant token, or the end of input.
fn boundary_at(input: &ParseStream) -> (span: Span)
    ensures
        input.next_sig() < input.trees().len() ==> span == point_before(
            model_span(input.trees()[input.next_sig()]),
        ),
        input.next_sig() >= input.trees().len() ==> span == input.spec_eof_span(),
{
    match input.peek() {
        Some(token) => boundary_before(token.span()),
        None => input.eof_span(),
    }
}

/// How a token that is not the expected group is named in a mismatch: a group
/// by its opening delimiter, an atom by its spelling, anything else as trivia.
pub open spec fn mismatch_description(m: TokenModel) -> Seq<char> {
    match m {
        TokenModel::Group { delimiter, .. } => opening_text(delimiter.kind),
        _ => match model_spelling(m) {
            Some(text) => text,
            None => "trivia"@,
        },
    }
}

/// What parsing a group of family `kind` gives at the next significant token
/// of `trees` after `pos`: its span and contents, or the error that reports it.
pub open spec fn group_outcome(
    trees: Seq<TokenModel>,
    pos: int,
    eof_span: Span,
    kind: DelimiterKind,
    r: Result<(Span, Seq<TokenModel>), TokenParseError>,
) -> bool {
    let next = sig_pos(trees, pos);
    if next >= trees.len() {
        r matches Err(TokenParseError::UnexpectedEnd { expected, span }) && expected@
            == opening_text(kind) && span == eof_span
    } else {
        let m = trees[next];
        match m {
            TokenModel::Group { delimiter, stream } if delimiter.kind == kind => r == Ok::<
                (Span, Seq<TokenModel>),
                TokenParseError,
            >((model_span(m), stream)),
            _ => r matches Err(TokenParseError::UnexpectedToken { expected, found, span })
                && expected@ == opening_text(kind) && found@ == mismatch_description(m) && span
                == model_span(m),
        }
    }
}

/// The view of a group parse: its span and the models of its contents.
pub open spec fn group_view(r: Result<(Span, TokenStream), TokenParseError>) -> Result<
    (Span, Seq<TokenModel>),
    TokenParseError,
> {
    match r {
        Ok((span, stream)) => Ok((span, stream@)),
        Err(e) => Err(e),
    }
}

/// Parses one paired delimiter group of family `kind`, handing its contents back.
fn parse_group(input: &mut ParseStream, kind: DelimiterKind) -> (r: Result<
    (Span, TokenStream),
    TokenParseError,
>)
    requires
        old(input).pos() <= old(input).trees().len(),
    ensures
        final(input).trees() == old(input).trees(),
        final(input).spec_eof_span() == old(input).spec_eof_span(),
        old(input).pos() <= final(input).pos() <= final(input).trees().len(),
        group_outcome(
            old(input).trees(),
            old(input).pos(),
            old(input).spec_eof_span(),
            kind,
            group_view(r),
        ),
        old(input).next_sig() < old(input).trees().len() ==> final(input).pos() == old(
            input,
        ).next_sig() + 1,
{
    let expected = kind.opening();
    input.position();
    proof {
        crate::parse::lemma_sig_pos_bounds(input.trees(), input.pos());
    }
    let token = match input.next_token() {
        Some(token) => token,
        None => return Err(TokenParseError::UnexpectedEnd { expected, span: input.eof_span() }),
    };
    let span = token.span();
    match token {
        TokenTree::Group(group) => {
            if group.delimiter.kind != kind {
                let mut found = String::new();
                crate::token_stream::append_str(&mut found, group.delimiter.kind.opening());
                return Err(TokenParseError::UnexpectedToken { expected, found, span });
            }
            Ok((span, group.into_stream()))
        },
        token => {
            let found = match token.spelling() {
                Some(spelling) => spelling.to_owned(),
                None => {
                    proof {
                        reveal_strlit("trivia");
                    }
                    "trivia".to_owned()
                },
            };
            Err(TokenParseError::UnexpectedToken { expected, found, span })
        },
    }
}

/// The boundary before the next significant token of `trees` from `pos`, or
/// the end-of-input span.
pub open spec fn boundary_of(trees: Seq<TokenModel>, pos: int, eof_span: Span) -> Span {
    if sig_pos(trees, pos) < trees.len() {
        point_before(model_span(trees[sig_pos(trees, pos)]))
    } else {
        eof_span
    }
}

impl<S: Parse, D: DelimiterToken> Parse for Delimited<S, D> {
    /// Parses the contents and their delimiter: an empty family spans from the
    /// first significant token to the end of input, a semicolon family refuses
    /// an empty statement and ends at its `;`, and a paired family parses the
    /// whole contents of one group of its kind.
    fn parse(input: &mut ParseStream) -> (r: Result<Self, TokenParseError>)
        ensures
            D::spec_kind() == DelimiterKind::Empty ==> (r matches Ok(v)
                ==> v.delimiter.spec_span() == span_join(
                boundary_of(old(input).trees(), old(input).pos(), old(input).spec_eof_span()),
                old(input).spec_eof_span(),
            )),
            D::spec_kind() == DelimiterKind::Semicolon && old(input).next_sig() < old(
                input,
            ).trees().len() && _Scl::spec_matches(old(input).trees()[old(input).next_sig()])
                ==> (r matches Err(TokenParseError::UnexpectedToken { expected, found, span })
                && expected@ == "nonempty syntax before `;`"@ && found@ == ";"@ && span
                == model_span(old(input).trees()[old(input).next_sig()])),
            D::spec_kind() == DelimiterKind::Semicolon ==> (r matches Ok(v) ==> {
                let last = old(input).trees()[final(input).pos() - 1];
                &&& old(input).pos() < final(input).pos()
                &&& _Scl::spec_matches(last)
                &&& v.delimiter.spec_span() == span_join(
                    boundary_of(old(input).trees(), old(input).pos(), old(input).spec_eof_span()),
                    model_span(last),
                )
            }),
            is_paired(D::spec_kind()) ==> exists|g: Result<(Span, Seq<TokenModel>), TokenParseError>|
                #[trigger] group_outcome(
                    old(input).trees(),
                    old(input).pos(),
                    old(input).spec_eof_span(),
                    D::spec_kind(),
                    g,
                ) && match g {
                    Ok((span, _)) => r matches Ok(v) ==> v.delimiter.spec_span() == span,
                    Err(e) => r == Err::<Self, TokenParseError>(e),
                },
    {
        input.position();
        let kind = D::kind();
        if kind == DelimiterKind::Empty {
            let opening = boundary_at(input);
            let contents = S::parse(input)?;
            let delimiter = D::new(opening.join(input.eof_span()));
            return Ok(Delimited::new(delimiter, contents));
        }
        if kind == DelimiterKind::Semicolon {
            if let Some(token) = input.peek() {
                if _Scl::matches_token_tree(token) {
                    proof {
                        reveal_strlit(";");
                        reveal_strlit("nonempty syntax before `;`");
                    }
                    return Err(
                        TokenParseError::UnexpectedToken {
                            expected: "nonempty syntax before `;`",
                            found: ";".to_owned(),
                            span: token.span(),
                        },
                    );
                }
            }
            let opening = boundary_at(input);
            let contents = S::parse(input)?;
            let semicolon = _Scl::parse(input)?;
            let delimiter = D::new(opening.join(semicolon.span()));
            return Ok(Delimited::new(delimiter, contents));
        }
        let grouped = parse_group(input, kind);
        proof {
            assert(group_outcome(
                old(input).trees(),
                old(input).pos(),
                old(input).spec_eof_span(),
                kind,
                group_view(grouped),
            ));
        }
        let (span, stream) = match grouped {
            Ok(group) => group,
            Err(error) => return Err(error),
        };
        let contents = parse2(stream)?;
        Ok(Delimited::new(D::new(span), contents))
    }
}

impl<const K: u8> Parse for Delim<K> {
    fn parse(input: &mut ParseStream) -> (r: Result<Self, TokenParseError>)
        ensures
            delimiter_outcome(old(input).trees(), old(input).pos(), old(input).spec_eof_span(), r),
    {
        parse_delimiter(input)
    }
}

/// What parsing a bare delimiter of family `D` gives on `trees` from `pos`:
/// an empty family takes the boundary before the next significant token, a
/// semicolon family the `;` at the cursor, and a paired family a group of its
/// kind with nothing inside.
pub open spec fn delimiter_outcome<D: DelimiterToken>(
    trees: Seq<TokenModel>,
    pos: int,
    eof_span: Span,
    r: Result<D, TokenParseError>,
) -> bool {
    let kind = D::spec_kind();
    if kind == DelimiterKind::Empty {
        r matches Ok(d) && d.spec_span() == (if sig_pos(trees, pos) < trees.len() {
            point_before(model_span(trees[sig_pos(trees, pos)]))
        } else {
            eof_span
        })
    } else if kind == DelimiterKind::Semicolon {
        exists|t: Result<_Scl, TokenParseError>|
            #[trigger] token_outcome(trees, pos, eof_span, t) && match t {
                Ok(semicolon) => r matches Ok(d) && d.spec_span() == semicolon.spec_span(),
                Err(e) => r == Err::<D, TokenParseError>(e),
            }
    } else {
        exists|g: Result<(Span, Seq<TokenModel>), TokenParseError>|
            #[trigger] group_outcome(trees, pos, eof_span, kind, g) && match g {
                Ok((span, contents)) => if contents.len() == 0 {
                    r matches Ok(d) && d.spec_span() == span
                } else {
                    r matches Err(TokenParseError::UnexpectedToken { expected, found, span: s })
                        && expected@ == opening_text(kind) && found@ == opening_text(kind) && s
                        == span
                },
                Err(e) => r == Err::<D, TokenParseError>(e),
            }
    }
}

/// Parses one delimiter atom without any contained syntax.
pub fn parse_delimiter<D: DelimiterToken>(input: &mut ParseStream) -> (r: Result<D, TokenParseError>)
    ensures
        final(input).trees() == old(input).trees(),
        final(input).spec_eof_span() == old(input).spec_eof_span(),
        old(input).pos() <= final(input).pos() <= final(input).trees().len(),
        delimiter_outcome(old(input).trees(), old(input).pos(), old(input).spec_eof_span(), r),
        D::spec_kind() == DelimiterKind::Empty ==> final(input).pos() == old(input).pos(),
{
    input.position();
    let kind = D::kind();
    match kind {
        DelimiterKind::Empty => Ok(D::new(boundary_at(input))),
        DelimiterKind::Semicolon => {
            let parsed = _Scl::parse(input);
            proof {
                assert(token_outcome(old(input).trees(), old(input).pos(), old(input).spec_eof_span(), parsed));
            }
            let semicolon = match parsed {
                Ok(semicolon) => semicolon,
                Err(error) => return Err(error),
            };
            Ok(D::new(semicolon.span()))
        },
        _ => {
            let grouped = parse_group(input, kind);
            proof {
                assert(group_outcome(
                    old(input).trees(),
                    old(input).pos(),
                    old(input).spec_eof_span(),
                    kind,
                    group_view(grouped),
                ));
            }
            let (span, stream) = match grouped {
                Ok(group) => group,
                Err(error) => return Err(error),
            };
            if !stream.is_empty() {
                let mut found = String::new();
                crate::token_stream::append_str(&mut found, kind.opening());
                return Err(TokenParseError::UnexpectedToken { expected: kind.opening(), found, span });
            }
            Ok(D::new(span))
        },
    }
}

} // verus!
