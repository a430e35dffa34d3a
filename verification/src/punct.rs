//! Comma-punctuated syntax sequences.
//!
//! Ordinary access exposes only values. [`Punctuated::pairs`] and
//! [`Punctuated::into_pairs`] keep the typed commas and their spans.
use vstd::prelude::*;

use crate::cst::Token;
use crate::delim::{boundary_before, point_before};
use crate::parse::{Parse, ParseStream, TokenParseError};
use crate::span::{span_join_all, Span, Spanned};
use crate::token_stream::{model_span, ToTokens, TokenModel, TokenStream};
use crate::tokens::{Tok, _Cma, _Scl};

verus! {

/// A zero-width component occupying an omitted position beside a comma.
///
/// Empty components evaluate as null but emit no token text. Their spans mark
/// the source position at which the omitted component occurs.
#[derive(Debug, Clone, Copy, PartialEq, Eq, Structural)]
pub struct Empty {
    span: Span,
}

impl Empty {
    /// Creates an empty component at `span`.
    pub fn new(span: Span) -> (empty: Self)
        ensures
            empty.spec_span() == span,
    {
        Empty { span }
    }
}

impl Spanned for Empty {
    closed spec fn spec_span(&self) -> Span {
        self.span
    }

    fn span(&self) -> (span: Span) {
        self.span
    }
}

impl ToTokens for Empty {
    open spec fn spec_tokens(&self) -> Seq<TokenModel> {
        seq![]
    }

    fn to_tokens(&self, output: &mut TokenStream) {
        proof {
            assert(old(output)@ + seq![] =~= old(output)@);
        }
    }
}

/// One value together with its following punctuation, or the unpunctuated end.
#[derive(Debug, Clone, Copy, PartialEq, Eq)]
pub enum Pair<S, P> {
    Punctuated(S, P),
    End(S),
}

impl<S, P> Pair<S, P> {
    /// Returns the value independently of whether punctuation follows it.
    pub fn value(&self) -> (value: &S)
        ensures
            *value == (match *self {
                Pair::Punctuated(v, _) => v,
                Pair::End(v) => v,
            }),
    {
        match self {
            Pair::Punctuated(value, _) => value,
            Pair::End(value) => value,
        }
    }

    /// Separates the value from its optional following punctuation.
    pub fn into_tuple(self) -> (parts: (S, Option<P>))
        ensures
            parts == (match self {
                Pair::Punctuated(v, p) => (v, Some(p)),
                Pair::End(v) => (v, None),
            }),
    {
        match self {
            Pair::Punctuated(value, punctuation) => (value, Some(punctuation)),
            Pair::End(value) => (value, None),
        }
    }
}

/// A sequence of syntax values separated by typed comma tokens.
#[derive(Debug, PartialEq, Eq)]
pub struct Punctuated<S> {
    inner: Vec<(S, _Cma)>,
    last: Option<Box<S>>,
}

/// The values of punctuated pairs followed by the optional last value.
pub open spec fn punctuated_values<S>(inner: Seq<(S, _Cma)>, last: Option<S>) -> Seq<S> {
    inner.map_values(|p: (S, _Cma)| p.0) + match last {
        Some(v) => seq![v],
        None => seq![],
    }
}

/// The tokens of punctuated pairs: each value followed by its comma.
pub open spec fn pairs_tokens<S: ToTokens>(inner: Seq<(S, _Cma)>) -> Seq<TokenModel>
    decreases inner.len(),
{
    if inner.len() == 0 {
        seq![]
    } else {
        pairs_tokens(inner.drop_last()) + inner.last().0.spec_tokens() + seq![
            inner.last().1.raw_model(),
        ]
    }
}

impl<S> Punctuated<S> {
    /// The values, excluding punctuation.
    pub closed spec fn values(&self) -> Seq<S> {
        punctuated_values(self.inner@, self.spec_last())
    }

    /// The punctuated pairs before the last value.
    pub closed spec fn spec_pairs(&self) -> Seq<(S, _Cma)> {
        self.inner@
    }

    /// The final unpunctuated value, if any.
    pub closed spec fn spec_last(&self) -> Option<S> {
        match self.last {
            Some(b) => Some(*b),
            None => None,
        }
    }

    /// Creates an empty sequence.
    pub fn new() -> (values: Self)
        ensures
            values.spec_pairs().len() == 0,
            values.spec_last() is None,
            values.values().len() == 0,
    {
        Punctuated { inner: Vec::new(), last: None }
    }

    /// Returns the number of values, excluding punctuation.
    pub fn len(&self) -> (len: usize)
        requires
            self.spec_pairs().len() < usize::MAX,
        ensures
            len == self.values().len(),
    {
        match self.last {
            Some(_) => self.inner.len() + 1,
            None => self.inner.len(),
        }
    }

    /// Reports whether the sequence contains no values or punctuation.
    pub fn is_empty(&self) -> (r: bool)
        ensures
            r == (self.spec_pairs().len() == 0 && self.spec_last() is None),
    {
        self.inner.len() == 0 && self.last.is_none()
    }

    /// Creates a sequence containing one value.
    pub fn from_value(value: S) -> (values: Self)
        ensures
            values.spec_pairs().len() == 0,
            values.spec_last() == Some(value),
            values.values() == seq![value],
    {
        let values = Punctuated { inner: Vec::new(), last: Some(Box::new(value)) };
        proof {
            assert(values.values() =~= seq![value]);
        }
        values
    }

    /// Adds a comma and the component on its right.
    ///
    /// The sequence must already hold a value for the comma to follow.
    pub fn push(&mut self, punctuation: _Cma, next: S)
        requires
            old(self).spec_last() is Some,
        ensures
            final(self).spec_pairs() == old(self).spec_pairs().push(
                (old(self).spec_last().unwrap(), punctuation),
            ),
            final(self).spec_last() == Some(next),
            final(self).values() == old(self).values().push(next),
    {
        let previous = self.last.take().unwrap();
        self.inner.push((*previous, punctuation));
        self.last = Some(Box::new(next));
        proof {
            let p = old(self).spec_pairs().push((old(self).spec_last().unwrap(), punctuation));
            assert(p.map_values(|q: (S, _Cma)| q.0) =~= old(self).spec_pairs().map_values(
                |q: (S, _Cma)| q.0,
            ).push(old(self).spec_last().unwrap()));
            assert(self.values() =~= old(self).values().push(next));
        }
    }

    /// Borrows the values without exposing punctuation.
    pub fn iter(&self) -> (values: Vec<&S>)
        ensures
            values@.len() == self.values().len(),
            forall|i: int| 0 <= i < values@.len() ==> *values@[i] == self.values()[i],
    {
        let mut values: Vec<&S> = Vec::new();
        let mut i: usize = 0;
        while i < self.inner.len()
            invariant
                i <= self.inner@.len(),
                values@.len() == i,
                forall|j: int| 0 <= j < i ==> *values@[j] == self.inner@[j].0,
            decreases self.inner@.len() - i,
        {
            values.push(&self.inner[i].0);
            i = i + 1;
        }
        match &self.last {
            Some(last) => values.push(&**last),
            None => {},
        }
        values
    }

    /// Borrows values together with their optional following commas.
    pub fn pairs(&self) -> (pairs: Vec<Pair<&S, &_Cma>>)
        ensures
            pairs@.len() == self.values().len(),
            forall|i: int|
                0 <= i < self.spec_pairs().len() ==> ((#[trigger] pairs@[i]) matches Pair::Punctuated(v, p) && *v
                    == self.spec_pairs()[i].0 && *p == self.spec_pairs()[i].1),
            self.spec_last() matches Some(v) ==> (pairs@.last() matches Pair::End(w) && *w == v),
    {
        let mut pairs: Vec<Pair<&S, &_Cma>> = Vec::new();
        let mut i: usize = 0;
        while i < self.inner.len()
            invariant
                i <= self.inner@.len(),
                pairs@.len() == i,
                forall|j: int|
                    0 <= j < i ==> ((#[trigger] pairs@[j]) matches Pair::Punctuated(v, p) && *v == self.inner@[j].0
                        && *p == self.inner@[j].1),
            decreases self.inner@.len() - i,
        {
            let pair = &self.inner[i];
            pairs.push(Pair::Punctuated(&pair.0, &pair.1));
            i = i + 1;
        }
        match &self.last {
            Some(last) => pairs.push(Pair::End(&**last)),
            None => {},
        }
        pairs
    }

    /// Consumes the sequence while preserving commas in the yielded pairs.
    pub fn into_pairs(self) -> (pairs: Vec<Pair<S, _Cma>>)
        ensures
            pairs@.len() == self.values().len(),
            forall|i: int|
                0 <= i < self.spec_pairs().len() ==> pairs@[i] == Pair::Punctuated(
                    self.spec_pairs()[i].0,
                    self.spec_pairs()[i].1,
                ),
            self.spec_last() matches Some(v) ==> pairs@.last() == Pair::<S, _Cma>::End(v),
    {
        let ghost original = self;
        let Punctuated { inner, last } = self;
        let mut pairs: Vec<Pair<S, _Cma>> = Vec::new();
        let mut rest = inner;
        let mut reversed: Vec<Pair<S, _Cma>> = Vec::new();
        while rest.len() > 0
            invariant
                rest@.len() + reversed@.len() == original.spec_pairs().len(),
                rest@ == original.spec_pairs().subrange(0, rest@.len() as int),
                forall|j: int|
                    0 <= j < reversed@.len() ==> reversed@[j] == Pair::Punctuated(
                        original.spec_pairs()[original.spec_pairs().len() - 1 - j].0,
                        original.spec_pairs()[original.spec_pairs().len() - 1 - j].1,
                    ),
            decreases rest@.len(),
        {
            let (value, comma) = rest.pop().unwrap();
            reversed.push(Pair::Punctuated(value, comma));
        }
        while reversed.len() > 0
            invariant
                pairs@.len() + reversed@.len() == original.spec_pairs().len(),
                forall|j: int|
                    0 <= j < reversed@.len() ==> reversed@[j] == Pair::Punctuated(
                        original.spec_pairs()[original.spec_pairs().len() - 1 - j].0,
                        original.spec_pairs()[original.spec_pairs().len() - 1 - j].1,
                    ),
                forall|j: int|
                    0 <= j < pairs@.len() ==> pairs@[j] == Pair::Punctuated(
                        original.spec_pairs()[j].0,
                        original.spec_pairs()[j].1,
                    ),
            decreases reversed@.len(),
        {
            let pair = reversed.pop().unwrap();
            pairs.push(pair);
        }
        match last {
            Some(value) => pairs.push(Pair::End(*value)),
            None => {},
        }
        pairs
    }

    /// Consumes the sequence, keeping only the values.
    pub fn into_values(self) -> (values: Vec<S>)
        ensures
            values@ == self.values(),
    {
        let ghost original = self;
        let pairs = self.into_pairs();
        let mut values: Vec<S> = Vec::new();
        let mut reversed: Vec<S> = Vec::new();
        let mut pairs = pairs;
        while pairs.len() > 0
            invariant
                pairs@.len() + reversed@.len() == original.values().len(),
                forall|j: int|
                    0 <= j < pairs@.len() ==> pair_value(pairs@[j]) == original.values()[j],
                forall|j: int|
                    0 <= j < reversed@.len() ==> reversed@[j] == original.values()[
                        original.values().len() - 1 - j
                    ],
            decreases pairs@.len(),
        {
            let pair = pairs.pop().unwrap();
            let (value, _) = pair.into_tuple();
            reversed.push(value);
        }
        while reversed.len() > 0
            invariant
                values@.len() + reversed@.len() == original.values().len(),
                forall|j: int|
                    0 <= j < reversed@.len() ==> reversed@[j] == original.values()[
                        original.values().len() - 1 - j
                    ],
                forall|j: int| 0 <= j < values@.len() ==> values@[j] == original.values()[j],
            decreases reversed@.len(),
        {
            let value = reversed.pop().unwrap();
            values.push(value);
        }
        proof {
            assert(values@ =~= original.values());
        }
        values
    }
}

/// Every value of a sequence is structurally smaller than the sequence.
pub proof fn lemma_punctuated_decreases<S>(p: Punctuated<S>)
    ensures
        forall|i: int|
            0 <= i < p.spec_pairs().len() ==> decreases_to!(p => #[trigger] p.spec_pairs()[i].0),
        p.spec_last() matches Some(v) ==> decreases_to!(p => v),
{
    assert forall|i: int| 0 <= i < p.spec_pairs().len() implies decreases_to!(
        p => #[trigger] p.spec_pairs()[i].0
    ) by {
        assert(decreases_to!(p => p.inner));
        assert(decreases_to!(p.inner => p.inner@));
        assert(decreases_to!(p.inner@ => p.inner@[i]));
        assert(decreases_to!(p.inner@[i] => p.inner@[i].0));
    }
    if let Some(b) = p.last {
        assert(decreases_to!(p => p.last));
        assert(decreases_to!(p.last => b));
    }
}

/// The values of a sequence are its pair values followed by its last value.
pub proof fn lemma_values<S>(p: Punctuated<S>)
    ensures
        p.values() == punctuated_values(p.spec_pairs(), p.spec_last()),
        p.values().len() == p.spec_pairs().len() + if p.spec_last() is Some {
            1int
        } else {
            0int
        },
{
}

/// The value of a pair.
pub open spec fn pair_value<S, P>(pair: Pair<S, P>) -> S {
    match pair {
        Pair::Punctuated(v, _) => v,
        Pair::End(v) => v,
    }
}

/// The spans of the first `n` values of a sequence.
pub open spec fn value_spans<S: Spanned>(values: Seq<S>, n: int) -> Seq<Span>
    decreases n,
{
    if n <= 0 {
        seq![]
    } else {
        value_spans(values, n - 1).push(values[n - 1].spec_span())
    }
}

impl<S: Spanned> Spanned for Punctuated<S> {
    /// The values' spans, then the commas' spans, joined in order.
    open spec fn spec_span(&self) -> Span {
        span_join_all(
            value_spans(self.values(), self.values().len() as int) + self.spec_pairs().map_values(
                |q: (S, _Cma)| model_span(q.1.raw_model()),
            ),
        )
    }

    fn span(&self) -> (span: Span) {
        let mut spans: Vec<Span> = Vec::new();
        let values = self.iter();
        let mut i: usize = 0;
        while i < values.len()
            invariant
                i <= values@.len(),
                values@.len() == self.values().len(),
                forall|j: int| 0 <= j < values@.len() ==> *values@[j] == self.values()[j],
                spans@ == value_spans(self.values(), i as int),
            decreases values@.len() - i,
        {
            spans.push(values[i].span());
            i = i + 1;
        }
        let mut j: usize = 0;
        while j < self.inner.len()
            invariant
                j <= self.inner@.len(),
                self.inner@ == self.spec_pairs(),
                spans@ == value_spans(self.values(), self.values().len() as int) + self.spec_pairs().map_values(
                    |q: (S, _Cma)| model_span(q.1.raw_model()),
                ).subrange(0, j as int),
            decreases self.inner@.len() - j,
        {
            spans.push(self.inner[j].1.span());
            proof {
                assert(spans@ =~= value_spans(self.values(), self.values().len() as int) + self.spec_pairs().map_values(
                    |q: (S, _Cma)| model_span(q.1.raw_model()),
                ).subrange(0, j + 1));
            }
            j = j + 1;
        }
        proof {
            assert(self.spec_pairs().map_values(|q: (S, _Cma)| model_span(q.1.raw_model())).subrange(
                0,
                self.inner@.len() as int,
            ) =~= self.spec_pairs().map_values(|q: (S, _Cma)| model_span(q.1.raw_model())));
        }
        Span::join_all(spans.as_slice())
    }
}

impl<S: Parse + From<Empty>> Parse for Punctuated<S> {
    /// Parses comma-separated values until the next significant token is not a
    /// comma; a value missing before a comma, before a semicolon or at the end
    /// is empty.
    fn parse(input: &mut ParseStream) -> (r: Result<Self, TokenParseError>)
        ensures
            old(input).next_sig() >= old(input).trees().len() ==> (r matches Ok(v) && v.values().len()
                == 0),
            old(input).next_sig() < old(input).trees().len() ==> (r matches Ok(v)
                ==> v.spec_last() is Some),
            r is Ok ==> final(input).next_sig() >= final(input).trees().len() || !_Cma::spec_matches(
                final(input).trees()[final(input).next_sig()],
            ),
    {
        input.position();
        if input.is_empty() {
            return Ok(Punctuated::new());
        }
        let first = match input.peek() {
            Some(token) => {
                if _Cma::matches_token_tree(token) {
                    Some(S::from(Empty::new(boundary_before(token.span()))))
                } else {
                    None
                }
            },
            None => None,
        };
        let first = match first {
            Some(first) => first,
            None => S::parse(input)?,
        };
        let mut values = Punctuated::from_value(first);
        loop
            invariant
                input.trees() == old(input).trees(),
                input.spec_eof_span() == old(input).spec_eof_span(),
                old(input).pos() <= input.pos() <= input.trees().len(),
                old(input).next_sig() < old(input).trees().len(),
                values.spec_last() is Some,
            ensures
                input.trees() == old(input).trees(),
                values.spec_last() is Some,
                input.next_sig() >= input.trees().len() || !_Cma::spec_matches(
                    input.trees()[input.next_sig()],
                ),
            decreases input.trees().len() - input.pos(),
        {
            let at_comma = match input.peek() {
                Some(token) => _Cma::matches_token_tree(token),
                None => false,
            };
            if !at_comma {
                break;
            }
            proof {
                crate::parse::lemma_sig_pos_bounds(input.trees(), input.pos());
            }
            let punctuation: _Cma = input.parse_token()?;
            let empty_next = match input.peek() {
                Some(token) => _Cma::matches_token_tree(token) || _Scl::matches_token_tree(token),
                None => true,
            };
            let next = if empty_next {
                let span = match input.peek() {
                    Some(token) => boundary_before(token.span()),
                    None => input.eof_span(),
                };
                S::from(Empty::new(span))
            } else {
                S::parse(input)?
            };
            values.push(punctuation, next);
        }
        Ok(values)
    }
}

impl<S> Default for Punctuated<S> {
    fn default() -> (values: Self)
        ensures
            values.values().len() == 0,
    {
        Punctuated::new()
    }
}

impl<S: ToTokens> ToTokens for Punctuated<S> {
    open spec fn spec_tokens(&self) -> Seq<TokenModel> {
        pairs_tokens(self.spec_pairs()) + match self.spec_last() {
            Some(v) => v.spec_tokens(),
            None => seq![],
        }
    }

    fn to_tokens(&self, output: &mut TokenStream) {
        let mut i: usize = 0;
        proof {
            assert(self.spec_pairs().subrange(0, 0) =~= Seq::<(S, _Cma)>::empty());
            assert(old(output)@ + pairs_tokens(Seq::<(S, _Cma)>::empty()) =~= old(output)@);
        }
        while i < self.inner.len()
            invariant
                i <= self.inner@.len(),
                self.inner@ == self.spec_pairs(),
                output@ == old(output)@ + pairs_tokens(self.spec_pairs().subrange(0, i as int)),
            decreases self.inner@.len() - i,
        {
            let pair = &self.inner[i];
            pair.0.to_tokens(output);
            pair.1.to_tokens(output);
            proof {
                let prefix = self.spec_pairs().subrange(0, i + 1);
                assert(prefix.drop_last() =~= self.spec_pairs().subrange(0, i as int));
                assert(output@ =~= old(output)@ + pairs_tokens(prefix));
            }
            i = i + 1;
        }
        proof {
            assert(self.spec_pairs().subrange(0, self.inner@.len() as int) =~= self.spec_pairs());
        }
        match &self.last {
            Some(last) => {
                last.to_tokens(output);
            },
            None => {},
        }
        proof {
            assert(output@ =~= old(output)@ + self.spec_tokens());
        }
    }
}

} // verus!
