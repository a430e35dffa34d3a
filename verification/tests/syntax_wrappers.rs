use m2_syn::delim::{
    _AngleBarDelimiter, _BraceDelimiter, _BracketDelimiter, _EmptyDelimiter,
    _ParenthesisDelimiter, _SemicolonDelimiter,
};
use m2_syn::nodes::{Expr, Symbol};
use m2_syn::punct::{Empty, Pair};
use m2_syn::tokens::_Cma;
use m2_syn::{
    lex_str, parse2, parse_fragment_str, parse_native, Body, CellStream, Delimited, DelimiterToken,
    FragmentParseError, Literal, LiteralKind, Parse, ParseStream, Punctuated, SourceId, Span,
    Spanned, Terminated, ToCells, ToTokens, TokenParseError, TokenStream, TokenTree,
};

fn assert_syntax<T: Parse + ToTokens>() {}

#[derive(Debug, PartialEq, Eq)]
enum Value {
    Integer(Literal),
    Empty(Empty),
}

fn integer(text: &str) -> Value {
    Value::Integer(Literal::new(LiteralKind::Integer, text.to_owned(), Span::detached()))
}

fn round_trip<T>(value: T, expected: &str)
where
    T: std::fmt::Debug + Eq + Parse + ToTokens,
{
    let tokens = value.to_token_stream();
    assert_eq!(tokens.to_string(), expected);
    assert_eq!(parse2::<T>(tokens).unwrap(), value);
}

fn parse_valid_fragment<T: Parse>(source: &str) -> T {
    parse_native(source, SourceId(1))
        .unwrap_or_else(|error| panic!("`{source}` is not valid M2 syntax: {}", error.to_string()));
    parse_fragment_str(source, SourceId(1)).unwrap_or_else(|error| {
        panic!("`{source}` does not match the test fragment: {}", error.to_string())
    })
}

impl From<Empty> for Value {
    fn from(value: Empty) -> Self {
        Self::Empty(value)
    }
}

impl Spanned for Value {
    fn span(&self) -> Span {
        match self {
            Self::Integer(value) => value.span,
            Self::Empty(value) => value.span(),
        }
    }
}

impl Parse for Value {
    fn parse(input: &mut ParseStream) -> Result<Self, TokenParseError> {
        let Some(token) = input.next_token() else {
            return Err(TokenParseError::UnexpectedEnd {
                expected: "an integer",
                span: Span::detached(),
            });
        };
        let span = token.span();
        match token {
            TokenTree::Literal(literal) if literal.kind == LiteralKind::Integer => {
                Ok(Self::Integer(literal))
            }
            token => Err(TokenParseError::UnexpectedToken {
                expected: "an integer",
                found: token.spelling().unwrap_or("a group").to_owned(),
                span,
            }),
        }
    }
}

impl ToTokens for Value {
    fn to_tokens(&self, output: &mut TokenStream) {
        match self {
            Self::Integer(value) => value.to_tokens(output),
            Self::Empty(value) => value.to_tokens(output),
        }
    }
}

#[test]
fn fragment_string_parser_preserves_top_level_cell_boundaries() {
    assert!(matches!(
        parse_fragment_str::<Body<Punctuated<Value>>>("1;2", SourceId(1)),
        Err(FragmentParseError::MultipleCells { count: 2 })
    ));
}

#[test]
fn all_delimiter_macros_name_construct_parse_and_emit_their_syntax() {
    type Naked = Delimited<Value, _EmptyDelimiter>;
    type Semicolon = Delimited<Value, _SemicolonDelimiter>;
    type Parenthesized = Delimited<Value, _ParenthesisDelimiter>;
    type Bracketed = Delimited<Value, _BracketDelimiter>;
    type Braced = Delimited<Value, _BraceDelimiter>;
    type AngleBars = Delimited<Value, _AngleBarDelimiter>;

    assert_syntax::<Naked>();
    assert_syntax::<Semicolon>();
    assert_syntax::<Parenthesized>();
    assert_syntax::<Bracketed>();
    assert_syntax::<Braced>();
    assert_syntax::<AngleBars>();

    let span = Span::detached();
    round_trip::<Naked>(Delimited::new(_EmptyDelimiter::new(span), integer("1")), "1");
    round_trip::<Semicolon>(Delimited::new(_SemicolonDelimiter::new(span), integer("1")), "1;");
    round_trip::<Parenthesized>(Delimited::new(_ParenthesisDelimiter::new(span), integer("1")), "(1)");
    round_trip::<Bracketed>(Delimited::new(_BracketDelimiter::new(span), integer("1")), "[1]");
    round_trip::<Braced>(Delimited::new(_BraceDelimiter::new(span), integer("1")), "{1}");
    round_trip::<AngleBars>(Delimited::new(_AngleBarDelimiter::new(span), integer("1")), "<|1|>");
}

#[test]
fn delimiters_lower_cells_to_local_groups_and_unpack_groups_to_global_cells() {
    let cells = lex_str("left;right", SourceId(81)).unwrap();
    let local = Delimited::new(_ParenthesisDelimiter::new(Span::detached()), cells).to_token_stream();
    assert_eq!(local.to_string(), "(left;right)");

    let group = match local.0.into_iter().next().unwrap() {
        TokenTree::Group(group) => group,
        token => panic!("expected a group, found {token:?}"),
    };
    let promoted = group.to_cell_stream(SourceId(82));

    assert_eq!(promoted.cells().len(), 2);
    assert_eq!(promoted.cells()[0].delim_kind(), m2_syn::DelimiterKind::Semicolon);
    assert_eq!(promoted.cells()[1].delim_kind(), m2_syn::DelimiterKind::Empty);
    assert_eq!(promoted.to_string(), "left;right");
}

#[test]
fn independently_emitted_expressions_compose_as_distinct_global_cells() {
    let expressions = [
        Expr::Symbol(Symbol::new("left", Span::detached())),
        Expr::Symbol(Symbol::new("right", Span::detached())),
    ];
    let mut cells = CellStream::new(Vec::new(), SourceId(83));
    for expression in &expressions {
        expression.to_cells(&mut cells);
    }

    assert_eq!(cells.cells().len(), 2);
    assert_eq!(cells.to_string(), "left\nright");
}

#[test]
fn delimiter_atoms_themselves_parse_and_emit() {
    assert_syntax::<_EmptyDelimiter>();
    assert_syntax::<_SemicolonDelimiter>();
    assert_syntax::<_ParenthesisDelimiter>();
    assert_syntax::<_BracketDelimiter>();
    assert_syntax::<_BraceDelimiter>();
    assert_syntax::<_AngleBarDelimiter>();

    let span = Span::detached();
    round_trip(_EmptyDelimiter::new(span), "");
    round_trip(_SemicolonDelimiter::new(span), ";");
    round_trip(_ParenthesisDelimiter::new(span), "()");
    round_trip(_BracketDelimiter::new(span), "[]");
    round_trip(_BraceDelimiter::new(span), "{}");
    round_trip(_AngleBarDelimiter::new(span), "<||>");
}

#[test]
fn punct_macro_names_and_constructs_parseable_sequences() {
    type Values = Punctuated<Value>;

    assert_syntax::<Values>();
    assert_syntax::<Terminated<Values>>();
    assert_syntax::<Body<Values>>();

    let empty: Values = Punctuated::new();
    round_trip(empty, "");

    let one: Values = Punctuated::from_value(integer("1"));
    round_trip(one, "1");

    let mut two: Values = Punctuated::from_value(integer("1"));
    two.push(_Cma::new(Span::detached()), integer("2"));
    round_trip(two, "1,2");

    let pair: Pair<Value, _Cma> = Pair::Punctuated(integer("1"), _Cma::new(Span::detached()));
    let (value, comma) = pair.into_tuple();
    assert_eq!(value, integer("1"));
    assert!(comma.is_some());
    let empty = Empty::new(Span::detached());
    assert_eq!(empty.to_token_stream().to_string(), "");
}

#[test]
fn comma_sequences_insert_real_empty_components() {
    type Parenthesized = Delimited<Punctuated<Value>, _ParenthesisDelimiter>;

    let values = parse_valid_fragment::<Parenthesized>("(,1,,2)").contents;

    assert_eq!(values.len(), 4);
    let items = values.iter();
    assert!(matches!(items[0], Value::Empty(_)));
    assert!(matches!(items[1], Value::Integer(_)));
    assert!(matches!(items[2], Value::Empty(_)));
    assert!(matches!(items[3], Value::Integer(_)));
    assert_eq!(values.to_code(), ",1,,2");
}

#[test]
fn consuming_value_iteration_discards_commas_but_not_empty_components() {
    type Parenthesized = Delimited<Punctuated<Value>, _ParenthesisDelimiter>;

    let values = parse_valid_fragment::<Parenthesized>("(1,)").contents.into_values();

    assert_eq!(values.len(), 2);
    assert!(matches!(values[0], Value::Integer(_)));
    assert!(matches!(values[1], Value::Empty(_)));
}

#[test]
fn semicolons_require_a_nonempty_statement_on_their_left() {
    type Parenthesized = Delimited<Body<Punctuated<Value>>, _ParenthesisDelimiter>;

    for source in ["(;)", "(1;;2)"] {
        assert!(parse_native(source, SourceId(1)).is_err(), "native parser accepted `{source}`");
        assert!(
            parse_fragment_str::<Parenthesized>(source, SourceId(1)).is_err(),
            "fragment parser accepted `{source}`"
        );
    }

    let body = parse_valid_fragment::<Parenthesized>("(1,;2)").contents;
    assert_eq!(body.statements.len(), 1);
    assert_eq!(body.statements[0].statement.len(), 2);
    assert!(matches!(body.statements[0].statement.iter()[1], Value::Empty(_)));
    assert!(body.tail.is_some());
    assert_eq!(body.to_code(), "1,;2");
}

#[test]
fn delimited_bodies_parse_emit_and_reparse() {
    type Parenthesized = Delimited<Body<Punctuated<Value>>, _ParenthesisDelimiter>;

    let parsed: Parenthesized = parse_valid_fragment("(,1;2)");
    let emitted = parsed.to_token_stream();
    let reparsed: Parenthesized = parse2(parsed.to_token_stream()).unwrap();

    assert_eq!(emitted.to_string(), "(,1;2)");
    assert_eq!(reparsed, parsed);
}
