use m2_syn::delim::{_BracketDelimiter, _EmptyDelimiter, _ParenthesisDelimiter, _SemicolonDelimiter};
use m2_syn::nodes::{Array, BinaryExpression, Expr, OperatorExpr, Symbol, SyntaxNode};
use m2_syn::tokens::{BinaryOperator, PrefixOperator, _Add, _Mul};
use m2_syn::{
    lex_str, parse2, DelimiterKind, DelimiterToken, Punctuated, SourceId, Span, Spanned,
    TextPoint, TextRange, ToTokens, TokenParseError, TokenStream, TokenTree,
};

fn span(start: usize, end: usize) -> Span {
    Span::new(
        SourceId(7),
        TextRange::new(
            TextPoint::new(0, start as u32, start),
            TextPoint::new(0, end as u32, end),
        ),
    )
}

fn symbol(name: &str, start: usize) -> Symbol {
    Symbol::new(name, span(start, start + name.len()))
}

fn multiply(start: usize) -> _Mul {
    _Mul::new(span(start, start + 1))
}

fn tokens(source: &str) -> TokenStream {
    let mut flattened = TokenStream::new();
    for cell in lex_str(source, SourceId(9)).unwrap().into_cells() {
        flattened.extend(cell.into_stream());
    }
    flattened
}

fn assignment() -> SyntaxNode {
    SyntaxNode::Expr(Expr::OperatorExpr(OperatorExpr::BinaryExpression(BinaryExpression::new(
        Expr::Symbol(symbol("left", 0)),
        BinaryOperator::from_token(multiply(5)),
        Expr::Symbol(symbol("right", 7)),
    ))))
}

#[test]
fn constructors_hide_recursive_storage_and_preserve_public_categories() {
    let node = assignment();
    assert!(matches!(
        &node,
        SyntaxNode::Expr(Expr::OperatorExpr(OperatorExpr::BinaryExpression(_)))
    ));
    assert_eq!(node.span().source(), Ok(SourceId(7)));
    assert_eq!(node.span().start_point().unwrap().byte, 0);
    assert_eq!(node.span().end_point().unwrap().byte, 12);
}

#[test]
fn one_token_type_can_belong_to_multiple_operator_categories() {
    let binary = BinaryOperator::from_token(multiply(0));
    let prefix = PrefixOperator::from_token(multiply(0));

    assert_eq!(binary.spelling(), "*");
    assert_eq!(prefix.spelling(), "*");
    assert!(matches!(
        multiply(0).to_token_stream().iter().next(),
        Some(TokenTree::Punct(token))
            if token.text == "*" && token.span == multiply(0).span()
    ));
}

#[test]
fn typed_tokens_parse_back_from_their_raw_emission() {
    let original = multiply(0);
    let emitted = original.to_token_stream();
    let parsed: _Mul = parse2(original.to_token_stream()).unwrap();

    assert_eq!(parsed, original);
    assert_eq!(parsed.to_token_stream(), emitted);
}

#[test]
fn token_constructor_accepts_any_supported_span_source() {
    let original = multiply(0);
    let from_span = _Mul::new(original.span());

    assert_eq!(from_span, original);
}

#[test]
fn delimiter_macro_names_generated_typed_delimiter_atoms() {
    let delimiter = _ParenthesisDelimiter::new(span(0, 3));

    assert_eq!(<_ParenthesisDelimiter as DelimiterToken>::kind(), DelimiterKind::Parenthesis);
    assert_eq!(delimiter.span(), span(0, 3));
    assert_eq!(<_EmptyDelimiter as DelimiterToken>::kind(), DelimiterKind::Empty);
    assert_eq!(<_SemicolonDelimiter as DelimiterToken>::kind(), DelimiterKind::Semicolon);
}

#[test]
fn delimited_nodes_store_typed_delimiters_and_flatten_to_raw_groups() {
    let array = Array::new(Vec::new(), Punctuated::new());
    assert_eq!(<_BracketDelimiter as DelimiterToken>::kind(), DelimiterKind::Bracket);
    assert_eq!(array.delimiter.span(), Span::detached());
    assert!(matches!(
        array.to_token_stream().iter().next(),
        Some(TokenTree::Group(group)) if group.delim_kind() == DelimiterKind::Bracket
    ));
}

#[test]
fn parse_quote_infers_and_parses_a_typed_token() {
    let plus: _Add = parse2(tokens("+")).unwrap();

    assert!(matches!(
        plus.to_token_stream().iter().next(),
        Some(TokenTree::Punct(token)) if token.text == "+"
    ));
}

#[test]
fn parse2_rejects_wrong_and_trailing_tokens() {
    assert!(matches!(
        parse2::<_Add>(tokens("*")),
        Err(TokenParseError::UnexpectedToken { .. })
    ));
    assert!(matches!(
        parse2::<_Add>(tokens("+ *")),
        Err(TokenParseError::TrailingToken { .. })
    ));
    assert!(matches!(
        parse2::<_Add>(TokenStream::new()),
        Err(TokenParseError::UnexpectedEnd { .. })
    ));
}
