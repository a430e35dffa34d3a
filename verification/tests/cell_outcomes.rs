use m2_syn::nodes::AnyCell;
use m2_syn::tokens::_Mul;
use m2_syn::{
    lex_str, parse2, parse_fragment_str, parse_native, FragmentParseError, LexErrorKind,
    NativeParseError, SourceId, Span, Spanned, TextPoint, TextRange, ToTokens,
};

#[test]
fn blank_sources_parse_to_files_without_elements() {
    for source in ["", "   ", "\n\n", "-- only a comment\n"] {
        let file = parse_native(source, SourceId(40)).unwrap();
        assert!(file.elements.is_empty(), "{source:?}");
    }
}

#[test]
fn a_leading_bare_semicolon_is_reported_as_the_semicolon() {
    let error = parse_native("  ;", SourceId(41)).unwrap_err();
    assert!(matches!(error, NativeParseError::Unexpected { ref found, .. } if found == ";"));
}

#[test]
fn cells_become_elements_in_order_and_muted_exactly_for_semicolons() {
    let file = parse_native("1;\n\n2\n3;", SourceId(42)).unwrap();
    assert_eq!(file.elements.len(), 3);
    assert!(matches!(file.elements[0], AnyCell::MutedCell(_)));
    assert!(matches!(file.elements[1], AnyCell::ExpressionCell(_)));
    assert!(matches!(file.elements[2], AnyCell::MutedCell(_)));
}

#[test]
fn matching_delimiters_never_report_an_unexpected_closing() {
    for source in ["(1)", "(1)+2", "f(x)+[y]", "{(a)}"] {
        let cells = lex_str(source, SourceId(43)).unwrap();
        assert_eq!(cells.to_string(), source);
    }
}

#[test]
fn a_closing_delimiter_of_another_kind_is_unexpected() {
    let error = lex_str("(1]", SourceId(44)).unwrap_err();
    assert_eq!(error.kind(), LexErrorKind::UnexpectedClosingDelimiter);
    assert_eq!(error.span().start_point().unwrap().byte, 2);
}

#[test]
fn an_open_group_at_the_end_reports_its_opening() {
    let error = lex_str("1 + (2", SourceId(45)).unwrap_err();
    assert_eq!(error.kind(), LexErrorKind::UnterminatedGroup);
    assert_eq!(error.span().start_point().unwrap().byte, 4);
}

#[test]
fn a_number_followed_by_an_operator_is_no_invalid_number() {
    let cells = lex_str("x1-y\n1 +\n2", SourceId(46)).unwrap();
    assert_eq!(cells.iter().count(), 2);
}

#[test]
fn fragments_of_several_cells_report_their_count() {
    let error = parse_fragment_str::<_Mul>("a;b;c", SourceId(47)).unwrap_err();
    assert_eq!(error, FragmentParseError::MultipleCells { count: 3 });
}

#[test]
fn a_typed_token_parses_back_from_its_emission() {
    let span = Span::new(
        SourceId(48),
        TextRange::new(TextPoint::new(0, 0, 0), TextPoint::new(0, 1, 1)),
    );
    let token = _Mul::new(span);
    let parsed: _Mul = parse2(token.to_token_stream()).unwrap();
    assert_eq!(parsed.to_token_stream().to_string(), "*");
    assert_eq!(parsed.span(), span);
}
