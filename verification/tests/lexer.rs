use m2_syn::lexer::{
    is_identifier_continue, is_identifier_start, is_math_operator_pair, lex, lex_str,
    utf8_char_width, ByteCursor, LexErrorKind, MAX_GROUP_DEPTH,
};
use m2_syn::{DelimiterKind, LiteralKind, SourceId, TextPoint, TokenStream, TokenTree, TriviaKind};

fn tokens(source: &str) -> TokenStream {
    let stream = lex_str(source, SourceId(11)).unwrap();
    assert_eq!(stream.to_string(), source);
    let mut flattened = TokenStream::new();
    for cell in stream.into_cells() {
        flattened.extend(cell.into_stream());
    }
    flattened
}

#[test]
fn byte_cursor_supports_lazy_arbitrary_finite_lookahead() {
    let bytes = [b'a', b'b', b'c'];
    let mut input = ByteCursor::new(&bytes);

    assert_eq!(input.peek(0), Some(b'a'));
    assert_eq!(input.remaining(), 3);
    assert_eq!(input.peek(2), Some(b'c'));
    assert_eq!(input.remaining(), 3);
    assert_eq!(input.next(), Some(b'a'));
    assert_eq!(input.peek(0), Some(b'b'));
    assert_eq!(input.next(), Some(b'b'));
    assert_eq!(input.next(), Some(b'c'));
    assert_eq!(input.next(), None);
}

#[test]
fn lexer_accepts_an_arbitrary_non_peekable_byte_iterator() {
    let bytes = vec![b'a', b'+', b'1'];
    let stream = lex(&bytes, SourceId(18)).unwrap();
    assert_eq!(stream.to_string(), "a+1");
}

#[test]
fn lexer_does_not_eagerly_consume_the_byte_iterator() {
    let bytes = [0u8];
    assert_eq!(
        lex(&bytes, SourceId(19)).unwrap_err().kind(),
        LexErrorKind::InvalidCharacter
    );
}

#[test]
fn invalid_utf8_is_a_lex_error() {
    assert_eq!(
        lex(&[0xf0, 0x80, 0x80], SourceId(22)).unwrap_err().kind(),
        LexErrorKind::InvalidUtf8
    );
}

#[test]
fn punctuation_is_returned_as_maximal_tokens() {
    let stream = tokens("<<|-1||>2");
    let punctuation = stream
        .iter()
        .filter_map(|tree| match tree {
            TokenTree::Punct(token) => Some(token.text()),
            _ => None,
        })
        .collect::<Vec<_>>();
    let integers = stream
        .iter()
        .filter_map(|tree| match tree {
            TokenTree::Literal(token) if token.kind == LiteralKind::Integer => Some(token.text()),
            _ => None,
        })
        .collect::<Vec<_>>();
    assert_eq!(punctuation, ["<<", "|-", "||", ">"]);
    assert_eq!(integers, ["1", "2"]);
}

#[test]
fn comment_openers_only_win_at_the_current_position() {
    let ordinary = tokens("|--1");
    assert!(ordinary
        .iter()
        .all(|tree| !matches!(tree, TokenTree::Trivia(_))));

    let comments = tokens("-- comment\n-* block *-");
    let trees = comments.iter().collect::<Vec<_>>();
    assert!(matches!(
        trees.as_slice(),
        [
            TokenTree::Trivia(line),
            TokenTree::Trivia(newline),
            TokenTree::Trivia(block),
        ] if line.kind() == TriviaKind::LineComment
            && newline.kind() == TriviaKind::Whitespace
            && newline.contains_line_break()
            && block.kind() == TriviaKind::BlockComment
    ));
}

#[test]
fn leading_operator_runs_split_at_maximal_known_spellings() {
    let stream = tokens("***1");
    let trees = stream.iter().collect::<Vec<_>>();
    assert!(matches!(
        trees.as_slice(),
        [
            first,
            second,
            TokenTree::Literal(integer),
        ] if first.spelling() == Some("**")
            && second.spelling() == Some("*")
            && integer.kind == LiteralKind::Integer
            && integer.text() == "1"
    ));
}

#[test]
fn identifiers_follow_the_m2_character_classes() {
    let qualified = tokens("Core$foo'12 1not not1");
    let trees = qualified.iter().collect::<Vec<_>>();
    assert!(matches!(
        trees.as_slice(),
        [
            TokenTree::Ident(qualified),
            TokenTree::Trivia(first_space),
            TokenTree::Literal(one),
            TokenTree::Ident(not),
            TokenTree::Trivia(second_space),
            TokenTree::Ident(not_one),
        ] if qualified.text() == "Core$foo'12"
            && first_space.kind() == TriviaKind::Whitespace
            && one.text() == "1"
            && not.text() == "not"
            && second_space.kind() == TriviaKind::Whitespace
            && not_one.text() == "not1"
    ));

    let underscored = tokens("_name");
    let trees = underscored.iter().collect::<Vec<_>>();
    assert!(matches!(
        trees.as_slice(),
        [underscore, TokenTree::Ident(name)]
            if underscore.spelling() == Some("_") && name.text() == "name"
    ));

    let unicode = tokens("éλ🐻");
    assert!(matches!(
        unicode.iter().next(),
        Some(TokenTree::Ident(identifier)) if identifier.text() == "éλ🐻"
    ));

    let operated = tokens("α⊠β");
    let trees = operated.iter().collect::<Vec<_>>();
    assert!(matches!(
        trees.as_slice(),
        [
            TokenTree::Ident(alpha),
            operator,
            TokenTree::Ident(beta),
        ] if alpha.text() == "α"
            && operator.spelling() == Some("⊠")
            && beta.text() == "β"
    ));
}

#[test]
fn radix_literals_stop_before_the_first_invalid_digit() {
    let binary = tokens("0b010201");
    let trees = binary.iter().collect::<Vec<_>>();
    assert!(matches!(
        trees.as_slice(),
        [
            TokenTree::Literal(binary),
            TokenTree::Literal(decimal),
        ]
            if binary.text() == "0b010" && decimal.text() == "201"
    ));

    let octal = tokens("0o70789");
    let trees = octal.iter().collect::<Vec<_>>();
    assert!(matches!(
        trees.as_slice(),
        [
            TokenTree::Literal(octal),
            TokenTree::Literal(decimal),
        ]
            if octal.text() == "0o707" && decimal.text() == "89"
    ));

    let binary_then_identifier = tokens("0b1E2");
    let trees = binary_then_identifier.iter().collect::<Vec<_>>();
    assert!(matches!(
        trees.as_slice(),
        [
            TokenTree::Literal(binary),
            TokenTree::Ident(identifier),
        ]
            if binary.text() == "0b1" && identifier.text() == "E2"
    ));
}

#[test]
fn trivia_preserves_physical_separation_between_punctuation_tokens() {
    let stream = tokens("++x +\n+");
    let trees = stream.iter().collect::<Vec<_>>();
    assert!(matches!(
        trees.as_slice(),
        [
            increment,
            TokenTree::Ident(identifier),
            TokenTree::Trivia(space),
            first_plus,
            TokenTree::Trivia(newline),
            second_plus,
        ] if increment.spelling() == Some("++")
            && identifier.text() == "x"
            && space.kind() == TriviaKind::Whitespace
            && first_plus.spelling() == Some("+")
            && newline.kind() == TriviaKind::Whitespace
            && newline.contains_line_break()
            && second_plus.spelling() == Some("+")
    ));
}

#[test]
fn cells_use_operator_clause_and_delimiter_state() {
    fn top_level_cell_count(source: &str) -> usize {
        lex_str(source, SourceId(11)).unwrap().iter().count()
    }

    assert_eq!(top_level_cell_count("1\n2"), 2);
    assert_eq!(top_level_cell_count("1 +\n2"), 1);
    assert_eq!(top_level_cell_count("not\n1"), 1);
    assert_eq!(top_level_cell_count("1!\n2"), 2);
    assert_eq!(top_level_cell_count("if condition\nthen value"), 1);
    assert_eq!(top_level_cell_count("if condition\nthen value\nnext"), 2);
    assert_eq!(top_level_cell_count("symbol if\nnext"), 2);
    assert_eq!(top_level_cell_count("symbol +\nnext"), 2);
    assert_eq!(top_level_cell_count("1 -* comment\n*- 2"), 2);
    assert_eq!(top_level_cell_count("1 + -* comment\n*- 2"), 1);
    assert_eq!(top_level_cell_count("1;2"), 2);
    assert_eq!(top_level_cell_count("(1\n2;3)"), 1);
}

#[test]
fn strings_and_raw_strings_are_literal_token_trees() {
    for (source, kind) in [
        (r#""a\n\u0101""#, LiteralKind::String),
        ("///left////right///", LiteralKind::RawString),
        ("///left//right/single///", LiteralKind::RawString),
    ] {
        let stream = tokens(source);
        assert!(matches!(
            stream.iter().next(),
            Some(TokenTree::Literal(literal))
                if literal.kind == kind && literal.text() == source
        ));
    }
}

#[test]
fn structural_delimiters_form_nested_groups_with_exact_spans() {
    let source = "(1, [2, <|3|>])";
    let stream = tokens(source);
    let mut trees = stream.into_trees().into_iter();
    let Some(TokenTree::Group(parenthesized)) = trees.next() else {
        panic!("the source should be one parenthesized group");
    };
    assert!(trees.next().is_none());
    assert_eq!(parenthesized.delim_kind(), DelimiterKind::Parenthesis);

    let span = parenthesized.span();
    assert_eq!(span.start_point().unwrap().byte, 0);
    assert_eq!(span.end_point().unwrap().byte, 15);
    assert_eq!(
        parenthesized
            .delimiter()
            .opening_span()
            .end_point()
            .unwrap()
            .byte,
        1
    );
    assert_eq!(
        parenthesized
            .delimiter()
            .closing_span()
            .start_point()
            .unwrap()
            .byte,
        14
    );

    let bracketed = parenthesized
        .stream()
        .iter()
        .find_map(|tree| match tree {
            TokenTree::Group(group) => Some(group),
            _ => None,
        })
        .unwrap();
    assert_eq!(bracketed.delim_kind(), DelimiterKind::Bracket);
    assert_eq!(
        bracketed
            .delimiter()
            .opening_span()
            .start_point()
            .unwrap()
            .byte,
        4
    );
    assert_eq!(
        bracketed
            .delimiter()
            .closing_span()
            .start_point()
            .unwrap()
            .byte,
        13
    );

    let angle_bar = bracketed
        .stream()
        .iter()
        .find_map(|tree| match tree {
            TokenTree::Group(group) => Some(group),
            _ => None,
        })
        .unwrap();
    assert_eq!(angle_bar.delim_kind(), DelimiterKind::AngleBar);
    let opening = angle_bar.delimiter().opening_span();
    let closing = angle_bar.delimiter().closing_span();
    assert_eq!(opening.start_point().unwrap().byte, 8);
    assert_eq!(opening.end_point().unwrap().byte, 10);
    assert_eq!(closing.start_point().unwrap().byte, 11);
    assert_eq!(closing.end_point().unwrap().byte, 13);
}

#[test]
fn graded_operator_wins_before_parenthesis_grouping() {
    let graded = tokens("(*)");
    let trees = graded.iter().collect::<Vec<_>>();
    assert!(matches!(
        trees.as_slice(),
        [graded] if graded.spelling() == Some("(*)")
    ));

    let grouped = tokens("(*x)");
    assert!(matches!(grouped.iter().next(), Some(TokenTree::Group(_))));
}

#[test]
fn malformed_source_returns_lex_errors() {
    for (source, kind) in [
        ("\"\\q\"", LexErrorKind::InvalidEscape),
        ("(1", LexErrorKind::UnterminatedGroup),
        (")", LexErrorKind::UnexpectedClosingDelimiter),
        ("(]", LexErrorKind::UnexpectedClosingDelimiter),
        ("///", LexErrorKind::UnterminatedRawString),
        ("-* unterminated", LexErrorKind::UnterminatedBlockComment),
    ] {
        assert_eq!(lex_str(source, SourceId(11)).unwrap_err().kind(), kind);
    }

    let nested = "(".repeat(MAX_GROUP_DEPTH + 1);
    assert_eq!(
        lex_str(&nested, SourceId(11)).unwrap_err().kind(),
        LexErrorKind::NestingLimitExceeded
    );
}

#[test]
fn spans_track_physical_lines() {
    let stream = tokens("x\r\ny");
    let range = stream
        .iter()
        .find_map(|tree| match tree {
            TokenTree::Ident(identifier) if identifier.text() == "y" => {
                identifier.span.range().ok()
            }
            _ => None,
        })
        .unwrap();
    assert_eq!(range.start(), Some(TextPoint::new(1, 0, 3)));
    assert_eq!(range.end(), Some(TextPoint::new(1, 1, 4)));

    let error = lex_str("-* x\r\n", SourceId(11)).unwrap_err();
    assert_eq!(error.span().end_point().unwrap(), TextPoint::new(1, 0, 6));
}

#[test]
fn identifier_classes_match_m2_byte_ctype() {
    for byte in [b'a', b'Z', 0x80, 0xff] {
        assert!(is_identifier_start(byte));
        assert!(is_identifier_continue(byte));
    }
    for byte in [b'0', b'9', b'$', b'\''] {
        assert!(!is_identifier_start(byte));
        assert!(is_identifier_continue(byte));
    }
    for byte in [b'_', b' ', b'+'] {
        assert!(!is_identifier_start(byte));
        assert!(!is_identifier_continue(byte));
    }
}

#[test]
fn math_operator_prefixes_match_m2_ranges() {
    for pair in [
        (0xc2, 0xa0),
        (0xc2, 0xbf),
        (0xc3, 0x97),
        (0xc3, 0xb7),
        (0xe2, 0x86),
        (0xe2, 0x87),
        (0xe2, 0x88),
        (0xe2, 0x8f),
        (0xe2, 0x9f),
        (0xe2, 0xa4),
        (0xe2, 0xa7),
        (0xe2, 0xa8),
        (0xe2, 0xaf),
    ] {
        assert!(is_math_operator_pair(pair.0, pair.1));
    }
    for pair in [
        (0xc2, 0x9f),
        (0xc3, 0x96),
        (0xc3, 0x98),
        (0xe2, 0x85),
        (0xe2, 0x90),
        (0xe2, 0x9e),
        (0xe2, 0xa3),
        (0xe2, 0xb0),
    ] {
        assert!(!is_math_operator_pair(pair.0, pair.1));
    }
}

#[test]
fn utf8_width_rejects_continuations_and_invalid_leads() {
    assert_eq!(utf8_char_width(b'a'), Some(1));
    assert_eq!(utf8_char_width(0xc2), Some(2));
    assert_eq!(utf8_char_width(0xe2), Some(3));
    assert_eq!(utf8_char_width(0xf0), Some(4));
    assert_eq!(utf8_char_width(0x80), None);
    assert_eq!(utf8_char_width(0xc0), None);
    assert_eq!(utf8_char_width(0xf5), None);
}

#[test]
fn ordinary_strings_accept_exact_m2_escape_widths() {
    for source in [r#""\u0101""#, r#""\x4f""#, r#""\1\12\123""#, r#""\n\"\\""#] {
        let stream = tokens(source);
        assert!(matches!(
            stream.iter().next(),
            Some(TokenTree::Literal(literal))
                if literal.kind == LiteralKind::String && literal.text() == source
        ));
    }
    for source in [r#""\u101""#, r#""\u010g""#, r#""\x4""#] {
        assert_eq!(
            lex_str(source, SourceId(1)).unwrap_err().kind(),
            LexErrorKind::InvalidEscape
        );
    }
}

#[test]
fn lex_errors_report_the_bytes_that_show_them() {
    fn error_bytes(source: &[u8]) -> (LexErrorKind, usize, usize) {
        let error = lex(source, SourceId(11)).unwrap_err();
        let start = error.span().start_point().unwrap().byte;
        let end = error.span().end_point().unwrap().byte;
        (error.kind(), start, end)
    }
    assert_eq!(error_bytes(b"x \"abc"), (LexErrorKind::UnterminatedString, 2, 6));
    assert_eq!(error_bytes(b"1e+"), (LexErrorKind::InvalidNumber, 0, 3));
    assert_eq!(error_bytes(b"a ) b"), (LexErrorKind::UnexpectedClosingDelimiter, 2, 3));
    assert_eq!(error_bytes(b"f (x"), (LexErrorKind::UnterminatedGroup, 2, 4));
    assert_eq!(error_bytes(b"\"a\\qb\""), (LexErrorKind::InvalidEscape, 2, 4));
    assert_eq!(error_bytes(b"\"\\xg\""), (LexErrorKind::InvalidEscape, 1, 3));
    assert_eq!(error_bytes(b"x -* y"), (LexErrorKind::UnterminatedBlockComment, 2, 6));
    assert_eq!(error_bytes(b"///ab"), (LexErrorKind::UnterminatedRawString, 0, 5));
    assert_eq!(error_bytes(b"a\x01"), (LexErrorKind::InvalidCharacter, 1, 2));
    assert_eq!(error_bytes(b"\xe2\x88"), (LexErrorKind::InvalidUtf8, 0, 0));
}
