use m2_syn::pretty::{
    centered_cell, format_span, format_cells, BRIGHT_YELLOW, EOC_COLOR, IDENT_COLOR, LITERAL_COLOR, PUNCT_COLOR,
};
use m2_syn::{
    lex_str, CellBlock, CellStream, Delimiter, DelimiterKind, PrettyNode, PrettyOptions, SourceId,
    Span, TextPoint, TextRange, TokenStream, Trivia, TriviaKind,
};

#[test]
fn adjacent_trivia_is_hidden_or_rendered_as_one_token() {
    let mut tokens = TokenStream::new();
    tokens.push_trivia(Trivia::new(TriviaKind::Whitespace, " ", Span::detached()));
    tokens.push_trivia(Trivia::new(TriviaKind::LineBreak, "\n", Span::detached()));

    let cells = CellStream::new(
        vec![CellBlock::new(
            Delimiter::new(DelimiterKind::Empty, Span::detached()),
            tokens,
        )],
        SourceId(1),
    );

    let hidden = format_cells(&cells, PrettyOptions::plain());
    assert!(!hidden.contains("TRIVIA"));
    assert!(hidden.contains("EOC"));
    let shown = format_cells(
        &cells,
        PrettyOptions {
            trivia: true,
            ..PrettyOptions::plain()
        },
    );
    assert_eq!(shown.matches("TRIVIA").count(), 1);
    assert!(shown.contains("␠↵"));
}

#[test]
fn token_bands_end_at_cells_and_use_distinct_class_colors() {
    let cells = lex_str("name = 1\nnext", SourceId(2)).unwrap();
    let plain = format_cells(&cells, PrettyOptions::plain());

    assert_eq!(plain.matches("token │").count(), 2);
    assert_eq!(plain.matches(" EOC ").count(), 4);

    let colored = format_cells(&cells, PrettyOptions::ansi());
    assert!(colored.contains(&format!("{BRIGHT_YELLOW} name ")));
    for color in [IDENT_COLOR, PUNCT_COLOR, LITERAL_COLOR, EOC_COLOR] {
        assert!(colored.contains(color));
    }
}

#[test]
fn token_cells_are_centered() {
    assert_eq!(centered_cell("x", 5), "   x   ");
    assert_eq!(centered_cell("xy", 5), "  xy   ");
}

#[test]
fn enum_presentation_is_transparent() {
    let value = PrettyNode::token("Symbol", "x", Span::detached());
    let rendered = PrettyNode::variant("Expr", "Symbol", Span::detached(), value);

    assert_eq!(rendered.name, "Symbol");
}

#[test]
fn an_empty_cell_stream_renders_as_the_empty_set() {
    let cells = CellStream::new(Vec::new(), SourceId(3));
    assert_eq!(format_cells(&cells, PrettyOptions::plain()), "∅\n");
}

#[test]
fn tree_lines_draw_labels_details_and_spans() {
    let mut root = PrettyNode::syntax("Root", Span::detached());
    root.push_node("first", PrettyNode::token("Symbol", "a b", Span::detached()));
    root.push_node("second", PrettyNode::absent());
    let text = m2_syn::pretty::format_tree(&root, PrettyOptions::plain());
    assert_eq!(
        text,
        "Root  @detached\n├─ first → a␠b  Symbol  @detached\n└─ second → None  @detached\n"
    );
}

#[test]
fn source_lines_follow_the_standard_line_iterator() {
    let lines = m2_syn::pretty::split_lines("a\r\nb\n\nc\r");
    assert_eq!(lines, vec!["a", "b", "", "c\r"]);
    assert!(m2_syn::pretty::split_lines("").is_empty());
    assert_eq!(m2_syn::pretty::split_lines("x\n"), vec!["x"]);
}

#[test]
fn spans_render_points_single_lines_and_multiple_lines() {
    let point = TextPoint::new(0, 0, 0);
    let later = TextPoint::new(0, 4, 4);
    let next_line = TextPoint::new(2, 1, 9);
    assert_eq!(format_span(Span::detached()), "@detached");
    assert_eq!(format_span(Span::new(SourceId(7), TextRange::new(point, point))), "@s7·1:1");
    assert_eq!(format_span(Span::new(SourceId(7), TextRange::new(point, later))), "@s7·1:1–5");
    assert_eq!(format_span(Span::in_tmp_file(TextRange::new(point, next_line))), "@1:1–3:2");
}
