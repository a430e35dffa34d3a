use m2_syn::{ParsedFile, SourceId, Spanned, ToTokens};

#[test]
fn parsed_file_projects_one_current_typed_tree() {
    let file = ParsedFile::parse_native_with_source_id("left+right".to_string(), SourceId(70)).unwrap();

    assert_eq!(file.original_source(), "left+right");
    assert_eq!(file.source_id(), SourceId(70));
    assert_eq!(file.to_source(), file.cst().to_code());
    assert_eq!(file.token_stream().to_string(), file.to_source());
    assert_eq!(file.cell_stream().to_string(), file.to_source());
}

#[test]
fn parsed_file_edits_feed_every_output_projection() {
    let file = ParsedFile::parse_native("left + right".to_string())
        .unwrap()
        .edit(|cst| cst.elements.clear());

    assert_eq!(file.original_source(), "left + right");
    assert!(file.cst().elements.is_empty());
    assert!(file.token_stream().is_empty());
    assert!(file.cell_stream().is_empty());
    assert_eq!(file.to_source(), "");
    assert_eq!(file.to_string(), "");
}

#[test]
fn parsed_file_exposes_readable_debug_projections() {
    let file = ParsedFile::parse_native("value".to_string()).unwrap();

    assert!(file.pretty_cst().starts_with("SourceFile"));
    assert!(file.pretty_cst().contains("value → value  Symbol"));
    assert!(!file.pretty_cst().contains("::"));
    assert!(file.pretty_tokens().starts_with("token │"));
    assert!(file.pretty_tokens().contains("IDENT"));
    assert!(file.pretty_tokens().contains(" value "));
    assert!(file.pretty_tokens().contains("EOC"));
}

#[test]
fn combined_report_labels_source_tokens_and_the_complete_tree() {
    let file = ParsedFile::parse_native("f = (x,)".to_string()).unwrap();
    let report = file.pretty_report().to_string();

    assert!(report.contains("╭─ SOURCE"));
    assert!(report.contains("╭─ TOKEN STREAM"));
    assert!(report.contains("OPEN·Parenthesis"));
    assert!(report.contains("CLOSE·Parenthesis"));
    assert!(report.contains("╭─ TYPED CST"));
    assert!(report.contains("Punctuated · 2 items"));
    assert!(report.contains("opening → (  Token"));
    assert!(report.contains("closing → )  Token"));
    assert!(!report.contains("@detached"));
    assert!(!report.contains("TRIVIA"));
    assert!(!report.contains('\u{1b}'));

    let colored = file
        .pretty_report()
        .ansi(true)
        .spans(false)
        .trivia(true)
        .to_string();
    assert!(colored.contains("\u{1b}["));
    assert!(colored.contains("TRIVIA"));
    assert!(!colored.contains("@s"));
}

#[test]
fn parsed_files_carry_their_source_identity_into_spans() {
    let file = ParsedFile::parse_native_with_source_id("first".to_string(), SourceId(9)).unwrap();
    assert_eq!(file.cst().span().source().unwrap(), file.source_id());
    let default = ParsedFile::parse_native("second".to_string()).unwrap();
    assert_eq!(default.source_id(), ParsedFile::default_source_id());
}

#[test]
fn the_report_numbers_source_lines_and_marks_an_empty_source() {
    let file = ParsedFile::parse_native("a\nb".to_string()).unwrap();
    let report = file.pretty_report().to_string();
    assert!(report.contains("│ 1 │ a\n│ 2 │ b\n╰─"));
    let empty = ParsedFile::parse_native(String::new()).unwrap();
    assert!(empty.pretty_report().to_string().contains("│  ∅\n╰─"));
}

#[test]
fn parsed_file_edits_through_a_mutable_borrow_too() {
    let mut file = ParsedFile::parse_native("left + right".to_string()).unwrap();
    file.cst_mut().elements.clear();

    assert!(file.cst().elements.is_empty());
    assert_eq!(file.to_source(), "");
}
