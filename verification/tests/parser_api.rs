use m2_syn::cst::reconstruct;
use m2_syn::nodes::{SourceFile, Symbol};
use m2_syn::tokens::{_Add, _Mul};
use m2_syn::{
    lex_str, parse_with, CSTNodeClassLabel, CellStream, ExternalCstChild, ExternalCstNode,
    NativeParser, Parse, ParseStream, Parser, Punct, ReconstructError, SourceId, Span,
    TokenStream,
};

struct EmptyFileParser;

impl Parser<SourceFile> for EmptyFileParser {
    type Error = ();

    fn parse(&mut self, _tokens: CellStream) -> Result<SourceFile, Self::Error> {
        Ok(SourceFile::new(Vec::new()))
    }
}

struct SymbolParser;

impl Parser<Symbol> for SymbolParser {
    type Error = ();

    fn parse(&mut self, tokens: CellStream) -> Result<Symbol, Self::Error> {
        Ok(Symbol::new(&tokens.to_string(), Span::detached()))
    }
}

fn punctuation(spellings: &[&str]) -> TokenStream {
    let mut stream = TokenStream::new();
    for spelling in spellings {
        stream.push_punct(Punct::new(spelling, Span::detached()));
    }
    stream
}

#[test]
fn external_parsers_can_produce_files_or_more_specific_targets() {
    let file = parse_with(&mut EmptyFileParser, lex_str("", SourceId(1)).unwrap()).unwrap();
    let symbol: Symbol =
        parse_with(&mut SymbolParser, lex_str("example", SourceId(2)).unwrap()).unwrap();

    assert!(file.elements.is_empty());
    assert_eq!(symbol.text, "example");
}

#[test]
fn both_built_in_parsers_use_the_same_generic_entry_point() {
    let tokens = lex_str("left + right", SourceId(3)).unwrap();
    let native_file: SourceFile = parse_with(&mut NativeParser::new(), tokens).unwrap();

    assert_eq!(native_file.elements.len(), 1);
}

#[test]
fn token_parse_stream_supports_speculative_parsing() {
    let mut input = ParseStream::new(punctuation(&["+", "*"]));
    let mut fork = input.fork();
    let _: _Add = Parse::parse(&mut fork).unwrap();

    input.advance_to(&fork);
    let _: _Mul = Parse::parse(&mut input).unwrap();
    assert!(input.is_empty());
}

#[test]
fn a_failed_speculation_leaves_the_original_stream_unmoved() {
    let mut input = ParseStream::new(punctuation(&["+"]));
    let mut fork = input.fork();
    assert!(<_Mul as Parse>::parse(&mut fork).is_err());
    assert_eq!(input.position(), 0);
    let _: _Add = Parse::parse(&mut input).unwrap();
    assert!(input.is_empty());
}

#[derive(Clone)]
struct SymbolCst;

impl ExternalCstNode for SymbolCst {
    fn identity(&self) -> CSTNodeClassLabel {
        CSTNodeClassLabel::new("symbol", true)
    }

    fn children(&self) -> Vec<ExternalCstChild<Self>> {
        Vec::new()
    }

    fn text(&self) -> String {
        "from_cst".to_owned()
    }

    fn span(&self) -> Span {
        Span::detached()
    }

    fn is_extra(&self) -> bool {
        false
    }
}

#[derive(Clone)]
struct NumberCst;

impl ExternalCstNode for NumberCst {
    fn identity(&self) -> CSTNodeClassLabel {
        CSTNodeClassLabel::new("integer", true)
    }

    fn children(&self) -> Vec<ExternalCstChild<Self>> {
        Vec::new()
    }

    fn text(&self) -> String {
        "12".to_owned()
    }

    fn span(&self) -> Span {
        Span::detached()
    }

    fn is_extra(&self) -> bool {
        false
    }
}

#[test]
fn parser_specific_csts_can_use_generated_reconstruction() {
    let symbol: Symbol = reconstruct(SymbolCst).unwrap();

    assert_eq!(symbol.text, "from_cst");
}

#[test]
fn symbol_reconstruction_refuses_other_nodes() {
    let error = reconstruct::<Symbol, NumberCst>(NumberCst).unwrap_err();

    assert_eq!(
        error,
        ReconstructError::WrongNode {
            expected: "symbol",
            expected_named: true,
            actual: "integer".to_owned(),
            actual_named: true,
        }
    );
}
