//! A typed syntax library for Macaulay2: spans, raw token streams, the native
//! lexer, and parsing over the shared token representation.
use vstd::prelude::*;

pub mod body;
pub mod cst;
pub mod delim;
pub mod delimited;
pub mod lexemes;
pub mod lexer;
pub mod native;
pub mod nodes;
pub mod parse;
pub mod parsed_file;
pub mod pretty;
pub mod punct;
pub mod span;
pub mod text;
pub mod spelling;
pub mod token_stream;
pub mod tokens;

pub use body::{Body, Terminated};
pub use cst::{
    CSTNodeClassLabel, ChildCursor, ExternalCstChild, ExternalCstNode, Reconstruct,
    ReconstructError, Token,
};
pub use delim::{Delimiter, DelimiterKind, DelimiterToken};
pub use delimited::Delimited;
pub use lexer::{lex, lex_str, LexError, LexErrorKind};
pub use native::{parse_native, NativeParseError, NativeParser};
pub use parse::{
    parse2, parse_fragment_str, parse_with, FragmentParseError, Parse, ParseStream, Parser,
    TokenParseError,
};
pub use parsed_file::ParsedFile;
pub use pretty::{PrettyNode, PrettyOptions, PrettyReport, PrettyTree};
pub use punct::Punctuated;
pub use span::{MissingData, SourceId, Span, Spanned, TextPoint, TextRange};
pub use token_stream::{
    CellBlock, CellStream, Group, IdentToken, Literal, LiteralKind, Punct, ToCells, ToTokens,
    TokenStream, TokenTree, Trivia, TriviaKind,
};

verus! {

} // verus!
