//! Ownership and projection of one parsed Macaulay2 source file.
//!
//! [`ParsedFile`] owns the typed [`SourceFile`] and exposes fresh projections
//! of that tree as tokens, cells, or normalized source. The typed tree is the
//! sole mutable representation, so changing it cannot leave a cached token
//! stream out of sync. The original string is kept as an immutable snapshot.
use vstd::prelude::*;

use crate::lexemes::{cells_lexemes, models_lexemes};
use crate::native::{native_outcome, parse_native, NativeParseError};
use crate::nodes::{sp_source_file, tk_source_file, SourceFile};
use crate::pretty::{band_head, format_cells, format_tree, node_text, PrettyNode, PrettyOptions, PrettyReport, PrettyTree};
use crate::span::{SourceId, Span, Spanned};
use crate::token_stream::{models_text, CellModel, CellStream, ToCells, ToTokens, TokenModel, TokenStream};

verus! {

/// The number of the source identity used by constructors that do not receive one.
pub const DEFAULT_SOURCE_NUMBER: u64 = 0;

/// An owned typed tree together with its source identity and original input.
pub struct ParsedFile {
    original_source: String,
    source_id: SourceId,
    cst: SourceFile,
}

impl ParsedFile {
    /// The input exactly as supplied to the parser.
    pub closed spec fn spec_original_source(&self) -> Seq<char> {
        self.original_source@
    }

    pub closed spec fn spec_source_id(&self) -> SourceId {
        self.source_id
    }

    pub closed spec fn spec_cst(&self) -> SourceFile {
        self.cst
    }

    /// The source identity used by constructors that do not receive one.
    pub fn default_source_id() -> (id: SourceId)
        ensures
            id == SourceId(DEFAULT_SOURCE_NUMBER),
    {
        SourceId(DEFAULT_SOURCE_NUMBER)
    }

    /// Parses source with the native precedence parser and the default source id.
    pub fn parse_native(source: String) -> (r: Result<Self, NativeParseError>)
        ensures
            r matches Ok(file) ==> file.spec_original_source() == source@ && file.spec_source_id()
                == SourceId(DEFAULT_SOURCE_NUMBER) && native_outcome(
                source@,
                SourceId(DEFAULT_SOURCE_NUMBER),
                Ok(file.spec_cst()),
            ),
            r matches Err(e) ==> native_outcome(source@, SourceId(DEFAULT_SOURCE_NUMBER), Err(e)),
    {
        Self::parse_native_with_source_id(source, Self::default_source_id())
    }

    /// Parses source with the native precedence parser and an explicit source id.
    pub fn parse_native_with_source_id(source: String, source_id: SourceId) -> (r: Result<
        Self,
        NativeParseError,
    >)
        ensures
            r matches Ok(file) ==> file.spec_original_source() == source@ && file.spec_source_id()
                == source_id && native_outcome(source@, source_id, Ok(file.spec_cst())),
            r matches Err(e) ==> native_outcome(source@, source_id, Err(e)),
    {
        match parse_native(source.as_str(), source_id) {
            Ok(cst) => Ok(ParsedFile { original_source: source, source_id, cst }),
            Err(error) => Err(error),
        }
    }

    /// Returns the input snapshot exactly as supplied to the parser.
    pub fn original_source(&self) -> (text: &str)
        ensures
            text@ == self.spec_original_source(),
    {
        self.original_source.as_str()
    }

    /// Returns the source identity attached to parsed spans.
    pub fn source_id(&self) -> (id: SourceId)
        ensures
            id == self.spec_source_id(),
    {
        self.source_id
    }

    /// Borrows the typed tree.
    pub fn cst(&self) -> (cst: &SourceFile)
        ensures
            *cst == self.spec_cst(),
    {
        &self.cst
    }

    /// Mutably borrows the typed tree.
    pub fn cst_mut(&mut self) -> (cst: &mut SourceFile)
        ensures
            *cst == old(self).spec_cst(),
            final(self).spec_cst() == *final(cst),
            final(self).spec_original_source() == old(self).spec_original_source(),
            final(self).spec_source_id() == old(self).spec_source_id(),
    {
        &mut self.cst
    }

    /// Applies an edit to the typed tree and returns the file for further
    /// chaining: the tree becomes what one call of `edit` leaves behind.
    pub fn edit<F: FnOnce(&mut SourceFile)>(self, edit: F) -> (file: Self)
        requires
            forall|cst: &mut SourceFile| #[trigger] call_requires(edit, (cst,)),
        ensures
            exists|cst: &mut SourceFile|
                *cst == self.spec_cst() && #[trigger] call_ensures(edit, (cst,), ())
                    && file.spec_cst() == *final(cst),
            file.spec_original_source() == self.spec_original_source(),
            file.spec_source_id() == self.spec_source_id(),
    {
        let mut file = self;
        edit(&mut file.cst);
        file
    }

    /// Consumes the file and returns its typed tree.
    pub fn into_cst(self) -> (cst: SourceFile)
        ensures
            cst == self.spec_cst(),
    {
        self.cst
    }

    /// Flattens the current tree into one token stream.
    pub fn token_stream(&self) -> (tokens: TokenStream)
        ensures
            tokens@ == tk_source_file(self.spec_cst()),
    {
        self.cst.to_token_stream()
    }

    /// Flattens the current tree into its cells, one per element; the cells
    /// carry exactly the lexemes the tree emits.
    pub fn cell_stream(&self) -> (cells: CellStream)
        ensures
            cells.source_id == self.spec_source_id(),
            cells.cells@.len() == self.spec_cst().elements@.len(),
            cells_lexemes(cells@) == models_lexemes(tk_source_file(self.spec_cst())),
    {
        let mut cells = CellStream::new(Vec::new(), self.source_id);
        proof {
            assert(cells@ =~= Seq::<CellModel>::empty());
        }
        self.cst.to_cells(&mut cells);
        proof {
            assert(cells_lexemes(Seq::<CellModel>::empty()) + models_lexemes(tk_source_file(self.cst)) =~= models_lexemes(tk_source_file(self.cst)));
        }
        cells
    }

    /// Emits the current tree as normalized Macaulay2 source.
    pub fn to_source(&self) -> (text: String)
        ensures
            text@ == models_text(tk_source_file(self.spec_cst())),
    {
        self.token_stream().to_string()
    }

    /// The text of the current token stream, as the file displays itself.
    pub fn to_string(&self) -> (text: String)
        ensures
            text@ == models_text(tk_source_file(self.spec_cst())),
    {
        self.token_stream().to_string()
    }

    /// Formats the flat token view of the current cells for inspection: a
    /// file with elements starts with the first band's row label, and one
    /// without renders as `∅`.
    pub fn pretty_tokens(&self) -> (text: String)
        ensures
            self.spec_cst().elements@.len() > 0 ==> band_head(
                PrettyOptions::plain_spec(),
            ).is_prefix_of(text@),
            self.spec_cst().elements@.len() == 0 ==> text@ == "∅"@ + "\n"@,
    {
        format_cells(&self.cell_stream(), PrettyOptions::plain())
    }

    /// Formats the current typed tree for inspection: the plain layout of a
    /// presentation tree whose root is the file's `SourceFile` node.
    pub fn pretty_cst(&self) -> (text: String)
        ensures
            exists|node: PrettyNode|
                node.name@ == "SourceFile"@ && node.span == sp_source_file(self.spec_cst())
                    && node.children@.len() == 1 && text@ == #[trigger] node_text(
                    node,
                    seq![],
                    None,
                    true,
                    PrettyOptions::plain_spec(),
                ),
    {
        let node = self.cst.pretty_tree();
        let text = format_tree(&node, PrettyOptions::plain());
        proof {
            let layout = node_text(node, seq![], None, true, PrettyOptions::plain_spec());
            assert(text@ == layout);
        }
        text
    }

    /// A combined report of the original source, the current cells and the
    /// current typed tree, with plain options.
    pub fn pretty_report(&self) -> (report: PrettyReport<'_>)
        ensures
            report.spec_options() == PrettyOptions::plain_spec(),
            report.spec_source() == self.spec_original_source(),
    {
        PrettyReport::new(self.original_source.as_str(), self.cell_stream(), self.cst.pretty_tree())
    }
}

impl Spanned for ParsedFile {
    closed spec fn spec_span(&self) -> Span {
        self.cst.spec_span()
    }

    fn span(&self) -> (span: Span) {
        self.cst.span()
    }
}

impl ToTokens for ParsedFile {
    closed spec fn spec_tokens(&self) -> Seq<TokenModel> {
        tk_source_file(self.cst)
    }

    fn to_tokens(&self, output: &mut TokenStream) {
        self.cst.to_tokens(output);
    }
}

} // verus!
