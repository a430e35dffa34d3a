//! Raw delimiter families and their boundary spans.
use vstd::prelude::*;

use crate::span::{range_of, span_range, Span, Spanned, TextPoint, TextRange};
use crate::token_stream::{Group, Punct, ToTokens, TokenModel, TokenStream};

verus! {

/// The six delimiter families recognized by raw syntax containers.
///
/// Paired delimiters surround ordinary token-tree groups. `Empty` and
/// `Semicolon` delimit source cells: both have an implicit opening boundary,
/// while only the semicolon has visible closing text.
#[derive(Debug, Clone, Copy, PartialEq, Eq, Hash, Structural)]
pub enum DelimiterKind {
    Empty,
    Semicolon,
    Parenthesis,
    Bracket,
    Brace,
    AngleBar,
}

pub open spec fn opening_text(kind: DelimiterKind) -> Seq<char> {
    match kind {
        DelimiterKind::Empty | DelimiterKind::Semicolon => seq![],
        DelimiterKind::Parenthesis => seq!['('],
        DelimiterKind::Bracket => seq!['['],
        DelimiterKind::Brace => seq!['{'],
        DelimiterKind::AngleBar => seq!['<', '|'],
    }
}

pub open spec fn closing_text(kind: DelimiterKind) -> Seq<char> {
    match kind {
        DelimiterKind::Empty => seq![],
        DelimiterKind::Semicolon => seq![';'],
        DelimiterKind::Parenthesis => seq![')'],
        DelimiterKind::Bracket => seq![']'],
        DelimiterKind::Brace => seq!['}'],
        DelimiterKind::AngleBar => seq!['|', '>'],
    }
}

/// Whether the kind surrounds a token-tree group (rather than ending a cell).
pub open spec fn is_paired(kind: DelimiterKind) -> bool {
    match kind {
        DelimiterKind::Empty | DelimiterKind::Semicolon => false,
        _ => true,
    }
}

impl DelimiterKind {
    /// The opening spelling; cell delimiters have none.
    pub fn opening(self) -> (text: &'static str)
        ensures
            text@ == opening_text(self),
    {
        match self {
            DelimiterKind::Empty | DelimiterKind::Semicolon => {
                proof {
                    reveal_strlit("");
                }
                ""
            },
            DelimiterKind::Parenthesis => {
                proof {
                    reveal_strlit("(");
                }
                "("
            },
            DelimiterKind::Bracket => {
                proof {
                    reveal_strlit("[");
                }
                "["
            },
            DelimiterKind::Brace => {
                proof {
                    reveal_strlit("{");
                }
                "{"
            },
            DelimiterKind::AngleBar => {
                proof {
                    reveal_strlit("<|");
                }
                "<|"
            },
        }
    }

    /// The closing spelling; only the semicolon cell delimiter has one among cells.
    pub fn closing(self) -> (text: &'static str)
        ensures
            text@ == closing_text(self),
    {
        match self {
            DelimiterKind::Empty => {
                proof {
                    reveal_strlit("");
                }
                ""
            },
            DelimiterKind::Semicolon => {
                proof {
                    reveal_strlit(";");
                }
                ";"
            },
            DelimiterKind::Parenthesis => {
                proof {
                    reveal_strlit(")");
                }
                ")"
            },
            DelimiterKind::Bracket => {
                proof {
                    reveal_strlit("]");
                }
                "]"
            },
            DelimiterKind::Brace => {
                proof {
                    reveal_strlit("}");
                }
                "}"
            },
            DelimiterKind::AngleBar => {
                proof {
                    reveal_strlit("|>");
                }
                "|>"
            },
        }
    }

    /// The number of bytes in the opening spelling.
    pub fn opening_width(self) -> (width: usize)
        ensures
            width == opening_text(self).len(),
    {
        match self {
            DelimiterKind::Empty | DelimiterKind::Semicolon => 0,
            DelimiterKind::AngleBar => 2,
            _ => 1,
        }
    }

    /// The number of bytes in the closing spelling.
    pub fn closing_width(self) -> (width: usize)
        ensures
            width == closing_text(self).len(),
    {
        match self {
            DelimiterKind::Empty => 0,
            DelimiterKind::AngleBar => 2,
            _ => 1,
        }
    }
}

/// Type-erased delimiter data stored by a raw group or cell.
#[derive(Debug, Clone, Copy, PartialEq, Eq, Structural)]
pub struct Delimiter {
    pub kind: DelimiterKind,
    /// The complete span of the delimited container.
    pub span: Span,
}

pub open spec fn sat_add_usize(a: usize, b: usize) -> usize {
    if a + b > usize::MAX {
        usize::MAX
    } else {
        (a + b) as usize
    }
}

pub open spec fn sat_sub_usize(a: usize, b: usize) -> usize {
    if a < b {
        0
    } else {
        (a - b) as usize
    }
}

pub open spec fn sat_add_u32(a: u32, b: u32) -> u32 {
    if a + b > u32::MAX {
        u32::MAX
    } else {
        (a + b) as u32
    }
}

pub open spec fn sat_sub_u32(a: u32, b: u32) -> u32 {
    if a < b {
        0
    } else {
        (a - b) as u32
    }
}

/// `point` moved forward by `width` bytes on its line.
pub open spec fn shifted(point: TextPoint, width: usize) -> TextPoint {
    TextPoint {
        line: point.line,
        column: if width > u32::MAX {
            u32::MAX
        } else {
            sat_add_u32(point.column, width as u32)
        },
        byte: sat_add_usize(point.byte, width),
    }
}

/// `point` moved backward by `width` bytes on its line.
pub open spec fn shifted_back(point: TextPoint, width: usize) -> TextPoint {
    TextPoint {
        line: point.line,
        column: if width > u32::MAX {
            0
        } else {
            sat_sub_u32(point.column, width as u32)
        },
        byte: sat_sub_usize(point.byte, width),
    }
}

/// The span of one boundary of width `width` at the start (`opening`) or end of `span`.
pub open spec fn boundary_span(span: Span, opening: bool, width: usize) -> Span {
    match span_range(span) {
        None => Span::Detached,
        Some(TextRange::Empty) => Span::Detached,
        Some(TextRange::Range { start, end }) => if sat_sub_usize(end.byte, start.byte) < width {
            span
        } else {
            let range = if opening {
                range_of(start, shifted(start, width))
            } else {
                range_of(shifted_back(end, width), end)
            };
            match span {
                Span::FileLocated { source, .. } => Span::FileLocated { source, range },
                Span::LocalRefFrame { .. } => Span::LocalRefFrame { range },
                Span::Detached => Span::Detached,
            }
        },
    }
}

fn shift(point: TextPoint, width: usize) -> (r: TextPoint)
    ensures
        r == shifted(point, width),
{
    let column = if width > u32::MAX as usize {
        u32::MAX
    } else {
        point.column.saturating_add(width as u32)
    };
    TextPoint::new(point.line, column, point.byte.saturating_add(width))
}

fn shift_back(point: TextPoint, width: usize) -> (r: TextPoint)
    ensures
        r == shifted_back(point, width),
{
    let column = if width > u32::MAX as usize {
        0
    } else {
        point.column.saturating_sub(width as u32)
    };
    TextPoint::new(point.line, column, point.byte.saturating_sub(width))
}

fn boundary(span: Span, opening: bool, width: usize) -> (r: Span)
    ensures
        r == boundary_span(span, opening, width),
{
    let range = match span.range() {
        Ok(range) => range,
        Err(_) => return Span::detached(),
    };
    let (start, end) = match (range.start(), range.end()) {
        (Some(start), Some(end)) => (start, end),
        _ => return Span::detached(),
    };
    if end.byte.saturating_sub(start.byte) < width {
        return span;
    }
    let range = if opening {
        TextRange::new(start, shift(start, width))
    } else {
        TextRange::new(shift_back(end, width), end)
    };
    match span {
        Span::FileLocated { source, .. } => Span::new(source, range),
        Span::LocalRefFrame { .. } => Span::in_tmp_file(range),
        Span::Detached => Span::detached(),
    }
}

/// The span immediately before `span`: a point at its start in the same source.
pub open spec fn point_before(span: Span) -> Span {
    match span {
        Span::FileLocated { source, range: TextRange::Range { start, .. } } => Span::FileLocated {
            source,
            range: TextRange::Range { start, end: start },
        },
        _ => Span::Detached,
    }
}

/// Returns the zero-width located span at the start of `span`, detached when unlocated.
pub fn boundary_before(span: Span) -> (r: Span)
    ensures
        r == point_before(span),
{
    match (span.source(), span.start_point()) {
        (Ok(source), Ok(point)) => Span::new(source, TextRange::from_point(point)),
        _ => Span::detached(),
    }
}

impl Delimiter {
    pub fn new(kind: DelimiterKind, span: Span) -> (delimiter: Self)
        ensures
            delimiter == (Delimiter { kind, span }),
    {
        Delimiter { kind, span }
    }

    /// Returns the opening delimiter span derived from the container span.
    pub fn opening_span(self) -> (span: Span)
        ensures
            span == boundary_span(self.span, true, opening_text(self.kind).len() as usize),
    {
        boundary(self.span, true, self.kind.opening_width())
    }

    /// Returns the closing delimiter span derived from the container span.
    pub fn closing_span(self) -> (span: Span)
        ensures
            span == boundary_span(self.span, false, closing_text(self.kind).len() as usize),
    {
        boundary(self.span, false, self.kind.closing_width())
    }
}

impl Spanned for Delimiter {
    open spec fn spec_span(&self) -> Span {
        self.span
    }

    fn span(&self) -> (span: Span) {
        self.span
    }
}

/// The raw closing semicolon of a muted cell delimiter.
pub open spec fn semicolon_model(span: Span) -> TokenModel {
    TokenModel::Punct { text: seq![';'], span }
}

/// The tokens `surround` emits: the contents inside a group for a paired
/// delimiter, the bare contents for an empty delimiter, and the contents
/// followed by the closing semicolon for a semicolon delimiter.
pub open spec fn surround_tokens(delimiter: Delimiter, contents: Seq<TokenModel>) -> Seq<TokenModel> {
    match delimiter.kind {
        DelimiterKind::Empty => contents,
        DelimiterKind::Semicolon => contents.push(
            semicolon_model(
                boundary_span(
                    delimiter.span,
                    false,
                    closing_text(delimiter.kind).len() as usize,
                ),
            ),
        ),
        _ => seq![TokenModel::Group { delimiter, stream: contents }],
    }
}

impl Delimiter {
    /// Emits `contents` with this delimiter's concrete token-tree shape.
    pub fn surround(&self, output: &mut TokenStream, contents: TokenStream)
        ensures
            final(output)@ == old(output)@ + surround_tokens(*self, contents@),
    {
        match self.kind {
            DelimiterKind::Empty => output.extend(contents),
            DelimiterKind::Semicolon => {
                let span = self.closing_span();
                output.extend(contents);
                let semicolon = Punct::new(";", span);
                proof {
                    reveal_strlit(";");
                    assert(semicolon.text@ =~= seq![';']);
                }
                let ghost before = output@;
                output.push_punct(semicolon);
                proof {
                    assert(output@ =~= old(output)@ + surround_tokens(*self, contents@));
                }
            },
            _ => {
                let ghost before = output@;
                output.push_group(Group::new(*self, contents));
                proof {
                    assert(output@ =~= old(output)@ + surround_tokens(*self, contents@));
                }
            },
        }
    }
}

/// The delimiter kind with index `k`, in declaration order.
pub open spec fn delimiter_kind_at(k: u8) -> DelimiterKind {
    if k == 0 {
        DelimiterKind::Empty
    } else if k == 1 {
        DelimiterKind::Semicolon
    } else if k == 2 {
        DelimiterKind::Parenthesis
    } else if k == 3 {
        DelimiterKind::Bracket
    } else if k == 4 {
        DelimiterKind::Brace
    } else {
        DelimiterKind::AngleBar
    }
}

/// A typed refinement of one raw delimiter kind: the container analogue of a
/// typed token. Typed syntax stores the precise delimiter family, while
/// [`Group`] and cells carry the erased raw representation.
pub trait DelimiterToken: Spanned + Sized {
    spec fn spec_kind() -> DelimiterKind;

    /// The delimiter family of this type.
    fn kind() -> (kind: DelimiterKind)
        ensures
            kind == Self::spec_kind(),
    ;

    /// A delimiter of this family spanning `span`.
    fn new(span: Span) -> (delimiter: Self)
        ensures
            delimiter.spec_span() == span,
    ;

    /// Emits `contents` inside this delimiter.
    fn surround(&self, output: &mut TokenStream, contents: TokenStream)
        ensures
            final(output)@ == old(output)@ + surround_tokens(
                Delimiter { kind: Self::spec_kind(), span: self.spec_span() },
                contents@,
            ),
    {
        let delimiter = Delimiter::new(Self::kind(), self.span());
        delimiter.surround(output, contents);
    }
}

/// A delimiter of the family with index `K` together with its span.
#[derive(Debug, Clone, Copy, PartialEq, Eq)]
pub struct Delim<const K: u8> {
    span: Span,
}

impl<const K: u8> Spanned for Delim<K> {
    closed spec fn spec_span(&self) -> Span {
        self.span
    }

    fn span(&self) -> (span: Span) {
        self.span
    }
}

impl<const K: u8> DelimiterToken for Delim<K> {
    open spec fn spec_kind() -> DelimiterKind {
        delimiter_kind_at(K)
    }

    fn kind() -> (kind: DelimiterKind) {
        if K == 0 {
            DelimiterKind::Empty
        } else if K == 1 {
            DelimiterKind::Semicolon
        } else if K == 2 {
            DelimiterKind::Parenthesis
        } else if K == 3 {
            DelimiterKind::Bracket
        } else if K == 4 {
            DelimiterKind::Brace
        } else {
            DelimiterKind::AngleBar
        }
    }

    fn new(span: Span) -> (delimiter: Self) {
        Delim { span }
    }
}

impl<const K: u8> ToTokens for Delim<K> {
    open spec fn spec_tokens(&self) -> Seq<TokenModel> {
        surround_tokens(Delimiter { kind: delimiter_kind_at(K), span: self.spec_span() }, seq![])
    }

    fn to_tokens(&self, output: &mut TokenStream) {
        let empty = TokenStream::new();
        proof {
            assert(empty@ =~= Seq::<TokenModel>::empty());
        }
        self.surround(output, empty);
    }
}

/// The implicit delimiter of an ordinary cell.
pub type _EmptyDelimiter = Delim<0>;

/// The semicolon delimiter of a muted cell.
pub type _SemicolonDelimiter = Delim<1>;

/// Parentheses.
pub type _ParenthesisDelimiter = Delim<2>;

/// Brackets.
pub type _BracketDelimiter = Delim<3>;

/// Braces.
pub type _BraceDelimiter = Delim<4>;

/// Macaulay2 angle bars `<| |>`.
pub type _AngleBarDelimiter = Delim<5>;

} // verus!
