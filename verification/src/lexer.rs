//! Native source-to-token conversion.
//!
//! This module owns byte classification, maximal munch, delimiter balancing,
//! and top-level cell splitting. Its output uses only the shared raw atoms of
//! `token_stream`. The lexer reads through a cursor with arbitrary finite
//! lookahead over the source bytes.
use vstd::prelude::*;
use vstd::utf8::{decode_utf8, encode_utf8, valid_utf8};

use crate::delim::{closing_text, is_paired, opening_text, Delimiter, DelimiterKind};
use crate::span::{point_lt, SourceId, Span, TextPoint, TextRange};
use crate::spelling::{
    is_keyword_spelling, is_operator_spelling, is_postfix_operator_spelling, is_quote_specifier,
    keyword_requires_value, keyword_spellings, operator_spellings, postfix_operator_spellings,
    punctuation_entries, punctuation_entry_table, quote_specifier_spellings,
    value_keyword_spellings, PunctuationKind,
};
use crate::lexemes::{cells_framed, literal_framed, model_framed, models_framed};
use crate::token_stream::{
    cells_text, model_text, models_text, str_eq, CellBlock, CellModel, CellStream, Group,
    IdentToken, Literal, LiteralKind, Punct, TokenModel, TokenStream, TokenTree, Trivia, TriviaKind,
};

verus! {

/// The deepest delimiter nesting the lexer accepts.
pub const MAX_GROUP_DEPTH: usize = 256;

#[derive(Debug, Clone, Copy, PartialEq, Eq, Hash, Structural)]
pub enum LexErrorKind {
    InvalidCharacter,
    InvalidEscape,
    InvalidNumber,
    InvalidUtf8,
    NestingLimitExceeded,
    UnexpectedClosingDelimiter,
    UnterminatedGroup,
    UnterminatedString,
    UnterminatedRawString,
    UnterminatedBlockComment,
}

/// A malformed-source error together with the source range that shows it.
#[derive(Debug, Clone, Copy, PartialEq, Eq, Hash, Structural)]
pub struct LexError {
    pub kind: LexErrorKind,
    pub span: Span,
}

/// The diagnostic text of each lexical error kind.
pub open spec fn lex_error_message(kind: LexErrorKind) -> Seq<char> {
    match kind {
        LexErrorKind::InvalidCharacter => "invalid character"@,
        LexErrorKind::InvalidEscape => "invalid string escape"@,
        LexErrorKind::InvalidNumber => "invalid number literal"@,
        LexErrorKind::InvalidUtf8 => "source is not valid UTF-8"@,
        LexErrorKind::NestingLimitExceeded => "delimiter nesting limit exceeded"@,
        LexErrorKind::UnexpectedClosingDelimiter => "unexpected closing delimiter"@,
        LexErrorKind::UnterminatedGroup => "unterminated delimited group"@,
        LexErrorKind::UnterminatedString => "unterminated string literal"@,
        LexErrorKind::UnterminatedRawString => "unterminated raw string literal"@,
        LexErrorKind::UnterminatedBlockComment => "unterminated block comment"@,
    }
}

/// Whether the source bytes at `at` spell `text`.
pub open spec fn spells_at(src: Seq<u8>, at: int, text: Seq<char>) -> bool {
    &&& 0 <= at
    &&& at + encode_utf8(text).len() <= src.len()
    &&& src.subrange(at, at + encode_utf8(text).len()) == encode_utf8(text)
}

/// Whether some token may begin with the byte at `at`.
pub open spec fn token_starts_at(src: Seq<u8>, at: int) -> bool {
    let b = src[at];
    ||| b == 10 || b == 13 || b == 32 || b == 9 || b == 34
    ||| spec_math_operator_width(src, at) is Some
    ||| spec_is_identifier_start(b)
    ||| spec_is_ascii_digit(b)
    ||| (b == 46 && at + 1 < src.len() && spec_is_ascii_digit(src[at + 1]))
    ||| exists|i: int| 0 <= i < punctuation_entries().len() && #[trigger] entry_matches(src, at, i)
}

/// Whether a byte may follow a backslash in a string literal.
pub open spec fn spec_escape_start(b: u8) -> bool {
    ||| b == 97 || b == 98 || b == 101 || b == 69 || b == 102 || b == 114 || b == 116
    ||| b == 118 || b == 110 || b == 34 || b == 92
    ||| (48 <= b && b <= 55)
    ||| b == 120 || b == 117
}

/// Whether every double quote strictly inside `from..to` follows a backslash.
#[verifier::opaque]
pub open spec fn quotes_escaped(src: Seq<u8>, from: int, to: int) -> bool {
    forall|i: int| from < i < to && #[trigger] src[i] == 34 ==> src[i - 1] == 92
}

/// Whether no `*-` starts at a byte of `from..to` and ends inside `to` and the source.
#[verifier::opaque]
pub open spec fn no_comment_close(src: Seq<u8>, from: int, to: int) -> bool {
    forall|i: int|
        from <= i && i + 1 < to && i + 1 < src.len() ==> !(#[trigger] src[i] == 42 && src[i + 1] == 45)
}

/// The text of unfinished levels, outermost first: the tokens read at each
/// level followed by the opening delimiter of the group opened there.
pub open spec fn levels_text(levels: Seq<Seq<TokenModel>>, open: Seq<DelimiterKind>) -> Seq<char>
    decreases levels.len(),
{
    if levels.len() == 0 || open.len() != levels.len() {
        seq![]
    } else {
        levels_text(levels.drop_last(), open.drop_last()) + models_text(levels.last())
            + opening_text(open.last())
    }
}

/// Whether the first `p` bytes of `src` read, token by token as the lexer
/// reads them, as finished cells, then groups left open with the kinds
/// `open` (outermost first), each after the tokens read before it at its
/// level, then the tokens read so far inside the innermost.
pub open spec fn reads_open(src: Seq<u8>, p: int, open: Seq<DelimiterKind>) -> bool {
    exists|cells: Seq<CellModel>, levels: Seq<Seq<TokenModel>>, inner: Seq<TokenModel>|
        #![trigger cells_text(cells), levels_text(levels, open), models_text(inner)]
        {
            &&& levels.len() == open.len()
            &&& encode_utf8(cells_text(cells) + levels_text(levels, open) + models_text(inner))
                == src.subrange(0, p)
            &&& cells_shaped(cells)
            &&& cells_munched(src, cells)
            &&& forall|j: int|
                0 <= j < levels.len() ==> models_shaped(#[trigger] levels[j]) && models_munched(
                    src,
                    levels[j],
                )
            &&& models_shaped(inner)
            &&& models_munched(src, inner)
        }
}

/// What the source holds at the bytes `from..to` that an error of `kind`
/// reports: the bytes that show the source to be malformed in that way.
pub open spec fn lex_error_evidence(src: Seq<u8>, kind: LexErrorKind, from: int, to: int) -> bool {
    match kind {
        LexErrorKind::InvalidCharacter => to == from + 1 && !token_starts_at(src, from),
        LexErrorKind::InvalidUtf8 => exists|end: int|
            from < end <= src.len() && !#[trigger] valid_utf8(src.subrange(from, end)),
        LexErrorKind::InvalidNumber => {
            &&& from < to
            &&& (spec_is_ascii_digit(src[from]) || src[from] == 46)
            &&& (src[to - 1] == 101 || src[to - 1] == 69 || src[to - 1] == 112 || ((src[to - 1] == 43
                || src[to - 1] == 45) && from + 2 <= to && (src[to - 2] == 101 || src[to - 2] == 69)))
            &&& forall|i: int| from <= i < to ==> is_number_byte(#[trigger] src[i])
            &&& (to == src.len() || !spec_is_ascii_digit(src[to]))
        },
        LexErrorKind::InvalidEscape => {
            &&& from + 2 <= to
            &&& src[from] == 92
            &&& ((to == from + 2 && !spec_escape_start(src[from + 1])) || ((src[from + 1] == 120
                || src[from + 1] == 117) && (to == src.len() || !spec_is_ascii_hexdigit(src[to]))))
        },
        LexErrorKind::NestingLimitExceeded => (exists|k: DelimiterKind|
            is_paired(k) && #[trigger] spells_at(src, from, opening_text(k))) && exists|
            open: Seq<DelimiterKind>,
        | open.len() == MAX_GROUP_DEPTH && #[trigger] reads_open(src, from, open),
        LexErrorKind::UnexpectedClosingDelimiter => exists|k: DelimiterKind, open: Seq<DelimiterKind>|
            is_paired(k) && #[trigger] spells_at(src, from, closing_text(k)) && #[trigger] reads_open(
                src,
                from,
                open,
            ) && (open.len() == 0 || open.last() != k),
        LexErrorKind::UnterminatedGroup => to == src.len() && exists|open: Seq<DelimiterKind>|
            open.len() > 0 && #[trigger] reads_open(src, src.len() as int, open) && spells_at(
                src,
                from,
                opening_text(open.last()),
            ),
        LexErrorKind::UnterminatedString => {
            &&& to == src.len()
            &&& from < to
            &&& src[from] == 34
            &&& quotes_escaped(src, from, to)
        },
        LexErrorKind::UnterminatedRawString => to == src.len() && spells_at(src, from, "///"@),
        LexErrorKind::UnterminatedBlockComment => {
            &&& to == src.len()
            &&& spells_at(src, from, "-*"@)
            &&& no_comment_close(src, from + encode_utf8("-*"@).len(), to)
        },
    }
}

/// Whether error `e` reports a byte range `from..to` of `src` whose bytes show
/// the error's kind.
pub open spec fn lex_error_shown(src: Seq<u8>, source_id: SourceId, e: LexError) -> bool {
    exists|from: int, to: int|
        0 <= from <= to <= src.len() && e.span == located_span(src, source_id, from, to)
            && #[trigger] lex_error_evidence(src, e.kind, from, to)
}

proof fn lemma_error_shown(src: Seq<u8>, source_id: SourceId, e: LexError, from: int, to: int)
    requires
        0 <= from <= to <= src.len(),
        e.span == located_span(src, source_id, from, to),
        lex_error_evidence(src, e.kind, from, to),
    ensures
        lex_error_shown(src, source_id, e),
{
}

impl LexError {
    pub fn kind(self) -> (kind: LexErrorKind)
        ensures
            kind == self.kind,
    {
        self.kind
    }

    pub fn span(self) -> (span: Span)
        ensures
            span == self.span,
    {
        self.span
    }

    /// The diagnostic text of this error.
    pub fn message(self) -> (text: &'static str)
        ensures
            text@ == lex_error_message(self.kind),
    {
        match self.kind {
            LexErrorKind::InvalidCharacter => "invalid character",
            LexErrorKind::InvalidEscape => "invalid string escape",
            LexErrorKind::InvalidNumber => "invalid number literal",
            LexErrorKind::InvalidUtf8 => "source is not valid UTF-8",
            LexErrorKind::NestingLimitExceeded => "delimiter nesting limit exceeded",
            LexErrorKind::UnexpectedClosingDelimiter => "unexpected closing delimiter",
            LexErrorKind::UnterminatedGroup => "unterminated delimited group",
            LexErrorKind::UnterminatedString => "unterminated string literal",
            LexErrorKind::UnterminatedRawString => "unterminated raw string literal",
            LexErrorKind::UnterminatedBlockComment => "unterminated block comment",
        }
    }
}

// ---------------------------------------------------------------------------
// UTF-8 text
// ---------------------------------------------------------------------------
/// Encoding distributes over concatenation.
pub proof fn lemma_encode_utf8_append(a: Seq<char>, b: Seq<char>)
    ensures
        encode_utf8(a + b) == encode_utf8(a) + encode_utf8(b),
    decreases a.len(),
{
    if a.len() == 0 {
        assert(a + b =~= b);
        assert(encode_utf8(a) + encode_utf8(b) =~= encode_utf8(b));
    } else {
        lemma_encode_utf8_append(a.drop_first(), b);
        assert((a + b).drop_first() =~= a.drop_first() + b);
        assert((a + b)[0] == a[0]);
    }
}

/// A character whose encoding starts with an ASCII byte is that byte.
proof fn lemma_first_ascii(t: Seq<char>)
    requires
        t.len() > 0,
        encode_utf8(t).len() > 0,
        encode_utf8(t)[0] < 0x80,
    ensures
        t[0] as u32 == encode_utf8(t)[0] as u32,
        encode_utf8(t.drop_first()) == encode_utf8(t).drop_first(),
{
    let c = t[0] as u32;
    let e = vstd::utf8::encode_scalar(c);
    assert(encode_utf8(t) == e + encode_utf8(t.drop_first()));
    if vstd::utf8::has_width_1_encoding(c) {
        assert(vstd::utf8::leading_byte_width_1(c) == c as u8) by (bit_vector)
            requires
                c <= 0x7f,
        ;
        assert(e =~= seq![c as u8]);
        assert(encode_utf8(t)[0] == e[0]);
        assert((c as u8) as u32 == c);
        assert(encode_utf8(t).drop_first() =~= encode_utf8(t.drop_first()));
    } else if vstd::utf8::has_width_2_encoding(c) {
        assert(encode_utf8(t)[0] == e[0]);
        assert(vstd::utf8::leading_byte_width_2(c) >= 0x80) by (bit_vector);
    } else if vstd::utf8::has_width_3_encoding(c) {
        assert(encode_utf8(t)[0] == e[0]);
        assert(vstd::utf8::leading_byte_width_3(c) >= 0x80) by (bit_vector);
    } else {
        assert(encode_utf8(t)[0] == e[0]);
        assert(vstd::utf8::leading_byte_width_4(c) >= 0x80) by (bit_vector);
    }
}

/// A character whose encoding ends with an ASCII byte is that byte.
proof fn lemma_last_ascii(t: Seq<char>)
    requires
        t.len() > 0,
        encode_utf8(t).len() > 0,
        encode_utf8(t).last() < 0x80,
    ensures
        t.last() as u32 == encode_utf8(t).last() as u32,
        encode_utf8(t.drop_last()) == encode_utf8(t).drop_last(),
{
    let c = t.last() as u32;
    let e = vstd::utf8::encode_scalar(c);
    lemma_encode_utf8_append(t.drop_last(), seq![t.last()]);
    assert(t.drop_last() + seq![t.last()] =~= t);
    assert(seq![t.last()].drop_first() =~= Seq::<char>::empty());
    assert(encode_utf8(seq![t.last()]) == e + encode_utf8(seq![t.last()].drop_first()));
    assert(encode_utf8(seq![t.last()]) =~= e);
    if vstd::utf8::has_width_1_encoding(c) {
        assert(vstd::utf8::leading_byte_width_1(c) == c as u8) by (bit_vector)
            requires
                c <= 0x7f,
        ;
        assert(e =~= seq![c as u8]);
        assert(encode_utf8(t).last() == e.last());
        assert((c as u8) as u32 == c);
        assert(encode_utf8(t).drop_last() =~= encode_utf8(t.drop_last()));
    } else {
        assert(encode_utf8(t).last() == e.last());
        assert(vstd::utf8::last_continuation_byte(c) >= 0x80) by (bit_vector);
    }
}

/// The first `n` characters of `t` are the first `n` bytes of its encoding
/// when those bytes are ASCII.
proof fn lemma_ascii_prefix(t: Seq<char>, n: int)
    requires
        0 <= n <= encode_utf8(t).len(),
        forall|i: int| 0 <= i < n ==> #[trigger] encode_utf8(t)[i] < 0x80,
    ensures
        n <= t.len(),
        forall|i: int| 0 <= i < n ==> #[trigger] t[i] as u32 == encode_utf8(t)[i] as u32,
        encode_utf8(t.subrange(n, t.len() as int)) == encode_utf8(t).subrange(n, encode_utf8(t).len() as int),
    decreases n,
{
    if n == 0 {
        assert(t.subrange(0, t.len() as int) =~= t);
        assert(encode_utf8(t).subrange(0, encode_utf8(t).len() as int) =~= encode_utf8(t));
    } else {
        if t.len() == 0 {
            assert(encode_utf8(t) =~= Seq::<u8>::empty());
        }
        lemma_first_ascii(t);
        let rest = t.drop_first();
        assert forall|i: int| 0 <= i < n - 1 implies #[trigger] encode_utf8(rest)[i] < 0x80 by {
            assert(encode_utf8(rest)[i] == encode_utf8(t)[i + 1]);
        }
        lemma_ascii_prefix(rest, n - 1);
        assert forall|i: int| 0 <= i < n implies #[trigger] t[i] as u32 == encode_utf8(t)[i] as u32 by {
            if i > 0 {
                assert(t[i] == rest[i - 1]);
                assert(encode_utf8(t)[i] == encode_utf8(rest)[i - 1]);
            }
        }
        assert(rest.subrange(n - 1, rest.len() as int) =~= t.subrange(n, t.len() as int));
        assert(encode_utf8(rest).subrange(n - 1, encode_utf8(rest).len() as int) =~= encode_utf8(
            t,
        ).subrange(n, encode_utf8(t).len() as int));
    }
}

/// The last `n` characters of `t` are the last `n` bytes of its encoding when
/// those bytes are ASCII.
proof fn lemma_ascii_suffix(t: Seq<char>, n: int)
    requires
        0 <= n <= encode_utf8(t).len(),
        forall|i: int|
            encode_utf8(t).len() - n <= i < encode_utf8(t).len() ==> #[trigger] encode_utf8(t)[i] < 0x80,
    ensures
        n <= t.len(),
        forall|i: int|
            0 <= i < n ==> #[trigger] t[t.len() - 1 - i] as u32 == encode_utf8(t)[encode_utf8(t).len()
                - 1 - i] as u32,
    decreases n,
{
    if n > 0 {
        if t.len() == 0 {
            assert(encode_utf8(t) =~= Seq::<u8>::empty());
        }
        lemma_last_ascii(t);
        let rest = t.drop_last();
        let e = encode_utf8(t);
        assert forall|i: int|
            encode_utf8(rest).len() - (n - 1) <= i < encode_utf8(rest).len() implies #[trigger] encode_utf8(
            rest,
        )[i] < 0x80 by {
            assert(encode_utf8(rest)[i] == e[i]);
        }
        lemma_ascii_suffix(rest, n - 1);
        assert forall|i: int| 0 <= i < n implies #[trigger] t[t.len() - 1 - i] as u32 == e[e.len() - 1
            - i] as u32 by {
            if i > 0 {
                assert(t[t.len() - 1 - i] == rest[rest.len() - 1 - (i - 1)]);
                assert(e[e.len() - 1 - i] == encode_utf8(rest)[encode_utf8(rest).len() - 1 - (i - 1)]);
            }
        }
    }
}

/// Text whose encoding starts and ends with the ASCII byte `b`, over at least
/// `2 * n` bytes of which the first and last `n` are `b`, starts and ends with
/// `n` copies of the character `c` that `b` encodes.
proof fn lemma_framed_text(t: Seq<char>, b: u8, c: char, n: int)
    requires
        b < 0x80,
        c as u32 == b as u32,
        1 <= n,
        encode_utf8(t).len() >= 2 * n,
        forall|i: int| 0 <= i < n ==> #[trigger] encode_utf8(t)[i] == b,
        forall|i: int|
            encode_utf8(t).len() - n <= i < encode_utf8(t).len() ==> #[trigger] encode_utf8(t)[i] == b,
    ensures
        t.len() >= 2 * n,
        forall|i: int| 0 <= i < n ==> #[trigger] t[i] == c,
        forall|i: int| t.len() - n <= i < t.len() ==> #[trigger] t[i] == c,
{
    let e = encode_utf8(t);
    lemma_ascii_prefix(t, n);
    let rest = t.subrange(n, t.len() as int);
    let er = e.subrange(n, e.len() as int);
    assert forall|i: int| er.len() - n <= i < er.len() implies #[trigger] er[i] < 0x80 by {
        assert(er[i] == e[i + n]);
    }
    lemma_ascii_suffix(rest, n);
    assert forall|i: int| 0 <= i < n implies #[trigger] t[i] == c by {
        vstd::utf8::char_u32_cast(t[i], b as u32);
        vstd::utf8::char_u32_cast(c, b as u32);
    }
    assert forall|i: int| t.len() - n <= i < t.len() implies #[trigger] t[i] == c by {
        let j = t.len() - 1 - i;
        assert(t[i] == rest[rest.len() - 1 - j]);
        assert(er[er.len() - 1 - j] == e[e.len() - 1 - j]);
        vstd::utf8::char_u32_cast(t[i], b as u32);
        vstd::utf8::char_u32_cast(c, b as u32);
    }
}

proof fn lemma_encode_ascii_pair(a: char, b: char, x: u8, y: u8)
    requires
        a as u32 == x as u32,
        b as u32 == y as u32,
        x < 0x80,
        y < 0x80,
    ensures
        encode_utf8(seq![a, b]) == seq![x, y],
{
    let s = seq![a, b];
    let xa = a as u32;
    let yb = b as u32;
    assert(s.drop_first() =~= seq![b]);
    assert(seq![b].drop_first() =~= Seq::<char>::empty());
    assert(vstd::utf8::leading_byte_width_1(xa) == x) by (bit_vector)
        requires
            xa == x as u32,
            x < 0x80,
    ;
    assert(vstd::utf8::leading_byte_width_1(yb) == y) by (bit_vector)
        requires
            yb == y as u32,
            y < 0x80,
    ;
    assert(vstd::utf8::has_width_1_encoding(xa));
    assert(vstd::utf8::has_width_1_encoding(yb));
    assert(encode_utf8(seq![b]) == vstd::utf8::encode_scalar(yb) + encode_utf8(
        seq![b].drop_first(),
    ));
    assert(encode_utf8(seq![b]) =~= seq![y]);
    assert(encode_utf8(s) == vstd::utf8::encode_scalar(xa) + encode_utf8(s.drop_first()));
    assert(encode_utf8(s) =~= seq![x, y]);
}

/// The encodings of the raw-string and comment openers.
proof fn lemma_opener_bytes()
    ensures
        encode_utf8("///"@) == seq![47u8, 47u8, 47u8],
        encode_utf8("--"@) == seq![45u8, 45u8],
        encode_utf8("-*"@) == seq![45u8, 42u8],
{
    reveal_strlit("///");
    reveal_strlit("--");
    reveal_strlit("-*");
    assert("///"@ =~= seq!['/', '/', '/']);
    assert("--"@ =~= seq!['-', '-']);
    assert("-*"@ =~= seq!['-', '*']);
    lemma_encode_ascii_pair('/', '/', 47u8, 47u8);
    lemma_encode_ascii_pair('-', '-', 45u8, 45u8);
    lemma_encode_ascii_pair('-', '*', 45u8, 42u8);
    let s = seq!['/', '/', '/'];
    assert(s.drop_first() =~= seq!['/', '/']);
    assert(vstd::utf8::leading_byte_width_1(47u32) == 47u8) by (bit_vector);
    assert(vstd::utf8::has_width_1_encoding('/' as u32));
    assert(encode_utf8(s) == vstd::utf8::encode_scalar('/' as u32) + encode_utf8(s.drop_first()));
    assert(encode_utf8(s) =~= seq![47u8, 47u8, 47u8]);
}

// ---------------------------------------------------------------------------
// The shape of lexed tokens
// ---------------------------------------------------------------------------
/// Whether a byte is a space, a tab, a carriage return or a line feed.
pub open spec fn is_space_byte(b: u8) -> bool {
    b == 9 || b == 10 || b == 13 || b == 32
}

/// Whether the bytes of a trivia token of `kind` have that kind's shape: a
/// line comment starts with `--` and holds no line feed, a block comment is
/// framed by `-*` and `*-`, and other trivia is blank.
pub open spec fn trivia_shaped(kind: TriviaKind, b: Seq<u8>) -> bool {
    match kind {
        TriviaKind::LineComment => {
            &&& b.len() >= 2
            &&& b[0] == 45 && b[1] == 45
            &&& forall|i: int| 0 <= i < b.len() ==> #[trigger] b[i] != 10
        },
        TriviaKind::BlockComment => {
            &&& b.len() >= 4
            &&& b[0] == 45 && b[1] == 42
            &&& b[b.len() - 2] == 42 && b[b.len() - 1] == 45
        },
        _ => forall|i: int| 0 <= i < b.len() ==> is_space_byte(#[trigger] b[i]),
    }
}

/// Whether a token, and every token nested in it, has the shape the lexer
/// gives: string literals framed by their quotes and trivia shaped by kind.
pub open spec fn model_shaped(m: TokenModel) -> bool
    decreases m, 0int,
{
    match m {
        TokenModel::Group { stream, .. } => models_shaped(stream),
        TokenModel::Literal { kind, text, .. } => literal_framed(kind, text) && literal_shaped(
            kind,
            encode_utf8(text),
        ),
        TokenModel::Trivia { kind, text, .. } => trivia_shaped(kind, encode_utf8(text)),
        TokenModel::Ident { text, .. } => identifier_shaped(encode_utf8(text)),
        _ => true,
    }
}

/// Whether identifier bytes start with an identifier-start byte and continue
/// with identifier bytes.
pub open spec fn identifier_shaped(b: Seq<u8>) -> bool {
    &&& b.len() > 0
    &&& spec_is_identifier_start(b[0])
    &&& forall|i: int| 0 <= i < b.len() ==> spec_is_identifier_continue(#[trigger] b[i])
}

/// Whether a byte may occur in a number literal: a letter, a digit, a decimal
/// point or an exponent sign.
pub open spec fn is_number_byte(b: u8) -> bool {
    spec_is_ascii_alphabetic(b) || spec_is_ascii_digit(b) || b == 46 || b == 43 || b == 45
}

/// Whether a byte marks the radix of a number after its leading `0`.
pub open spec fn is_radix_marker(b: u8) -> bool {
    b == 98 || b == 66 || b == 111 || b == 79 || b == 120 || b == 88
}

/// Whether number bytes start with a radix prefix such as `0x`.
pub open spec fn radix_prefixed(b: Seq<u8>) -> bool {
    b.len() >= 2 && b[0] == 48 && is_radix_marker(b[1])
}

/// Whether a number written without a radix prefix holds a fraction point, a
/// precision mark `p` or an exponent `e`/`E`: what makes it a float.
pub open spec fn marks_float(b: Seq<u8>) -> bool {
    !radix_prefixed(b) && exists|i: int|
        0 <= i < b.len() && (#[trigger] b[i] == 46 || b[i] == 112 || b[i] == 101 || b[i] == 69)
}

/// Whether the bytes of a number literal start with a digit or a decimal point,
/// hold only number bytes, and make a float exactly when they mark one.
pub open spec fn literal_shaped(kind: LiteralKind, b: Seq<u8>) -> bool {
    match kind {
        LiteralKind::Integer | LiteralKind::Float => {
            &&& b.len() > 0
            &&& (spec_is_ascii_digit(b[0]) || b[0] == 46)
            &&& forall|i: int| 0 <= i < b.len() ==> is_number_byte(#[trigger] b[i])
            &&& (kind is Float <==> marks_float(b))
        },
        _ => true,
    }
}

/// Whether every token of a sequence is shaped.
pub open spec fn models_shaped(s: Seq<TokenModel>) -> bool
    decreases s, 1int,
{
    if s.len() == 0 {
        true
    } else {
        models_shaped(s.subrange(0, s.len() - 1)) && model_shaped(s[s.len() - 1])
    }
}

/// Whether the bytes `from..to` are the longest punctuation spelling that
/// starts at `from`, and that spelling is ordinary punctuation (not a
/// delimiter, a comment or a raw-string opener).
pub open spec fn longest_punctuation_at(src: Seq<u8>, from: int, to: int) -> bool {
    &&& exists|i: int|
        0 <= i < punctuation_entries().len() && #[trigger] entry_matches(src, from, i)
            && encode_utf8(punctuation_entries()[i].0).len() == to - from
            && punctuation_entries()[i].1 == PunctuationKind::Ordinary
    &&& forall|i: int|
        0 <= i < punctuation_entries().len() && #[trigger] entry_matches(src, from, i)
            ==> encode_utf8(punctuation_entries()[i].0).len() <= to - from
}

/// Whether the bytes `from..to` are a mathematical-operator character,
/// followed by `=` when the source has one there.
pub open spec fn math_operator_at(src: Seq<u8>, from: int, to: int) -> bool {
    match spec_math_operator_width(src, from) {
        Some(w) => if from + w < src.len() && src[from + w] == 61 {
            to == from + w + 1
        } else {
            to == from + w
        },
        None => false,
    }
}

/// Whether a punctuation token is located at bytes of the source that spell
/// it, and there the longest ordinary punctuation or a whole mathematical
/// operator; a group holds only punctuation munched so, at every depth.
pub open spec fn punct_munched(src: Seq<u8>, m: TokenModel) -> bool
    decreases m, 0int,
{
    match m {
        TokenModel::Punct { text, span } => exists|id: SourceId, from: int, to: int|
            0 <= from <= to <= src.len() && span == #[trigger] located_span(src, id, from, to)
                && encode_utf8(text) == src.subrange(from, to) && (longest_punctuation_at(
                src,
                from,
                to,
            ) || math_operator_at(src, from, to)),
        TokenModel::Group { stream, .. } => stream_munched(src, stream),
        _ => true,
    }
}

/// Whether every token of a group's contents is munched.
pub open spec fn stream_munched(src: Seq<u8>, s: Seq<TokenModel>) -> bool
    decreases s, 1int,
{
    if s.len() == 0 {
        true
    } else {
        stream_munched(src, s.subrange(0, s.len() - 1)) && punct_munched(src, s[s.len() - 1])
    }
}

proof fn lemma_stream_munched(src: Seq<u8>, s: Seq<TokenModel>)
    requires
        models_munched(src, s),
    ensures
        stream_munched(src, s),
    decreases s.len(),
{
    reveal(models_munched);
    if s.len() > 0 {
        let t = s.subrange(0, s.len() - 1);
        assert(models_munched(src, t)) by {
            reveal(models_munched);
            assert forall|j: int| 0 <= j < t.len() implies punct_munched(src, #[trigger] t[j]) by {
                assert(t[j] == s[j]);
            }
        }
        lemma_stream_munched(src, t);
        assert(punct_munched(src, s[s.len() - 1]));
    }
}

/// Whether every token of a sequence is munched.
#[verifier::opaque]
pub open spec fn models_munched(src: Seq<u8>, s: Seq<TokenModel>) -> bool {
    forall|j: int| 0 <= j < s.len() ==> punct_munched(src, #[trigger] s[j])
}

/// Whether the punctuation of every cell, at every depth, is munched.
pub open spec fn cells_munched(src: Seq<u8>, cells: Seq<CellModel>) -> bool {
    forall|i: int| 0 <= i < cells.len() ==> models_munched(src, #[trigger] cells[i].stream)
}

proof fn lemma_munched_push(src: Seq<u8>, s: Seq<TokenModel>, m: TokenModel)
    ensures
        models_munched(src, s.push(m)) == (models_munched(src, s) && punct_munched(src, m)),
{
    reveal(models_munched);
    if models_munched(src, s.push(m)) {
        assert forall|j: int| 0 <= j < s.len() implies punct_munched(src, #[trigger] s[j]) by {
            assert(s.push(m)[j] == s[j]);
        }
        assert(s.push(m)[s.len() as int] == m);
    }
}

proof fn lemma_munched_empty(src: Seq<u8>)
    ensures
        models_munched(src, Seq::<TokenModel>::empty()),
{
    reveal(models_munched);
}

/// Whether every token of every cell is shaped.
pub open spec fn cells_shaped(cells: Seq<CellModel>) -> bool {
    forall|i: int| 0 <= i < cells.len() ==> models_shaped(#[trigger] cells[i].stream)
}

pub proof fn lemma_shaped_push(s: Seq<TokenModel>, m: TokenModel)
    ensures
        models_shaped(s.push(m)) == (models_shaped(s) && model_shaped(m)),
{
    assert(s.push(m).subrange(0, s.len() as int) =~= s);
}

/// Shaped tokens are framed.
pub proof fn lemma_shaped_framed(m: TokenModel)
    requires
        model_shaped(m),
    ensures
        model_framed(m),
    decreases m, 0int,
{
    if let TokenModel::Group { stream, .. } = m {
        lemma_models_shaped_framed(stream);
    }
}

pub proof fn lemma_models_shaped_framed(s: Seq<TokenModel>)
    requires
        models_shaped(s),
    ensures
        models_framed(s),
    decreases s, 1int,
{
    if s.len() > 0 {
        lemma_models_shaped_framed(s.subrange(0, s.len() - 1));
        lemma_shaped_framed(s[s.len() - 1]);
    }
}

/// Shaped cells are framed.
pub proof fn lemma_cells_shaped_framed(cells: Seq<CellModel>)
    requires
        cells_shaped(cells),
    ensures
        cells_framed(cells),
{
    assert forall|i: int| 0 <= i < cells.len() implies models_framed(#[trigger] cells[i].stream) by {
        lemma_models_shaped_framed(cells[i].stream);
    }
}

/// Converts bytes to a string exactly when they are valid UTF-8.
#[verifier::external_body]
fn string_from_utf8(bytes: Vec<u8>) -> (text: Option<String>)
    ensures
        text is Some <==> valid_utf8(bytes@),
        text matches Some(s) ==> s@ == decode_utf8(bytes@),
{
    String::from_utf8(bytes).ok()
}

// ---------------------------------------------------------------------------
// Positions
// ---------------------------------------------------------------------------
pub open spec fn point_origin() -> TextPoint {
    TextPoint { line: 0, column: 0, byte: 0 }
}

/// The point after `byte`, given the byte that follows it in the source.
///
/// A carriage return immediately followed by a line feed does not move the
/// column; a line feed starts the next line; every byte advances the offset.
pub open spec fn step_point(p: TextPoint, byte: u8, next: Option<u8>) -> TextPoint {
    let b = if p.byte == usize::MAX {
        p.byte
    } else {
        (p.byte + 1) as usize
    };
    if byte == 13 && next == Some(10u8) {
        TextPoint { line: p.line, column: p.column, byte: b }
    } else if byte == 10 {
        TextPoint {
            line: if p.line == u32::MAX {
                p.line
            } else {
                (p.line + 1) as u32
            },
            column: 0,
            byte: b,
        }
    } else {
        TextPoint {
            line: p.line,
            column: if p.column == u32::MAX {
                p.column
            } else {
                (p.column + 1) as u32
            },
            byte: b,
        }
    }
}

/// The source point after the first `n` bytes of `src`.
pub open spec fn point_at(src: Seq<u8>, n: int) -> TextPoint
    decreases n,
{
    if n <= 0 {
        point_origin()
    } else {
        step_point(
            point_at(src, n - 1),
            src[n - 1],
            if n < src.len() {
                Some(src[n])
            } else {
                None
            },
        )
    }
}

/// The located span of the source bytes `from..to`.
pub open spec fn located_span(src: Seq<u8>, source_id: SourceId, from: int, to: int) -> Span {
    Span::FileLocated {
        source: source_id,
        range: crate::span::range_of(point_at(src, from), point_at(src, to)),
    }
}

pub proof fn lemma_point_at_byte(src: Seq<u8>, n: int)
    requires
        0 <= n <= src.len(),
        src.len() <= usize::MAX,
    ensures
        point_at(src, n).byte == n,
    decreases n,
{
    if n > 0 {
        lemma_point_at_byte(src, n - 1);
    }
}

fn step(p: TextPoint, byte: u8, next: Option<u8>) -> (r: TextPoint)
    ensures
        r == step_point(p, byte, next),
{
    let b = p.byte.saturating_add(1);
    if byte == 13u8 && next == Some(10u8) {
        TextPoint::new(p.line, p.column, b)
    } else if byte == 10u8 {
        TextPoint::new(p.line.saturating_add(1), 0, b)
    } else {
        TextPoint::new(p.line, p.column.saturating_add(1), b)
    }
}

// ---------------------------------------------------------------------------
// The byte cursor
// ---------------------------------------------------------------------------
/// A cursor with arbitrary finite lookahead over source bytes.
pub struct ByteCursor<'a> {
    bytes: &'a [u8],
    position: usize,
}

impl<'a> ByteCursor<'a> {
    pub closed spec fn src(&self) -> Seq<u8> {
        self.bytes@
    }

    pub closed spec fn pos(&self) -> int {
        self.position as int
    }

    pub closed spec fn wf(&self) -> bool {
        self.position <= self.bytes@.len()
    }

    pub fn new(bytes: &'a [u8]) -> (cursor: Self)
        ensures
            cursor.wf(),
            cursor.src() == bytes@,
            cursor.pos() == 0,
    {
        ByteCursor { bytes, position: 0 }
    }

    /// The byte `distance` positions ahead of the cursor, without consuming it.
    pub fn peek(&self, distance: usize) -> (byte: Option<u8>)
        requires
            self.wf(),
        ensures
            byte == (if self.pos() + distance < self.src().len() {
                Some(self.src()[self.pos() + distance])
            } else {
                None
            }),
    {
        if distance < self.bytes.len() - self.position {
            Some(self.bytes[self.position + distance])
        } else {
            None
        }
    }

    /// Consumes and returns the next byte.
    pub fn next(&mut self) -> (byte: Option<u8>)
        requires
            old(self).wf(),
        ensures
            final(self).wf(),
            final(self).src() == old(self).src(),
            old(self).pos() < old(self).src().len() ==> byte == Some(old(self).src()[old(self).pos()])
                && final(self).pos() == old(self).pos() + 1,
            old(self).pos() >= old(self).src().len() ==> byte is None && final(self).pos()
                == old(self).pos(),
    {
        if self.position < self.bytes.len() {
            let byte = self.bytes[self.position];
            self.position = self.position + 1;
            Some(byte)
        } else {
            None
        }
    }

    /// The number of bytes not yet consumed.
    pub fn remaining(&self) -> (n: usize)
        requires
            self.wf(),
        ensures
            n == self.src().len() - self.pos(),
    {
        self.bytes.len() - self.position
    }
}

// ---------------------------------------------------------------------------
// Byte classes
// ---------------------------------------------------------------------------
pub open spec fn spec_is_ascii_digit(b: u8) -> bool {
    48 <= b <= 57
}

pub open spec fn spec_is_ascii_alphabetic(b: u8) -> bool {
    (65 <= b <= 90) || (97 <= b <= 122)
}

pub open spec fn spec_is_ascii_hexdigit(b: u8) -> bool {
    spec_is_ascii_digit(b) || (65 <= b <= 70) || (97 <= b <= 102)
}

/// Identifiers start with an ASCII letter or any byte of a multi-byte character.
pub open spec fn spec_is_identifier_start(b: u8) -> bool {
    spec_is_ascii_alphabetic(b) || b >= 128
}

/// Identifiers continue with letters, digits, `$`, `'`, or non-ASCII bytes.
pub open spec fn spec_is_identifier_continue(b: u8) -> bool {
    spec_is_ascii_alphabetic(b) || spec_is_ascii_digit(b) || b == 36 || b == 39 || b >= 128
}

fn is_ascii_digit(b: u8) -> (r: bool)
    ensures
        r == spec_is_ascii_digit(b),
{
    48u8 <= b && b <= 57u8
}

fn is_ascii_hexdigit(b: u8) -> (r: bool)
    ensures
        r == spec_is_ascii_hexdigit(b),
{
    is_ascii_digit(b) || (65u8 <= b && b <= 70u8) || (97u8 <= b && b <= 102u8)
}

pub fn is_identifier_start(byte: u8) -> (r: bool)
    ensures
        r == spec_is_identifier_start(byte),
{
    (65u8 <= byte && byte <= 90u8) || (97u8 <= byte && byte <= 122u8) || byte >= 128
}

pub fn is_identifier_continue(byte: u8) -> (r: bool)
    ensures
        r == spec_is_identifier_continue(byte),
{
    (65u8 <= byte && byte <= 90u8) || (97u8 <= byte && byte <= 122u8) || is_ascii_digit(byte)
        || byte == 36u8 || byte == 39u8 || byte >= 128
}

/// The two-byte prefixes of the UTF-8 mathematical-operator blocks that M2
/// lexes as operators rather than identifier characters.
pub open spec fn spec_is_math_operator_pair(first: u8, second: u8) -> bool {
    ||| (first == 0xc2 && 0xa0 <= second <= 0xbf)
    ||| (first == 0xc3 && (second == 0x97 || second == 0xb7))
    ||| (first == 0xe2 && (second == 0x86 || second == 0x87))
    ||| (first == 0xe2 && 0x88 <= second <= 0x8f)
    ||| (first == 0xe2 && second == 0x9f)
    ||| (first == 0xe2 && 0xa4 <= second <= 0xa7)
    ||| (first == 0xe2 && 0xa8 <= second <= 0xaf)
}

pub fn is_math_operator_pair(first: u8, second: u8) -> (r: bool)
    ensures
        r == spec_is_math_operator_pair(first, second),
{
    (first == 0xc2 && 0xa0 <= second && second <= 0xbf) || (first == 0xc3 && (second == 0x97
        || second == 0xb7)) || (first == 0xe2 && (second == 0x86 || second == 0x87)) || (first
        == 0xe2 && 0x88 <= second && second <= 0x8f) || (first == 0xe2 && second == 0x9f) || (
    first == 0xe2 && 0xa4 <= second && second <= 0xa7) || (first == 0xe2 && 0xa8 <= second
        && second <= 0xaf)
}

/// The width of the UTF-8 character a lead byte starts, if it is a valid lead byte.
pub open spec fn spec_utf8_char_width(first: u8) -> Option<usize> {
    if first <= 0x7f {
        Some(1)
    } else if 0xc2 <= first <= 0xdf {
        Some(2)
    } else if 0xe0 <= first <= 0xef {
        Some(3)
    } else if 0xf0 <= first <= 0xf4 {
        Some(4)
    } else {
        None
    }
}

pub fn utf8_char_width(first: u8) -> (r: Option<usize>)
    ensures
        r == spec_utf8_char_width(first),
{
    if first <= 0x7f {
        Some(1)
    } else if 0xc2 <= first && first <= 0xdf {
        Some(2)
    } else if 0xe0 <= first && first <= 0xef {
        Some(3)
    } else if 0xf0 <= first && first <= 0xf4 {
        Some(4)
    } else {
        None
    }
}

#[derive(Debug, Clone, Copy, PartialEq, Eq, Structural)]
pub enum NumberRadix {
    Binary,
    Octal,
    Hexadecimal,
}

pub open spec fn spec_radix_digit(radix: NumberRadix, b: u8) -> bool {
    match radix {
        NumberRadix::Binary => b == 48 || b == 49,
        NumberRadix::Octal => 48 <= b <= 55,
        NumberRadix::Hexadecimal => spec_is_ascii_hexdigit(b),
    }
}

impl NumberRadix {
    pub fn is_digit(self, byte: u8) -> (r: bool)
        ensures
            r == spec_radix_digit(self, byte),
    {
        match self {
            NumberRadix::Binary => byte == 48u8 || byte == 49u8,
            NumberRadix::Octal => 48u8 <= byte && byte <= 55u8,
            NumberRadix::Hexadecimal => is_ascii_hexdigit(byte),
        }
    }
}

// ---------------------------------------------------------------------------
// Keywords and cell boundaries
// ---------------------------------------------------------------------------
pub open spec fn core_prefix() -> Seq<char> {
    seq!['C', 'o', 'r', 'e', '$']
}

/// The parsing spelling of an identifier: `Core$k` names keyword `k`.
pub open spec fn spec_canonical_keyword(text: Seq<char>) -> Seq<char> {
    if text.len() >= 5 && text.subrange(0, 5) == core_prefix() && keyword_spellings().contains(
        text.subrange(5, text.len() as int),
    ) {
        text.subrange(5, text.len() as int)
    } else {
        text
    }
}

/// Collapses an explicitly `Core$`-qualified keyword back to its bare spelling.
pub fn canonical_keyword_spelling(spelling: &str) -> (r: &str)
    ensures
        r@ == spec_canonical_keyword(spelling@),
{
    let len = spelling.unicode_len();
    if len < 5 {
        return spelling;
    }
    if !(spelling.get_char(0) == 'C' && spelling.get_char(1) == 'o' && spelling.get_char(2) == 'r'
        && spelling.get_char(3) == 'e' && spelling.get_char(4) == '$') {
        proof {
            if spelling@.subrange(0, 5) == core_prefix() {
                assert(spelling@[0] == spelling@.subrange(0, 5)[0]);
                assert(spelling@[1] == spelling@.subrange(0, 5)[1]);
                assert(spelling@[2] == spelling@.subrange(0, 5)[2]);
                assert(spelling@[3] == spelling@.subrange(0, 5)[3]);
                assert(spelling@[4] == spelling@.subrange(0, 5)[4]);
            }
        }
        return spelling;
    }
    proof {
        assert(spelling@.subrange(0, 5) =~= core_prefix());
    }
    let keyword = spelling.substring_char(5, len);
    if is_keyword_spelling(keyword) {
        keyword
    } else {
        spelling
    }
}

/// A clause that an unfinished control form still requires.
#[derive(Debug, Clone, Copy, PartialEq, Eq, Structural)]
pub enum RequiredClause {
    Then,
    LoopBody,
    ExceptBody,
}

/// Removes the last occurrence of `clause`; reports whether one was present.
pub open spec fn remove_last_clause_spec(clauses: Seq<RequiredClause>, clause: RequiredClause) -> (
    Seq<RequiredClause>,
    bool,
)
    decreases clauses.len(),
{
    if clauses.len() == 0 {
        (clauses, false)
    } else if clauses.last() == clause {
        (clauses.drop_last(), true)
    } else {
        let (rest, found) = remove_last_clause_spec(clauses.drop_last(), clause);
        (rest.push(clauses.last()), found)
    }
}

/// What the newline rule tracks while scanning a cell.
pub struct CellScan {
    pub clauses: Seq<RequiredClause>,
    pub last: Option<Seq<char>>,
    pub quote_next: bool,
}

pub open spec fn scan_word(state: CellScan, text: Seq<char>) -> CellScan {
    if state.quote_next {
        CellScan { clauses: state.clauses, last: None, quote_next: false }
    } else {
        let t = spec_canonical_keyword(text);
        if quote_specifier_spellings().contains(t) {
            CellScan { clauses: state.clauses, last: Some(t), quote_next: true }
        } else {
            let clauses = if t == "if"@ {
                state.clauses.push(RequiredClause::Then)
            } else if t == "for"@ || t == "while"@ {
                state.clauses.push(RequiredClause::LoopBody)
            } else if t == "except"@ {
                state.clauses.push(RequiredClause::ExceptBody)
            } else if t == "then"@ {
                remove_last_clause_spec(state.clauses, RequiredClause::Then).0
            } else if t == "list"@ {
                remove_last_clause_spec(state.clauses, RequiredClause::LoopBody).0
            } else if t == "do"@ {
                let (rest, found) = remove_last_clause_spec(
                    state.clauses,
                    RequiredClause::ExceptBody,
                );
                if found {
                    rest
                } else {
                    remove_last_clause_spec(state.clauses, RequiredClause::LoopBody).0
                }
            } else {
                state.clauses
            };
            CellScan { clauses, last: Some(t), quote_next: false }
        }
    }
}

pub open spec fn scan_token(state: CellScan, m: TokenModel) -> CellScan {
    match m {
        TokenModel::Ident { text, .. } => scan_word(state, text),
        TokenModel::Punct { text, .. } => scan_word(state, text),
        TokenModel::Literal { .. } => CellScan { clauses: state.clauses, last: None, quote_next: false },
        TokenModel::Group { .. } => CellScan { clauses: state.clauses, last: None, quote_next: false },
        _ => state,
    }
}

pub open spec fn scan_tokens(s: Seq<TokenModel>) -> CellScan
    decreases s.len(),
{
    if s.len() == 0 {
        CellScan { clauses: seq![], last: None, quote_next: false }
    } else {
        scan_token(scan_tokens(s.drop_last()), s.last())
    }
}

/// Whether a physical line break after `s` ends the cell: no control clause is
/// still required and the last word neither requires a value nor is a
/// non-postfix operator.
pub open spec fn spec_newline_ends_cell(s: Seq<TokenModel>) -> bool {
    let state = scan_tokens(s);
    if state.clauses.len() > 0 {
        false
    } else {
        match state.last {
            None => true,
            Some(last) => !value_keyword_spellings().contains(last) && (
            !operator_spellings().contains(last) || postfix_operator_spellings().contains(last)),
        }
    }
}

proof fn lemma_remove_last_clause_absent(clauses: Seq<RequiredClause>, clause: RequiredClause)
    ensures
        !remove_last_clause_spec(clauses, clause).1 ==> remove_last_clause_spec(clauses, clause).0
            == clauses,
    decreases clauses.len(),
{
    if clauses.len() > 0 && clauses.last() != clause {
        lemma_remove_last_clause_absent(clauses.drop_last(), clause);
        assert(clauses.drop_last().push(clauses.last()) =~= clauses);
    }
}

fn remove_last_clause(clauses: &mut Vec<RequiredClause>, clause: RequiredClause) -> (found: bool)
    ensures
        (final(clauses)@, found) == remove_last_clause_spec(old(clauses)@, clause),
        !found ==> final(clauses)@ == old(clauses)@,
{
    proof {
        lemma_remove_last_clause_absent(clauses@, clause);
    }
    let mut i: usize = clauses.len();
    proof {
        assert(clauses@.subrange(0, clauses@.len() as int) =~= clauses@);
        let (rest, found) = remove_last_clause_spec(clauses@, clause);
        assert(rest + clauses@.subrange(clauses@.len() as int, clauses@.len() as int) =~= rest);
    }
    while i > 0
        invariant
            i <= clauses@.len(),
            clauses@ == old(clauses)@,
            remove_last_clause_spec(clauses@, clause) == ({
                let (rest, found) = remove_last_clause_spec(clauses@.subrange(0, i as int), clause);
                (rest + clauses@.subrange(i as int, clauses@.len() as int), found)
            }),
        decreases i,
    {
        let ghost all = clauses@;
        if clauses[i - 1] == clause {
            proof {
                let pre = all.subrange(0, i as int);
                assert(pre.drop_last() =~= all.subrange(0, i - 1));
                let removed = all.remove(i - 1);
                assert(removed =~= all.subrange(0, i - 1) + all.subrange(i as int, all.len() as int));
            }
            clauses.remove(i - 1);
            return true;
        }
        proof {
            let pre = all.subrange(0, i as int);
            assert(pre.drop_last() =~= all.subrange(0, i - 1));
            let (rest, found) = remove_last_clause_spec(all.subrange(0, i - 1), clause);
            assert(rest.push(pre.last()) + all.subrange(i as int, all.len() as int) =~= rest
                + all.subrange(i - 1, all.len() as int));
        }
        i = i - 1;
    }
    proof {
        assert(clauses@.subrange(0, 0) =~= Seq::<RequiredClause>::empty());
        assert(clauses@.subrange(0, clauses@.len() as int) =~= clauses@);
        assert(Seq::<RequiredClause>::empty() + clauses@ =~= clauses@);
    }
    false
}

/// Whether a physical line break after `stream` ends the current cell.
pub fn newline_ends_cell(stream: &TokenStream) -> (r: bool)
    ensures
        r == spec_newline_ends_cell(stream@),
{
    let mut clauses: Vec<RequiredClause> = Vec::new();
    let mut last: Option<&str> = None;
    let mut quote_next = false;
    let n = stream.len();
    let mut i: usize = 0;
    while i < n
        invariant
            n == stream@.len(),
            n == stream.0@.len(),
            i <= n,
            ({
                let state = scan_tokens(stream@.subrange(0, i as int));
                &&& state.clauses == clauses@
                &&& state.quote_next == quote_next
                &&& state.last == (match last {
                    Some(t) => Some(t@),
                    None => None,
                })
            }),
        decreases n - i,
    {
        proof {
            crate::token_stream::lemma_seq_model_index(stream.0@, i as int);
            let pre = stream@.subrange(0, i + 1);
            assert(pre.drop_last() =~= stream@.subrange(0, i as int));
        }
        let tree = &stream.0[i];
        let text: Option<&str> = match tree {
            TokenTree::Ident(token) => Some(token.text()),
            TokenTree::Punct(token) => Some(token.text()),
            TokenTree::Literal(_) | TokenTree::Group(_) => {
                quote_next = false;
                last = None;
                None
            },
            _ => None,
        };
        match text {
            None => {},
            Some(text) => {
                if quote_next {
                    quote_next = false;
                    last = None;
                } else {
                    let text = canonical_keyword_spelling(text);
                    last = Some(text);
                    if is_quote_specifier(text) {
                        quote_next = true;
                    } else {
                        proof {
                            reveal_strlit("if");
                        }
                        if str_eq(text, "if") {
                            clauses.push(RequiredClause::Then);
                        } else if str_eq(text, "for") || str_eq(text, "while") {
                            clauses.push(RequiredClause::LoopBody);
                        } else if str_eq(text, "except") {
                            clauses.push(RequiredClause::ExceptBody);
                        } else if str_eq(text, "then") {
                            remove_last_clause(&mut clauses, RequiredClause::Then);
                        } else if str_eq(text, "list") {
                            remove_last_clause(&mut clauses, RequiredClause::LoopBody);
                        } else if str_eq(text, "do") {
                            if !remove_last_clause(&mut clauses, RequiredClause::ExceptBody) {
                                remove_last_clause(&mut clauses, RequiredClause::LoopBody);
                            }
                        }
                    }
                }
            },
        }
        proof {
            let state = scan_tokens(stream@.subrange(0, i + 1));
            assert(state.clauses == clauses@);
            assert(state.quote_next == quote_next);
        }
        i = i + 1;
    }
    proof {
        assert(stream@.subrange(0, n as int) =~= stream@);
    }
    if clauses.len() > 0 {
        return false;
    }
    match last {
        None => true,
        Some(last) => {
            if keyword_requires_value(last) {
                return false;
            }
            !is_operator_spelling(last) || is_postfix_operator_spelling(last)
        },
    }
}

// ---------------------------------------------------------------------------
// The lexer state
// ---------------------------------------------------------------------------
/// Replaces `stream` with an empty stream and returns its previous contents.
pub fn take_stream(stream: &mut TokenStream) -> (taken: TokenStream)
    ensures
        taken == *old(stream),
        final(stream).0@.len() == 0,
        final(stream)@ == Seq::<TokenModel>::empty(),
{
    let mut empty = TokenStream::new();
    std::mem::swap(&mut empty, stream);
    empty
}

/// Whether `m` renders exactly the source bytes `from..to`.
pub open spec fn renders(src: Seq<u8>, from: int, to: int, m: TokenModel) -> bool {
    encode_utf8(model_text(m)) == src.subrange(from, to)
}

struct NativeLexer<'a> {
    input: ByteCursor<'a>,
    source_id: SourceId,
    point: TextPoint,
}

/// A group whose opening delimiter has been read but not yet closed.
struct OpenGroup {
    kind: DelimiterKind,
    opening_start: TextPoint,
    opening: Span,
    parent: TokenStream,
}

/// The tokens before every unfinished group are shaped.
#[verifier::opaque]
spec fn groups_shaped(gs: Seq<OpenGroup>) -> bool {
    forall|j: int| 0 <= j < gs.len() ==> models_shaped(#[trigger] gs[j].parent@)
}

/// The punctuation before every unfinished group, at every depth, is munched.
#[verifier::opaque]
spec fn groups_munched(src: Seq<u8>, gs: Seq<OpenGroup>) -> bool {
    forall|j: int| 0 <= j < gs.len() ==> models_munched(src, #[trigger] gs[j].parent@)
}

/// The punctuation of every finished cell, at every depth, is munched.
#[verifier::opaque]
pub open spec fn blocks_munched(src: Seq<u8>, cells: Seq<CellBlock>) -> bool {
    forall|i: int| 0 <= i < cells.len() ==> models_munched(src, #[trigger] cells[i].stream@)
}

/// The tokens of every finished cell are shaped.
#[verifier::opaque]
pub open spec fn blocks_shaped(cells: Seq<CellBlock>) -> bool {
    forall|i: int| 0 <= i < cells.len() ==> models_shaped(#[trigger] cells[i].stream@)
}

/// Every unfinished group starts where the source spells its opening delimiter.
spec fn groups_open_at(src: Seq<u8>, gs: Seq<OpenGroup>) -> bool {
    forall|j: int|
        0 <= j < gs.len() ==> {
            let p = (#[trigger] gs[j]).opening_start;
            &&& p == point_at(src, p.byte as int)
            &&& is_paired(gs[j].kind)
            &&& spells_at(src, p.byte as int, opening_text(gs[j].kind))
        }
}

/// The text of every enclosing unfinished level, outermost first: each
/// parent's tokens followed by the opening delimiter of the group inside it.
spec fn groups_text(gs: Seq<OpenGroup>) -> Seq<char>
    decreases gs.len(),
{
    if gs.len() == 0 {
        seq![]
    } else {
        groups_text(gs.drop_last()) + models_text(gs.last().parent@) + opening_text(gs.last().kind)
    }
}

proof fn lemma_groups_push(src: Seq<u8>, gs: Seq<OpenGroup>, g: OpenGroup)
    requires
        groups_shaped(gs),
        groups_munched(src, gs),
        models_shaped(g.parent@),
        models_munched(src, g.parent@),
    ensures
        groups_shaped(gs.push(g)),
        groups_munched(src, gs.push(g)),
{
    reveal(groups_shaped);
    reveal(groups_munched);
    let t = gs.push(g);
    assert forall|j: int| 0 <= j < t.len() implies models_shaped(#[trigger] t[j].parent@)
        && models_munched(src, t[j].parent@) by {
        if j < gs.len() {
            assert(t[j] == gs[j]);
        }
    }
}

spec fn group_levels(gs: Seq<OpenGroup>) -> Seq<Seq<TokenModel>> {
    gs.map_values(|g: OpenGroup| g.parent@)
}

spec fn group_kinds(gs: Seq<OpenGroup>) -> Seq<DelimiterKind> {
    gs.map_values(|g: OpenGroup| g.kind)
}

proof fn lemma_levels_text(gs: Seq<OpenGroup>)
    ensures
        groups_text(gs) == levels_text(group_levels(gs), group_kinds(gs)),
    decreases gs.len(),
{
    if gs.len() > 0 {
        lemma_levels_text(gs.drop_last());
        assert(group_levels(gs).drop_last() =~= group_levels(gs.drop_last()));
        assert(group_kinds(gs).drop_last() =~= group_kinds(gs.drop_last()));
    }
}

/// The lexer's state at `p` shows how the source reads up to there.
proof fn lemma_reads_open(
    src: Seq<u8>,
    p: int,
    cells: Seq<CellBlock>,
    gs: Seq<OpenGroup>,
    out: Seq<TokenModel>,
)
    requires
        blocks_shaped(cells),
        blocks_munched(src, cells),
        groups_shaped(gs),
        groups_munched(src, gs),
        models_shaped(out),
        models_munched(src, out),
        encode_utf8(rendered_prefix(cells) + groups_text(gs) + models_text(out)) == src.subrange(
            0,
            p,
        ),
    ensures
        reads_open(src, p, group_kinds(gs)),
{
    reveal(blocks_shaped);
    reveal(blocks_munched);
    reveal(groups_shaped);
    reveal(groups_munched);
    lemma_levels_text(gs);
    let cm = crate::token_stream::cells_model(cells);
    let levels = group_levels(gs);
    assert(cells_shaped(cm)) by {
        assert forall|i: int| 0 <= i < cm.len() implies models_shaped(#[trigger] cm[i].stream) by {
            assert(cm[i].stream == cells[i].stream@);
        }
    }
    assert(cells_munched(src, cm)) by {
        assert forall|i: int| 0 <= i < cm.len() implies models_munched(src, #[trigger] cm[i].stream) by {
            assert(cm[i].stream == cells[i].stream@);
        }
    }
    assert forall|j: int| 0 <= j < levels.len() implies models_shaped(#[trigger] levels[j])
        && models_munched(src, levels[j]) by {
        assert(levels[j] == gs[j].parent@);
    }
    assert(levels.len() == group_kinds(gs).len());
    assert(encode_utf8(cells_text(cm) + levels_text(levels, group_kinds(gs)) + models_text(out))
        == src.subrange(0, p));
}

impl<'a> NativeLexer<'a> {
    spec fn src(&self) -> Seq<u8> {
        self.input.src()
    }

    spec fn pos(&self) -> int {
        self.input.pos()
    }

    spec fn wf(&self) -> bool {
        &&& self.input.wf()
        &&& self.point == point_at(self.src(), self.pos())
        &&& self.point.byte == self.pos()
    }

    /// Same source, same identity, and a well-formed state.
    spec fn continues(&self, old: &Self) -> bool {
        &&& self.wf()
        &&& self.src() == old.src()
        &&& self.source_id == old.source_id
        &&& self.pos() >= old.pos()
    }

    fn new(bytes: &'a [u8], source_id: SourceId) -> (lexer: Self)
        ensures
            lexer.wf(),
            lexer.src() == bytes@,
            lexer.pos() == 0,
            lexer.source_id == source_id,
    {
        NativeLexer { input: ByteCursor::new(bytes), source_id, point: TextPoint::new(0, 0, 0) }
    }

    fn peek(&self, distance: usize) -> (byte: Option<u8>)
        requires
            self.wf(),
        ensures
            byte == (if self.pos() + distance < self.src().len() {
                Some(self.src()[self.pos() + distance])
            } else {
                None
            }),
    {
        self.input.peek(distance)
    }

    fn byte_after_current(&self) -> (byte: Option<u8>)
        requires
            self.wf(),
        ensures
            byte == (if self.pos() + 1 < self.src().len() {
                Some(self.src()[self.pos() + 1])
            } else {
                None
            }),
    {
        self.input.peek(1)
    }

    /// Consumes one byte and moves the source point past it.
    fn next(&mut self) -> (byte: Option<u8>)
        requires
            old(self).wf(),
        ensures
            final(self).continues(old(self)),
            old(self).pos() < old(self).src().len() ==> byte == Some(old(self).src()[old(self).pos()])
                && final(self).pos() == old(self).pos() + 1,
            old(self).pos() >= old(self).src().len() ==> byte is None && final(self).pos()
                == old(self).pos(),
    {
        let byte = match self.input.next() {
            Some(byte) => byte,
            None => return None,
        };
        let next = if byte == 13u8 {
            self.input.peek(0)
        } else {
            None
        };
        proof {
            let src = self.src();
            let n = self.pos();
            assert(self.input.bytes@.len() == self.input.bytes.len());
            assert(point_at(src, n) == step_point(
                point_at(src, n - 1),
                src[n - 1],
                if n < src.len() {
                    Some(src[n])
                } else {
                    None
                },
            ));
        }
        self.point = step(self.point, byte, next);
        Some(byte)
    }

    fn next_or_error(&mut self, kind: LexErrorKind, start: TextPoint) -> (r: Result<u8, LexError>)
        requires
            old(self).wf(),
            old(self).pos() < old(self).src().len(),
        ensures
            final(self).continues(old(self)),
            r is Ok <==> old(self).pos() < old(self).src().len(),
            r matches Ok(b) ==> b == old(self).src()[old(self).pos()] && final(self).pos() == old(
                self,
            ).pos() + 1,
    {
        match self.next() {
            Some(byte) => Ok(byte),
            None => Err(self.error(kind, start)),
        }
    }

    fn span(&self, start: TextPoint, end: TextPoint) -> (span: Span)
        ensures
            span == (Span::FileLocated {
                source: self.source_id,
                range: crate::span::range_of(start, end),
            }),
    {
        Span::new(self.source_id, TextRange::new(start, end))
    }

    fn span_from(&self, start: TextPoint) -> (span: Span)
        ensures
            span == (Span::FileLocated {
                source: self.source_id,
                range: crate::span::range_of(start, self.point),
            }),
    {
        self.span(start, self.point)
    }

    /// An error of `kind` over the bytes from `start` to the cursor, which show it.
    fn error(&self, kind: LexErrorKind, start: TextPoint) -> (error: LexError)
        requires
            self.wf(),
            start == point_at(self.src(), start.byte as int),
            start.byte <= self.pos(),
            lex_error_evidence(self.src(), kind, start.byte as int, self.pos()),
        ensures
            error.kind == kind,
            error.span == self.span_from_spec(start),
            lex_error_shown(self.src(), self.source_id, error),
    {
        let error = LexError { kind, span: self.span_from(start) };
        proof {
            lemma_error_shown(self.src(), self.source_id, error, start.byte as int, self.pos());
        }
        error
    }

    spec fn span_from_spec(&self, start: TextPoint) -> Span {
        Span::FileLocated { source: self.source_id, range: crate::span::range_of(start, self.point) }
    }

    /// Decodes the bytes of one token.
    fn text(&self, bytes: Vec<u8>, start: TextPoint) -> (r: Result<String, LexError>)
        requires
            self.wf(),
            start == point_at(self.src(), start.byte as int),
            start.byte <= self.pos(),
            bytes@.len() > 0,
            start.byte + bytes@.len() <= self.src().len(),
            bytes@ == self.src().subrange(start.byte as int, start.byte + bytes@.len()),
        ensures
            r matches Ok(s) ==> encode_utf8(s@) == bytes@,
            r matches Err(e) ==> e.kind == LexErrorKind::InvalidUtf8 && lex_error_shown(
                self.src(),
                self.source_id,
                e,
            ),
    {
        let ghost b = bytes@;
        match string_from_utf8(bytes) {
            Some(text) => {
                proof {
                    vstd::utf8::decode_utf8_encode_utf8(b);
                }
                Ok(text)
            },
            None => {
                proof {
                    let from = start.byte as int;
                    assert(!valid_utf8(self.src().subrange(from, from + b.len())));
                }
                Err(self.error(LexErrorKind::InvalidUtf8, start))
            },
        }
    }

    /// Consumes bytes while they belong to `class`.
    fn take_class(&mut self, class: ByteClass) -> (bytes: Vec<u8>)
        requires
            old(self).wf(),
        ensures
            final(self).continues(old(self)),
            bytes@ == old(self).src().subrange(old(self).pos(), final(self).pos()),
            forall|i: int| 0 <= i < bytes@.len() ==> byte_in_class(class, #[trigger] bytes@[i]),
            final(self).pos() < final(self).src().len() ==> !byte_in_class(
                class,
                final(self).src()[final(self).pos()],
            ),
    {
        let mut bytes: Vec<u8> = Vec::new();
        loop
            invariant
                self.continues(old(self)),
                bytes@ == old(self).src().subrange(old(self).pos(), self.pos()),
                forall|i: int| 0 <= i < bytes@.len() ==> byte_in_class(class, #[trigger] bytes@[i]),
            ensures
                self.continues(old(self)),
                bytes@ == old(self).src().subrange(old(self).pos(), self.pos()),
                forall|i: int| 0 <= i < bytes@.len() ==> byte_in_class(class, #[trigger] bytes@[i]),
                self.pos() < self.src().len() ==> !byte_in_class(class, self.src()[self.pos()]),
            decreases self.src().len() - self.pos(),
        {
            match self.peek(0) {
                Some(byte) => {
                    if !class.contains(byte) {
                        break;
                    }
                },
                None => break,
            }
            let ghost before = self.pos();
            match self.next() {
                Some(byte) => {
                    bytes.push(byte);
                    proof {
                        assert(old(self).src().subrange(old(self).pos(), self.pos()) =~= old(
                            self,
                        ).src().subrange(old(self).pos(), before).push(byte));
                    }
                },
                None => break,
            }
        }
        bytes
    }

    /// Consumes exactly `len` bytes, failing when the source ends first.
    fn take_exact(&mut self, len: usize, start: TextPoint) -> (r: Result<Vec<u8>, LexError>)
        requires
            old(self).wf(),
            old(self).pos() + len <= old(self).src().len(),
        ensures
            final(self).continues(old(self)),
            r is Ok <==> old(self).pos() + len <= old(self).src().len(),
            r matches Ok(bytes) ==> final(self).pos() == old(self).pos() + len && bytes@ == old(
                self,
            ).src().subrange(old(self).pos(), final(self).pos()),
    {
        if self.input.remaining() < len {
            return Err(self.error(LexErrorKind::InvalidUtf8, start));
        }
        let mut bytes: Vec<u8> = Vec::new();
        let mut i: usize = 0;
        while i < len
            invariant
                self.continues(old(self)),
                i <= len,
                old(self).pos() + len <= old(self).src().len(),
                self.pos() == old(self).pos() + i,
                bytes@ == old(self).src().subrange(old(self).pos(), self.pos()),
            decreases len - i,
        {
            let byte = self.next();
            match byte {
                Some(byte) => {
                    let ghost prev = bytes@;
                    bytes.push(byte);
                    proof {
                        assert(bytes@ =~= old(self).src().subrange(old(self).pos(), self.pos()));
                    }
                },
                None => {},
            }
            i = i + 1;
        }
        Ok(bytes)
    }

    /// Copies the `len` bytes ahead of the cursor without consuming them.
    fn peek_bytes(&self, len: usize) -> (bytes: Vec<u8>)
        requires
            self.wf(),
            self.pos() + len <= self.src().len(),
        ensures
            bytes@ == self.src().subrange(self.pos(), self.pos() + len),
    {
        let mut bytes: Vec<u8> = Vec::new();
        let mut i: usize = 0;
        while i < len
            invariant
                self.wf(),
                self.pos() + len <= self.src().len(),
                i <= len,
                bytes@ == self.src().subrange(self.pos(), self.pos() + i),
            decreases len - i,
        {
            match self.peek(i) {
                Some(byte) => bytes.push(byte),
                None => {},
            }
            proof {
                assert(bytes@ =~= self.src().subrange(self.pos(), self.pos() + i + 1));
            }
            i = i + 1;
        }
        bytes
    }

    /// Moves past `len` bytes that have already been examined.
    fn commit(&mut self, len: usize)
        requires
            old(self).wf(),
            old(self).pos() + len <= old(self).src().len(),
        ensures
            final(self).continues(old(self)),
            final(self).pos() == old(self).pos() + len,
    {
        let mut i: usize = 0;
        while i < len
            invariant
                self.continues(old(self)),
                i <= len,
                old(self).pos() + len <= old(self).src().len(),
                self.pos() == old(self).pos() + i,
            decreases len - i,
        {
            self.next();
            i = i + 1;
        }
    }

    /// The longest punctuation spelling at the cursor, if any.
    fn take_punctuation_match(&self) -> (r: Option<(usize, PunctuationKind)>)
        requires
            self.wf(),
        ensures
            match r {
                Some((len, kind)) => exists|i: int|
                    0 <= i < punctuation_entries().len() && #[trigger] entry_matches(
                        self.src(),
                        self.pos(),
                        i,
                    ) && len == encode_utf8(punctuation_entries()[i].0).len() && kind
                        == punctuation_entries()[i].1,
                None => forall|i: int|
                    0 <= i < punctuation_entries().len() ==> !#[trigger] entry_matches(
                        self.src(),
                        self.pos(),
                        i,
                    ),
            },
            r matches Some((len, kind)) ==> forall|i: int|
                0 <= i < punctuation_entries().len() && #[trigger] entry_matches(
                    self.src(),
                    self.pos(),
                    i,
                ) ==> encode_utf8(punctuation_entries()[i].0).len() <= len,
            r matches Some((len, kind)) ==> len >= 1 && self.pos() + len <= self.src().len(),
    {
        let table = punctuation_entry_table();
        let mut best: Option<(usize, PunctuationKind)> = None;
        let mut i: usize = 0;
        while i < table.len()
            invariant
                self.wf(),
                i <= table@.len(),
                table@.len() == punctuation_entries().len(),
                forall|k: int|
                    0 <= k < table@.len() ==> table@[k].0@ == punctuation_entries()[k].0
                        && table@[k].1 == punctuation_entries()[k].1,
                match best {
                    Some((len, kind)) => exists|k: int|
                        0 <= k < i && #[trigger] entry_matches(self.src(), self.pos(), k) && len
                            == encode_utf8(punctuation_entries()[k].0).len() && kind
                            == punctuation_entries()[k].1,
                    None => forall|k: int|
                        0 <= k < i ==> !#[trigger] entry_matches(self.src(), self.pos(), k),
                },
                best matches Some((len, kind)) ==> forall|k: int|
                    0 <= k < i && #[trigger] entry_matches(self.src(), self.pos(), k)
                        ==> encode_utf8(punctuation_entries()[k].0).len() <= len,
                best matches Some((len, kind)) ==> len >= 1 && self.pos() + len <= self.src().len(),
            decreases table@.len() - i,
        {
            let (spelling, kind) = table[i];
            let bytes = spelling.as_bytes();
            let ghost entry = encode_utf8(punctuation_entries()[i as int].0);
            assert(bytes@ == entry);
            let matched = bytes.len() > 0 && self.starts_with(bytes);
            proof {
                assert(matched == entry_matches(self.src(), self.pos(), i as int));
            }
            if matched {
                let longer = match best {
                    Some((len, _)) => bytes.len() > len,
                    None => true,
                };
                if longer {
                    best = Some((bytes.len(), kind));
                    proof {
                        assert(entry_matches(self.src(), self.pos(), i as int));
                    }
                }
            }
            i = i + 1;
        }
        best
    }

    /// Whether the unread source begins with `bytes`.
    fn starts_with(&self, bytes: &[u8]) -> (r: bool)
        requires
            self.wf(),
        ensures
            r == (self.pos() + bytes@.len() <= self.src().len() && self.src().subrange(
                self.pos(),
                self.pos() + bytes@.len(),
            ) == bytes@),
    {
        if self.input.remaining() < bytes.len() {
            return false;
        }
        let mut k: usize = 0;
        while k < bytes.len()
            invariant
                self.wf(),
                k <= bytes@.len(),
                self.pos() + bytes@.len() <= self.src().len(),
                forall|j: int| 0 <= j < k ==> self.src()[self.pos() + j] == bytes@[j],
            decreases bytes@.len() - k,
        {
            if self.peek(k) != Some(bytes[k]) {
                proof {
                    assert(self.src().subrange(self.pos(), self.pos() + bytes@.len())[k as int]
                        != bytes@[k as int]);
                }
                return false;
            }
            k = k + 1;
        }
        proof {
            assert(self.src().subrange(self.pos(), self.pos() + bytes@.len()) =~= bytes@);
        }
        true
    }

    /// The width of a mathematical-operator character at the cursor, if one starts there.
    fn math_operator_width(&self) -> (r: Option<usize>)
        requires
            self.wf(),
        ensures
            r == spec_math_operator_width(self.src(), self.pos()),
    {
        let first = match self.peek(0) {
            Some(first) => first,
            None => return None,
        };
        if !(first == 0xc2u8 || first == 0xc3u8 || first == 0xe2u8) {
            return None;
        }
        match self.peek(1) {
            Some(second) => if is_math_operator_pair(first, second) {
                utf8_char_width(first)
            } else {
                None
            },
            None => None,
        }
    }

    /// Emits one punctuation token spelled by the next `len` bytes.
    fn push_punctuation(&mut self, len: usize, output: &mut TokenStream) -> (r: Result<(), LexError>)
        requires
            old(self).wf(),
            len >= 1,
            old(self).pos() + len <= old(self).src().len(),
            longest_punctuation_at(old(self).src(), old(self).pos(), old(self).pos() + len)
                || math_operator_at(old(self).src(), old(self).pos(), old(self).pos() + len),
        ensures
            final(self).continues(old(self)),
            r matches Err(e) ==> lex_error_shown(old(self).src(), old(self).source_id, e),
            r is Ok ==> final(self).pos() == old(self).pos() + len && final(output)@ == old(
                output,
            )@.push(final(output)@.last()) && final(output)@.last() is Punct && renders(
                old(self).src(),
                old(self).pos(),
                final(self).pos(),
                final(output)@.last(),
            ) && punct_munched(old(self).src(), final(output)@.last()),
            r is Ok && is_semicolon_punct(final(output)@.last()) ==> len == 1 && old(self).src()[old(
                self,
            ).pos() as int] == 59u8,
    {
        let start = self.point;
        let bytes = self.peek_bytes(len);
        let text = self.text(bytes, start)?;
        self.commit(len);
        let span = self.span_from(start);
        output.push_punct(Punct { text, span });
        proof {
            let from = old(self).pos();
            let to = from + len;
            assert(span == located_span(self.src(), self.source_id, from, to));
            assert(longest_punctuation_at(self.src(), from, to) || math_operator_at(self.src(), from, to));
            if is_semicolon_punct(output@.last()) {
                lemma_encode_semicolon();
                assert(self.src().subrange(from, to) =~= seq![59u8]);
                assert(self.src()[from] == self.src().subrange(from, to)[0]);
            }
        }
        Ok(())
    }
}

/// Which bytes a run-consuming helper accepts.
#[derive(Clone, Copy)]
enum ByteClass {
    SpaceOrTab,
    Digit,
    Radix(NumberRadix),
}

spec fn byte_in_class(class: ByteClass, b: u8) -> bool {
    match class {
        ByteClass::SpaceOrTab => b == 32 || b == 9,
        ByteClass::Digit => spec_is_ascii_digit(b),
        ByteClass::Radix(radix) => spec_radix_digit(radix, b),
    }
}

impl ByteClass {
    fn contains(self, b: u8) -> (r: bool)
        ensures
            r == byte_in_class(self, b),
    {
        match self {
            ByteClass::SpaceOrTab => b == 32u8 || b == 9u8,
            ByteClass::Digit => is_ascii_digit(b),
            ByteClass::Radix(radix) => radix.is_digit(b),
        }
    }
}

/// Whether punctuation entry `i` is spelled by the source at `pos`.
pub open spec fn entry_matches(src: Seq<u8>, pos: int, i: int) -> bool {
    let bytes = encode_utf8(punctuation_entries()[i].0);
    &&& bytes.len() > 0
    &&& pos + bytes.len() <= src.len()
    &&& src.subrange(pos, pos + bytes.len()) == bytes
}

/// The width of a mathematical-operator character starting at `pos`.
pub open spec fn spec_math_operator_width(src: Seq<u8>, pos: int) -> Option<usize> {
    if pos + 1 < src.len() && (src[pos] == 0xc2 || src[pos] == 0xc3 || src[pos] == 0xe2)
        && spec_is_math_operator_pair(src[pos], src[pos + 1]) {
        spec_utf8_char_width(src[pos])
    } else {
        None
    }
}

/// `new` is `old` with one more token that renders the source bytes `from..to`.
pub open spec fn pushed_token(
    old: Seq<TokenModel>,
    new: Seq<TokenModel>,
    src: Seq<u8>,
    from: int,
    to: int,
) -> bool {
    &&& from < to
    &&& new.len() == old.len() + 1
    &&& new == old.push(new.last())
    &&& renders(src, from, to, new.last())
    &&& model_shaped(new.last())
    &&& punct_munched(src, new.last())
}

/// Appending a token that renders the next source bytes keeps the whole rendering a source prefix.
proof fn lemma_render_extend(
    prefix: Seq<char>,
    old: Seq<TokenModel>,
    new: Seq<TokenModel>,
    src: Seq<u8>,
    from: int,
    to: int,
)
    requires
        0 <= from <= to <= src.len(),
        encode_utf8(prefix + models_text(old)) == src.subrange(0, from),
        pushed_token(old, new, src, from, to),
    ensures
        encode_utf8(prefix + models_text(new)) == src.subrange(0, to),
        models_shaped(old) ==> models_shaped(new),
        models_munched(src, old) ==> models_munched(src, new),
{
    lemma_shaped_push(old, new.last());
    lemma_munched_push(src, old, new.last());
    crate::token_stream::lemma_models_text_push(old, new.last());
    let t = model_text(new.last());
    assert(prefix + models_text(new) =~= (prefix + models_text(old)) + t);
    lemma_encode_utf8_append(prefix + models_text(old), t);
    assert(src.subrange(0, to) =~= src.subrange(0, from) + src.subrange(from, to));
}

proof fn lemma_encode_semicolon()
    ensures
        encode_utf8(seq![';']) == seq![59u8],
{
    let s = seq![';'];
    assert(s.drop_first() =~= Seq::<char>::empty());
    assert(encode_utf8(s) == vstd::utf8::encode_scalar(';' as u32) + encode_utf8(s.drop_first()));
    assert(vstd::utf8::encode_scalar(59u32) =~= seq![59u8]) by (bit_vector);
}

impl<'a> NativeLexer<'a> {
    fn lex_line_break(&mut self, output: &mut TokenStream) -> (r: Result<(), LexError>)
        requires
            old(self).wf(),
            old(self).pos() < old(self).src().len(),
            old(self).src()[old(self).pos()] == 10 || old(self).src()[old(self).pos()] == 13,
            old(self).src()[old(self).pos()] == 13 ==> old(self).pos() + 1 < old(self).src().len()
                && old(self).src()[old(self).pos() + 1] == 10,
        ensures
            final(self).continues(old(self)),
            r is Ok ==> final(output)@.last() is Trivia,
            r is Ok ==> is_line_break(final(output)@.last()),
            r matches Err(e) ==> lex_error_shown(old(self).src(), old(self).source_id, e),
            r is Ok ==> pushed_token(
                old(output)@,
                final(output)@,
                old(self).src(),
                old(self).pos(),
                final(self).pos(),
            ),
    {
        let start = self.point;
        let first = self.next_or_error(LexErrorKind::InvalidCharacter, start)?;
        let mut bytes = vec![first];
        if first == 13u8 && self.peek(0) == Some(10u8) {
            let second = self.next_or_error(LexErrorKind::InvalidCharacter, start)?;
            bytes.push(second);
        }
        proof {
            assert(bytes@ =~= old(self).src().subrange(old(self).pos(), self.pos()));
            assert(forall|k: int| 0 <= k < bytes@.len() ==> is_space_byte(#[trigger] bytes@[k]));
        }
        let text = self.text(bytes, start)?;
        let span = self.span_from(start);
        output.push_trivia(Trivia { kind: TriviaKind::Whitespace, text, span });
        proof {
            let last = output@.last();
            assert(encode_utf8(last->Trivia_text) == bytes@);
            if first == 10u8 {
                assert(bytes@[0] == 10u8);
            } else {
                assert(bytes@[1] == 10u8);
            }
        }
        Ok(())
    }

    fn lex_carriage_return(&mut self, output: &mut TokenStream) -> (r: Result<(), LexError>)
        requires
            old(self).wf(),
            old(self).pos() < old(self).src().len(),
            old(self).src()[old(self).pos()] == 13,
        ensures
            final(self).continues(old(self)),
            r is Ok ==> !is_line_break(final(output)@.last()),
            r is Ok ==> final(output)@.last() is Trivia,
            r matches Err(e) ==> lex_error_shown(old(self).src(), old(self).source_id, e),
            r is Ok ==> pushed_token(
                old(output)@,
                final(output)@,
                old(self).src(),
                old(self).pos(),
                final(self).pos(),
            ),
    {
        let start = self.point;
        let byte = self.next_or_error(LexErrorKind::InvalidCharacter, start)?;
        let bytes = vec![byte];
        proof {
            assert(bytes@ =~= old(self).src().subrange(old(self).pos(), self.pos()));
            assert(forall|k: int| 0 <= k < bytes@.len() ==> is_space_byte(#[trigger] bytes@[k]));
        }
        let text = self.text(bytes, start)?;
        let span = self.span_from(start);
        output.push_trivia(Trivia { kind: TriviaKind::Whitespace, text, span });
        proof {
            assert(!encode_utf8(output@.last()->Trivia_text).contains(10u8)) by {
                assert(encode_utf8(output@.last()->Trivia_text) =~= seq![13u8]);
            }
        }
        Ok(())
    }

    fn lex_whitespace(&mut self, output: &mut TokenStream) -> (r: Result<(), LexError>)
        requires
            old(self).wf(),
            old(self).pos() < old(self).src().len(),
            byte_in_class(ByteClass::SpaceOrTab, old(self).src()[old(self).pos()]),
        ensures
            final(self).continues(old(self)),
            r is Ok ==> !is_line_break(final(output)@.last()),
            r is Ok ==> final(output)@.last() is Trivia,
            r matches Err(e) ==> lex_error_shown(old(self).src(), old(self).source_id, e),
            r is Ok ==> pushed_token(
                old(output)@,
                final(output)@,
                old(self).src(),
                old(self).pos(),
                final(self).pos(),
            ),
    {
        let start = self.point;
        let bytes = self.take_class(ByteClass::SpaceOrTab);
        let text = self.text(bytes, start)?;
        let span = self.span_from(start);
        output.push_trivia(Trivia { kind: TriviaKind::Whitespace, text, span });
        proof {
            let e = encode_utf8(output@.last()->Trivia_text);
            if e.contains(10u8) {
                let k = choose|k: int| 0 <= k < e.len() && e[k] == 10u8;
                assert(byte_in_class(ByteClass::SpaceOrTab, e[k]));
            }
        }
        Ok(())
    }

    fn lex_identifier(&mut self, output: &mut TokenStream) -> (r: Result<(), LexError>)
        requires
            old(self).wf(),
            old(self).pos() < old(self).src().len(),
            spec_is_identifier_start(old(self).src()[old(self).pos()]),
        ensures
            final(self).continues(old(self)),
            r matches Err(e) ==> lex_error_shown(old(self).src(), old(self).source_id, e),
            r is Ok ==> pushed_token(
                old(output)@,
                final(output)@,
                old(self).src(),
                old(self).pos(),
                final(self).pos(),
            ) && final(output)@.last() is Ident,
    {
        let start = self.point;
        let first = self.next_or_error(LexErrorKind::InvalidUtf8, start)?;
        let mut bytes = vec![first];
        loop
            invariant
                self.continues(old(self)),
                self.pos() > old(self).pos(),
                bytes@ == old(self).src().subrange(old(self).pos(), self.pos()),
                spec_is_identifier_start(bytes@[0]),
                forall|i: int| 0 <= i < bytes@.len() ==> spec_is_identifier_continue(#[trigger] bytes@[i]),
            decreases self.src().len() - self.pos(),
        {
            let byte = match self.peek(0) {
                Some(byte) => byte,
                None => break,
            };
            if !is_identifier_continue(byte) || self.math_operator_width().is_some() {
                break;
            }
            let next = self.next_or_error(LexErrorKind::InvalidUtf8, start)?;
            bytes.push(next);
            proof {
                assert(bytes@ =~= old(self).src().subrange(old(self).pos(), self.pos()));
            }
        }
        let text = self.text(bytes, start)?;
        let span = self.span_from(start);
        output.push_ident(IdentToken { text, span });
        Ok(())
    }

    /// The radix marker after a leading zero, when a digit of that radix follows it.
    fn number_radix(&self) -> (r: Option<NumberRadix>)
        requires
            self.wf(),
        ensures
            r matches Some(radix) ==> self.pos() + 1 < self.src().len() && spec_radix_digit(
                radix,
                self.src()[self.pos() + 1],
            ) && spec_is_ascii_alphabetic(self.src()[self.pos()]) && is_radix_marker(
                self.src()[self.pos()],
            ),
    {
        let marker = match self.peek(0) {
            Some(marker) => marker,
            None => return None,
        };
        let digit = match self.peek(1) {
            Some(digit) => digit,
            None => return None,
        };
        if (marker == 98u8 || marker == 66u8) && NumberRadix::Binary.is_digit(digit) {
            Some(NumberRadix::Binary)
        } else if (marker == 111u8 || marker == 79u8) && NumberRadix::Octal.is_digit(digit) {
            Some(NumberRadix::Octal)
        } else if (marker == 120u8 || marker == 88u8) && NumberRadix::Hexadecimal.is_digit(digit) {
            Some(NumberRadix::Hexadecimal)
        } else {
            None
        }
    }

    /// Consumes the integer part of a number; reports whether it is decimal.
    fn take_integer_part(&mut self, start: TextPoint) -> (r: Result<(Vec<u8>, bool), LexError>)
        requires
            old(self).wf(),
            old(self).pos() < old(self).src().len(),
            spec_is_ascii_digit(old(self).src()[old(self).pos()]) || old(self).src()[old(
                self,
            ).pos()] == 46,
        ensures
            final(self).continues(old(self)),
            r matches Ok((bytes, _)) ==> bytes@ == old(self).src().subrange(
                old(self).pos(),
                final(self).pos(),
            ),
            r matches Ok((_, decimal)) ==> (!decimal ==> final(self).pos() > old(self).pos()),
            r matches Ok((bytes, decimal)) ==> (decimal <==> !radix_prefixed(bytes@)),
            r matches Ok((bytes, decimal)) ==> (decimal ==> forall|k: int|
                0 <= k < bytes@.len() ==> spec_is_ascii_digit(#[trigger] bytes@[k])),
            r matches Ok((_, decimal)) ==> (spec_is_ascii_digit(old(self).src()[old(self).pos()])
                ==> final(self).pos() > old(self).pos()),
            r is Ok,
            forall|i: int|
                old(self).pos() <= i < final(self).pos() ==> is_number_byte(
                    #[trigger] old(self).src()[i],
                ),
    {
        let mut bytes: Vec<u8> = Vec::new();
        let mut decimal = true;
        if self.peek(0) == Some(48u8) {
            let zero = self.next_or_error(LexErrorKind::InvalidNumber, start)?;
            bytes.push(zero);
            match self.number_radix() {
                Some(radix) => {
                    decimal = false;
                    let marker = self.next_or_error(LexErrorKind::InvalidNumber, start)?;
                    bytes.push(marker);
                    let ghost head = bytes@;
                    let mut digits = self.take_class(ByteClass::Radix(radix));
                    let ghost tail = digits@;
                    bytes.append(&mut digits);
                    proof {
                        assert forall|k: int| 0 <= k < bytes@.len() implies is_number_byte(
                            #[trigger] bytes@[k],
                        ) by {
                            if k >= head.len() {
                                assert(bytes@[k] == tail[k - head.len()]);
                                assert(byte_in_class(ByteClass::Radix(radix), tail[k - head.len()]));
                            }
                        }
                    }
                },
                None => {
                    let ghost head = bytes@;
                    let mut digits = self.take_class(ByteClass::Digit);
                    let ghost tail = digits@;
                    bytes.append(&mut digits);
                    proof {
                        assert forall|k: int| 0 <= k < bytes@.len() implies is_number_byte(
                            #[trigger] bytes@[k],
                        ) by {
                            if k >= head.len() {
                                assert(bytes@[k] == tail[k - head.len()]);
                                assert(byte_in_class(ByteClass::Digit, tail[k - head.len()]));
                            }
                        }
                    }
                },
            }
        } else {
            let mut digits = self.take_class(ByteClass::Digit);
            let ghost tail = digits@;
            bytes.append(&mut digits);
            proof {
                assert forall|k: int| 0 <= k < bytes@.len() implies is_number_byte(
                    #[trigger] bytes@[k],
                ) by {
                    assert(bytes@[k] == tail[k]);
                    assert(byte_in_class(ByteClass::Digit, tail[k]));
                }
            }
        }
        proof {
            assert forall|i: int| old(self).pos() <= i < self.pos() implies is_number_byte(
                #[trigger] old(self).src()[i],
            ) by {
                assert(old(self).src()[i] == bytes@[i - old(self).pos()]);
            }
            assert(bytes@ =~= old(self).src().subrange(old(self).pos(), self.pos()));
        }
        Ok((bytes, decimal))
    }

    /// Consumes an optional exponent marker (`p`, or `e`/`E` with a sign) and its digits.
    fn take_exponent(&mut self, bytes: &mut Vec<u8>, start: TextPoint, binary: bool) -> (r: Result<
        (),
        LexError,
    >)
        requires
            old(self).wf(),
            start == point_at(old(self).src(), start.byte as int),
            start.byte < old(self).pos(),
            spec_is_ascii_digit(old(self).src()[start.byte as int]) || old(self).src()[start.byte as int]
                == 46,
            forall|i: int|
                start.byte <= i < old(self).pos() ==> is_number_byte(#[trigger] old(self).src()[i]),
        ensures
            final(self).continues(old(self)),
            r is Ok ==> final(bytes)@ == old(bytes)@ + old(self).src().subrange(
                old(self).pos(),
                final(self).pos(),
            ),
            r matches Err(e) ==> lex_error_shown(old(self).src(), old(self).source_id, e),
            r is Ok ==> forall|i: int|
                start.byte <= i < final(self).pos() ==> is_number_byte(#[trigger] old(self).src()[i]),
            r is Ok && old(self).pos() < old(self).src().len() && (if binary {
                old(self).src()[old(self).pos()] == 112
            } else {
                old(self).src()[old(self).pos()] == 101 || old(self).src()[old(self).pos()] == 69
            }) ==> final(self).pos() > old(self).pos(),
    {
        let marker_matches = if binary {
            self.peek(0) == Some(112u8)
        } else {
            self.peek(0) == Some(101u8) || self.peek(0) == Some(69u8)
        };
        if !marker_matches {
            proof {
                assert(old(self).src().subrange(old(self).pos(), self.pos()) =~= Seq::<u8>::empty());
                assert(bytes@ =~= old(bytes)@ + old(self).src().subrange(old(self).pos(), self.pos()));
            }
            return Ok(());
        }
        let marker = self.next_or_error(LexErrorKind::InvalidNumber, start)?;
        bytes.push(marker);
        if !binary && (self.peek(0) == Some(43u8) || self.peek(0) == Some(45u8)) {
            let sign = self.next_or_error(LexErrorKind::InvalidNumber, start)?;
            bytes.push(sign);
        }
        match self.peek(0) {
            Some(b) => if !is_ascii_digit(b) {
                return Err(self.error(LexErrorKind::InvalidNumber, start));
            },
            None => return Err(self.error(LexErrorKind::InvalidNumber, start)),
        }
        let ghost mid = self.pos();
        let mut digits = self.take_class(ByteClass::Digit);
        let ghost tail = digits@;
        bytes.append(&mut digits);
        proof {
            assert(bytes@ =~= old(bytes)@ + old(self).src().subrange(old(self).pos(), self.pos()));
            assert forall|i: int| start.byte <= i < self.pos() implies is_number_byte(
                #[trigger] old(self).src()[i],
            ) by {
                if i >= mid {
                    assert(old(self).src()[i] == tail[i - mid]);
                    assert(byte_in_class(ByteClass::Digit, tail[i - mid]));
                }
            }
        }
        Ok(())
    }

    fn lex_number(&mut self, output: &mut TokenStream) -> (r: Result<(), LexError>)
        requires
            old(self).wf(),
            old(self).pos() < old(self).src().len(),
            spec_is_ascii_digit(old(self).src()[old(self).pos()]) || (old(self).src()[old(
                self,
            ).pos()] == 46 && old(self).pos() + 1 < old(self).src().len() && spec_is_ascii_digit(
                old(self).src()[old(self).pos() + 1],
            )),
        ensures
            final(self).continues(old(self)),
            r matches Err(e) ==> lex_error_shown(old(self).src(), old(self).source_id, e),
            r is Ok ==> pushed_token(
                old(output)@,
                final(output)@,
                old(self).src(),
                old(self).pos(),
                final(self).pos(),
            ) && final(output)@.last() is Literal,
    {
        let start = self.point;
        let (mut bytes, decimal) = self.take_integer_part(start)?;
        let ghost after_integer = self.pos();
        let ghost int_bytes = bytes@;
        let next = self.peek(0);
        let begins_float = decimal && ((next == Some(46u8) && self.byte_after_current() != Some(
            46u8,
        )) || next == Some(112u8) || next == Some(101u8) || next == Some(69u8));
        let kind = if begins_float {
            if self.peek(0) == Some(46u8) {
                let dot = self.next_or_error(LexErrorKind::InvalidNumber, start)?;
                bytes.push(dot);
                let ghost mid = self.pos();
                let mut digits = self.take_class(ByteClass::Digit);
                let ghost tail = digits@;
                bytes.append(&mut digits);
                proof {
                    assert(bytes@ =~= old(self).src().subrange(old(self).pos(), self.pos()));
                    assert forall|i: int| old(self).pos() <= i < self.pos() implies is_number_byte(
                        #[trigger] old(self).src()[i],
                    ) by {
                        if i >= mid {
                            assert(old(self).src()[i] == tail[i - mid]);
                            assert(byte_in_class(ByteClass::Digit, tail[i - mid]));
                        }
                    }
                }
            }
            self.take_exponent(&mut bytes, start, true)?;
            proof {
                assert(bytes@ =~= old(self).src().subrange(old(self).pos(), self.pos()));
            }
            self.take_exponent(&mut bytes, start, false)?;
            proof {
                assert(bytes@ =~= old(self).src().subrange(old(self).pos(), self.pos()));
            }
            LiteralKind::Float
        } else {
            LiteralKind::Integer
        };
        proof {
            if self.pos() == old(self).pos() {
                assert(old(self).src()[old(self).pos()] == 46);
                assert(false);
            }
        }
        let ghost b = bytes@;
        proof {
            let n = int_bytes.len() as int;
            assert(b.subrange(0, n) =~= int_bytes) by {
                assert forall|k: int| 0 <= k < n implies b[k] == int_bytes[k] by {
                    assert(b[k] == old(self).src()[old(self).pos() + k]);
                    assert(int_bytes[k] == old(self).src()[old(self).pos() + k]);
                }
            }
            if kind is Float {
                assert(self.pos() > after_integer);
                assert(b[n] == old(self).src()[after_integer]);
                assert(b[n] == 46 || b[n] == 112 || b[n] == 101 || b[n] == 69);
                if b.len() >= 2 && b[0] == 48 {
                    if n >= 2 {
                        assert(b[1] == int_bytes[1]);
                    } else {
                        assert(n == 1);
                    }
                }
                assert(marks_float(b));
            } else {
                assert(b =~= int_bytes);
                if decimal {
                    assert forall|i: int| 0 <= i < b.len() implies !(#[trigger] b[i] == 46 || b[i]
                        == 112 || b[i] == 101 || b[i] == 69) by {
                        assert(spec_is_ascii_digit(int_bytes[i]));
                    }
                }
                assert(!marks_float(b));
            }
        }
        let text = self.text(bytes, start)?;
        proof {
            assert forall|k: int| 0 <= k < b.len() implies is_number_byte(#[trigger] b[k]) by {
                assert(b[k] == old(self).src()[old(self).pos() + k]);
            }
        }
        let span = self.span_from(start);
        output.push_literal(Literal { kind, text, span });
        Ok(())
    }

    fn take_hex_escape(&mut self, bytes: &mut Vec<u8>, digits: usize, start: TextPoint) -> (r: Result<
        (),
        LexError,
    >)
        requires
            old(self).wf(),
            start == point_at(old(self).src(), start.byte as int),
            start.byte + 2 <= old(self).pos(),
            old(self).src()[start.byte as int] == 92,
            old(self).src()[start.byte + 1] == 120 || old(self).src()[start.byte + 1] == 117,
        ensures
            final(self).continues(old(self)),
            r is Ok ==> final(bytes)@ == old(bytes)@ + old(self).src().subrange(
                old(self).pos(),
                final(self).pos(),
            ),
            r matches Err(e) ==> lex_error_shown(old(self).src(), old(self).source_id, e),
            forall|k: int|
                old(self).pos() <= k < final(self).pos() ==> spec_is_ascii_hexdigit(
                    #[trigger] old(self).src()[k],
                ),
    {
        let mut i: usize = 0;
        while i < digits
            invariant
                self.continues(old(self)),
                bytes@ == old(bytes)@ + old(self).src().subrange(old(self).pos(), self.pos()),
                forall|k: int|
                    old(self).pos() <= k < self.pos() ==> spec_is_ascii_hexdigit(
                        #[trigger] old(self).src()[k],
                    ),
                start == point_at(old(self).src(), start.byte as int),
                start.byte + 2 <= old(self).pos(),
                old(self).src()[start.byte as int] == 92,
                old(self).src()[start.byte + 1] == 120 || old(self).src()[start.byte + 1] == 117,
            decreases digits - i,
        {
            match self.peek(0) {
                Some(b) => if !is_ascii_hexdigit(b) {
                    return Err(self.error(LexErrorKind::InvalidEscape, start));
                },
                None => return Err(self.error(LexErrorKind::InvalidEscape, start)),
            }
            let digit = self.next_or_error(LexErrorKind::InvalidEscape, start)?;
            bytes.push(digit);
            proof {
                assert(bytes@ =~= old(bytes)@ + old(self).src().subrange(old(self).pos(), self.pos()));
            }
            i = i + 1;
        }
        Ok(())
    }

    fn lex_string(&mut self, output: &mut TokenStream) -> (r: Result<(), LexError>)
        requires
            old(self).wf(),
            old(self).pos() < old(self).src().len(),
            old(self).src()[old(self).pos()] == 34,
        ensures
            final(self).continues(old(self)),
            r matches Err(e) ==> lex_error_shown(old(self).src(), old(self).source_id, e),
            r is Ok ==> pushed_token(
                old(output)@,
                final(output)@,
                old(self).src(),
                old(self).pos(),
                final(self).pos(),
            ) && final(output)@.last() is Literal,
    {
        let start = self.point;
        let quote = self.next_or_error(LexErrorKind::UnterminatedString, start)?;
        let mut bytes = vec![quote];
        proof {
            reveal(quotes_escaped);
        }
        loop
            invariant
                self.continues(old(self)),
                self.pos() > old(self).pos(),
                bytes@ == old(self).src().subrange(old(self).pos(), self.pos()),
                *output == *old(output),
                start == old(self).point,
                old(self).wf(),
                old(self).src()[old(self).pos()] == 34,
                quotes_escaped(self.src(), old(self).pos(), self.pos()),
            decreases self.src().len() - self.pos(),
        {
            let ghost before = self.pos();
            match self.peek(0) {
                None => return Err(self.error(LexErrorKind::UnterminatedString, start)),
                Some(34u8) => {
                    let close = self.next_or_error(LexErrorKind::UnterminatedString, start)?;
                    bytes.push(close);
                    proof {
                        assert(bytes@ =~= old(self).src().subrange(old(self).pos(), self.pos()));
                    }
                    let ghost b = bytes@;
                    let text = self.text(bytes, start)?;
                    proof {
                        assert(b[0] == 34 && b[b.len() - 1] == 34);
                        lemma_framed_text(text@, 34u8, '"', 1);
                        assert(text@[text@.len() - 1] == '"');
                    }
                    let span = self.span_from(start);
                    output.push_literal(Literal { kind: LiteralKind::String, text, span });
                    return Ok(());
                },
                Some(92u8) => {
                    let escape_start = self.point;
                    let backslash = self.next_or_error(LexErrorKind::UnterminatedString, start)?;
                    bytes.push(backslash);
                    proof {
                        reveal(quotes_escaped);
                        assert(self.src()[before] == 92);
                    }
                    let escaped = match self.peek(0) {
                        Some(escaped) => escaped,
                        None => return Err(self.error(LexErrorKind::UnterminatedString, start)),
                    };
                    let escaped_byte = self.next_or_error(LexErrorKind::UnterminatedString, start)?;
                    bytes.push(escaped_byte);
                    proof {
                        reveal(quotes_escaped);
                        assert(self.src()[before] == 92);
                        assert(bytes@ =~= old(self).src().subrange(old(self).pos(), self.pos()));
                    }
                    if escaped == 97u8 || escaped == 98u8 || escaped == 101u8 || escaped == 69u8
                        || escaped == 102u8 || escaped == 114u8 || escaped == 116u8 || escaped
                        == 118u8 || escaped == 110u8 || escaped == 34u8 || escaped == 92u8 {
                    } else if 48u8 <= escaped && escaped <= 55u8 {
                        let mut k: usize = 0;
                        while k < 2
                            invariant
                                self.continues(old(self)),
                                self.pos() > before,
                                self.pos() > old(self).pos(),
                                bytes@ == old(self).src().subrange(old(self).pos(), self.pos()),
                                quotes_escaped(self.src(), old(self).pos(), self.pos()),
                            decreases 2 - k,
                        {
                            match self.peek(0) {
                                Some(b) => if !(48u8 <= b && b <= 55u8) {
                                    break;
                                },
                                None => break,
                            }
                            let digit = self.next_or_error(LexErrorKind::InvalidEscape, escape_start)?;
                            bytes.push(digit);
                            proof {
                                reveal(quotes_escaped);
                                assert(bytes@ =~= old(self).src().subrange(
                                    old(self).pos(),
                                    self.pos(),
                                ));
                            }
                            k = k + 1;
                        }
                    } else if escaped == 120u8 {
                        let ghost mid = self.pos();
                        self.take_hex_escape(&mut bytes, 2, escape_start)?;
                        proof {
                            reveal(quotes_escaped);
                            assert forall|i: int|
                                old(self).pos() < i < self.pos() && #[trigger] self.src()[i] == 34 implies self.src()[i - 1] == 92 by {
                                if i >= mid {
                                    assert(spec_is_ascii_hexdigit(self.src()[i]));
                                }
                            }
                            assert(bytes@ =~= old(self).src().subrange(old(self).pos(), self.pos()));
                        }
                    } else if escaped == 117u8 {
                        let ghost mid = self.pos();
                        self.take_hex_escape(&mut bytes, 4, escape_start)?;
                        proof {
                            reveal(quotes_escaped);
                            assert forall|i: int|
                                old(self).pos() < i < self.pos() && #[trigger] self.src()[i] == 34 implies self.src()[i - 1] == 92 by {
                                if i >= mid {
                                    assert(spec_is_ascii_hexdigit(self.src()[i]));
                                }
                            }
                            assert(bytes@ =~= old(self).src().subrange(old(self).pos(), self.pos()));
                        }
                    } else {
                        return Err(self.error(LexErrorKind::InvalidEscape, escape_start));
                    }
                },
                Some(_) => {
                    let byte = self.next_or_error(LexErrorKind::UnterminatedString, start)?;
                    bytes.push(byte);
                    proof {
                        reveal(quotes_escaped);
                        assert(bytes@ =~= old(self).src().subrange(old(self).pos(), self.pos()));
                    }
                },
            }
        }
    }

    /// The number of consecutive slashes at the cursor, counting at most four.
    fn slash_run_len(&self) -> (len: usize)
        requires
            self.wf(),
        ensures
            len <= 4,
            self.pos() + len <= self.src().len(),
            forall|j: int| 0 <= j < len ==> #[trigger] self.src()[self.pos() + j] == 47,
            len < 4 && self.pos() + len < self.src().len() ==> self.src()[self.pos() + len] != 47,
    {
        let mut len: usize = 0;
        while len < 4 && self.peek(len) == Some(47u8)
            invariant
                self.wf(),
                len <= 4,
                self.pos() + len <= self.src().len(),
                forall|j: int| 0 <= j < len ==> #[trigger] self.src()[self.pos() + j] == 47,
            decreases 4 - len,
        {
            len = len + 1;
        }
        len
    }

    fn lex_raw_string(&mut self, opener: usize, output: &mut TokenStream) -> (r: Result<
        (),
        LexError,
    >)
        requires
            old(self).wf(),
            opener >= 1,
            opener == encode_utf8("///"@).len(),
            old(self).pos() + opener <= old(self).src().len(),
            spells_at(old(self).src(), old(self).pos(), "///"@),
        ensures
            final(self).continues(old(self)),
            r matches Err(e) ==> lex_error_shown(old(self).src(), old(self).source_id, e),
            r is Ok ==> pushed_token(
                old(output)@,
                final(output)@,
                old(self).src(),
                old(self).pos(),
                final(self).pos(),
            ) && final(output)@.last() is Literal,
    {
        let start = self.point;
        let mut bytes = self.peek_bytes(opener);
        self.commit(opener);
        loop
            invariant
                self.continues(old(self)),
                self.pos() > old(self).pos(),
                bytes@ == old(self).src().subrange(old(self).pos(), self.pos()),
                *output == *old(output),
                spells_at(old(self).src(), old(self).pos(), "///"@),
                opener == encode_utf8("///"@).len(),
                self.pos() >= old(self).pos() + opener,
                start == old(self).point,
                old(self).wf(),
            decreases self.src().len() - self.pos(),
        {
            if self.peek(0).is_none() {
                return Err(self.error(LexErrorKind::UnterminatedRawString, start));
            }
            if self.peek(0) == Some(47u8) {
                let run = self.slash_run_len();
                if run == 3 {
                    let ghost closing_at = self.pos();
                    let mut closer = self.take_exact(3, start)?;
                    bytes.append(&mut closer);
                    proof {
                        assert(bytes@ =~= old(self).src().subrange(old(self).pos(), self.pos()));
                    }
                    let ghost b = bytes@;
                    let text = self.text(bytes, start)?;
                    proof {
                        lemma_opener_bytes();
                        let src = old(self).src();
                        let p = old(self).pos();
                        assert(src.subrange(p, p + 3) == seq![47u8, 47u8, 47u8]);
                        assert(forall|i: int| 0 <= i < 3 ==> #[trigger] b[i] == src.subrange(p, p + 3)[i]);
                        assert(closing_at >= p + 3);
                        assert(forall|i: int| b.len() - 3 <= i < b.len() ==> #[trigger] b[i] == src[closing_at + (i - (b.len() - 3))]);
                        lemma_framed_text(text@, 47u8, '/', 3);
                        assert(text@.subrange(0, 3) =~= seq!['/', '/', '/']);
                        assert(text@.subrange(text@.len() - 3, text@.len() as int) =~= seq!['/', '/', '/']);
                    }
                    let span = self.span_from(start);
                    output.push_literal(Literal { kind: LiteralKind::RawString, text, span });
                    return Ok(());
                } else if run == 0 {
                    return Err(self.error(LexErrorKind::UnterminatedRawString, start));
                } else if run == 1 {
                    let slash = self.next_or_error(LexErrorKind::UnterminatedRawString, start)?;
                    bytes.push(slash);
                } else {
                    let mut pair = self.take_exact(2, start)?;
                    bytes.append(&mut pair);
                }
            } else {
                let byte = self.next_or_error(LexErrorKind::UnterminatedRawString, start)?;
                bytes.push(byte);
            }
            proof {
                assert(bytes@ =~= old(self).src().subrange(old(self).pos(), self.pos()));
            }
        }
    }

    fn lex_line_comment(&mut self, opener: usize, output: &mut TokenStream) -> (r: Result<
        (),
        LexError,
    >)
        requires
            old(self).wf(),
            opener >= 1,
            opener == encode_utf8("--"@).len(),
            old(self).pos() + opener <= old(self).src().len(),
            spells_at(old(self).src(), old(self).pos(), "--"@),
        ensures
            final(self).continues(old(self)),
            r is Ok ==> !is_line_break(final(output)@.last()),
            r matches Err(e) ==> lex_error_shown(old(self).src(), old(self).source_id, e),
            r is Ok ==> pushed_token(
                old(output)@,
                final(output)@,
                old(self).src(),
                old(self).pos(),
                final(self).pos(),
            ) && final(output)@.last() is Trivia,
    {
        let start = self.point;
        let mut bytes = self.peek_bytes(opener);
        self.commit(opener);
        proof {
            lemma_opener_bytes();
            assert(bytes@ =~= seq![45u8, 45u8]);
        }
        loop
            invariant
                self.continues(old(self)),
                self.pos() > old(self).pos(),
                bytes@ == old(self).src().subrange(old(self).pos(), self.pos()),
                bytes@.len() >= 2 && bytes@[0] == 45 && bytes@[1] == 45,
                forall|k: int| 0 <= k < bytes@.len() ==> #[trigger] bytes@[k] != 10,
            decreases self.src().len() - self.pos(),
        {
            match self.peek(0) {
                None => break,
                Some(10u8) => break,
                Some(13u8) => if self.byte_after_current() == Some(10u8) {
                    break;
                },
                Some(_) => {},
            }
            let byte = self.next_or_error(LexErrorKind::InvalidCharacter, start)?;
            bytes.push(byte);
            proof {
                assert(bytes@ =~= old(self).src().subrange(old(self).pos(), self.pos()));
            }
        }
        let text = self.text(bytes, start)?;
        let span = self.span_from(start);
        output.push_trivia(Trivia { kind: TriviaKind::LineComment, text, span });
        Ok(())
    }

    fn lex_block_comment(&mut self, opener: usize, output: &mut TokenStream) -> (r: Result<
        (),
        LexError,
    >)
        requires
            old(self).wf(),
            opener >= 1,
            opener == encode_utf8("-*"@).len(),
            old(self).pos() + opener <= old(self).src().len(),
            spells_at(old(self).src(), old(self).pos(), "-*"@),
        ensures
            final(self).continues(old(self)),
            r is Ok ==> !is_line_break(final(output)@.last()),
            r matches Err(e) ==> lex_error_shown(old(self).src(), old(self).source_id, e),
            r is Ok ==> pushed_token(
                old(output)@,
                final(output)@,
                old(self).src(),
                old(self).pos(),
                final(self).pos(),
            ) && final(output)@.last() is Trivia,
            r is Ok ==> final(output)@.last() matches TokenModel::Trivia {
                kind: TriviaKind::BlockComment,
                ..
            },
    {
        let start = self.point;
        let mut bytes = self.peek_bytes(opener);
        self.commit(opener);
        proof {
            reveal(no_comment_close);
        }
        loop
            invariant
                self.continues(old(self)),
                self.pos() > old(self).pos(),
                bytes@ == old(self).src().subrange(old(self).pos(), self.pos()),
                *output == *old(output),
                spells_at(old(self).src(), old(self).pos(), "-*"@),
                start == old(self).point,
                old(self).wf(),
                opener == encode_utf8("-*"@).len(),
                self.pos() >= old(self).pos() + opener,
                no_comment_close(self.src(), old(self).pos() + opener, self.pos() + 1),
            decreases self.src().len() - self.pos(),
        {
            if self.peek(0).is_none() {
                proof {
                    reveal(no_comment_close);
                }
                return Err(self.error(LexErrorKind::UnterminatedBlockComment, start));
            }
            if self.peek(0) == Some(42u8) && self.byte_after_current() == Some(45u8) {
                let mut closer = self.take_exact(2, start)?;
                bytes.append(&mut closer);
                proof {
                    assert(bytes@ =~= old(self).src().subrange(old(self).pos(), self.pos()));
                }
                let ghost b = bytes@;
                let text = self.text(bytes, start)?;
                proof {
                    lemma_opener_bytes();
                    let p = old(self).pos();
                    assert(old(self).src().subrange(p, p + 2) == seq![45u8, 42u8]);
                    assert(b[0] == old(self).src().subrange(p, p + 2)[0]);
                    assert(b[1] == old(self).src().subrange(p, p + 2)[1]);
                }
                let span = self.span_from(start);
                output.push_trivia(Trivia { kind: TriviaKind::BlockComment, text, span });
                return Ok(());
            }
            let byte = self.next_or_error(LexErrorKind::UnterminatedBlockComment, start)?;
            bytes.push(byte);
            proof {
                reveal(no_comment_close);
                assert(bytes@ =~= old(self).src().subrange(old(self).pos(), self.pos()));
            }
        }
    }

    fn lex_math_operator(&mut self, width: usize, output: &mut TokenStream) -> (r: Result<
        (),
        LexError,
    >)
        requires
            old(self).wf(),
            width >= 1,
            spec_math_operator_width(old(self).src(), old(self).pos()) == Some(width),
        ensures
            final(self).continues(old(self)),
            r matches Err(e) ==> lex_error_shown(old(self).src(), old(self).source_id, e),
            r is Ok ==> pushed_token(
                old(output)@,
                final(output)@,
                old(self).src(),
                old(self).pos(),
                final(self).pos(),
            ) && final(output)@.last() is Punct,
            r is Ok ==> !is_semicolon_punct(final(output)@.last()),
    {
        let start = self.point;
        if self.input.remaining() < width {
            proof {
                let src = self.src();
                let p = self.pos();
                let rest = src.subrange(p, src.len() as int);
                assert(src[p] == 0xe2 && rest.len() == 2 && rest[0] == 0xe2);
                assert(!valid_utf8(rest));
            }
            return Err(self.error(LexErrorKind::InvalidUtf8, start));
        }
        let len = if self.peek(width) == Some(61u8) {
            width + 1
        } else {
            width
        };
        self.push_punctuation(len, output)
    }
}

/// The cells emitted so far are well formed: each is ordinary or muted, and
/// ordinary cells are never empty.
pub open spec fn cells_wf(cells: Seq<CellBlock>) -> bool {
    forall|i: int|
        0 <= i < cells.len() ==> (#[trigger] cells[i]).delimiter.kind == DelimiterKind::Empty
            && cells[i].stream@.len() > 0 || cells[i].delimiter.kind == DelimiterKind::Semicolon
}

/// Whether a token is blank trivia that holds a line feed.
pub open spec fn is_line_break(m: TokenModel) -> bool {
    m matches TokenModel::Trivia { kind: TriviaKind::Whitespace, text, .. } && encode_utf8(
        text,
    ).contains(10u8)
}

/// Whether a token is the punctuation `;`.
pub open spec fn is_semicolon_punct(m: TokenModel) -> bool {
    m matches TokenModel::Punct { text, .. } && text == seq![';']
}

/// Whether, among the first `n` tokens of `s`, none is a `;` (a top-level
/// semicolon ends its cell instead) and no line break would have ended the
/// cell: after each, by [`spec_newline_ends_cell`], the tokens so far were
/// incomplete.
pub open spec fn breaks_kept_open(s: Seq<TokenModel>, n: int) -> bool {
    forall|j: int|
        0 <= j < n && j < s.len() ==> !is_semicolon_punct(#[trigger] s[j]) && (is_line_break(s[j])
            ==> !spec_newline_ends_cell(s.subrange(0, j + 1)))
}

/// Whether in every cell no line break before its last token would have
/// ended it.
pub open spec fn cells_kept_open(cells: Seq<CellModel>) -> bool {
    forall|i: int|
        0 <= i < cells.len() ==> breaks_kept_open(
            #[trigger] cells[i].stream,
            cells[i].stream.len() - 1,
        )
}

/// The same, over the cells of a stream.
#[verifier::opaque]
pub open spec fn blocks_kept_open(cells: Seq<CellBlock>) -> bool {
    forall|i: int|
        0 <= i < cells.len() ==> breaks_kept_open(
            #[trigger] cells[i].stream@,
            cells[i].stream@.len() - 1,
        )
}

proof fn lemma_kept_push(s: Seq<TokenModel>, m: TokenModel, n: int)
    requires
        0 <= n <= s.len(),
        breaks_kept_open(s, n),
        n == s.len() ==> !is_semicolon_punct(m) && (!is_line_break(m) || !spec_newline_ends_cell(
            s.push(m),
        )),
    ensures
        breaks_kept_open(s.push(m), n + if n == s.len() { 1int } else { 0int }),
{
    let t = s.push(m);
    let k = n + if n == s.len() { 1int } else { 0int };
    assert forall|j: int| 0 <= j < k && j < t.len() implies !is_semicolon_punct(#[trigger] t[j]) && (
    is_line_break(t[j]) ==> !spec_newline_ends_cell(t.subrange(0, j + 1))) by {
        if j < s.len() {
            assert(t[j] == s[j]);
            assert(t.subrange(0, j + 1) =~= s.subrange(0, j + 1));
        } else {
            assert(t.subrange(0, j + 1) =~= t);
        }
    }
}

proof fn lemma_kept_prefix(s: Seq<TokenModel>, m: TokenModel)
    requires
        breaks_kept_open(s, s.len() as int),
    ensures
        breaks_kept_open(s.push(m), s.len() as int),
{
    let t = s.push(m);
    assert forall|j: int| 0 <= j < s.len() && j < t.len() implies !is_semicolon_punct(#[trigger] t[j]) && (
    is_line_break(t[j]) ==> !spec_newline_ends_cell(t.subrange(0, j + 1))) by {
        assert(t[j] == s[j]);
        assert(t.subrange(0, j + 1) =~= s.subrange(0, j + 1));
    }
}

proof fn lemma_kept_weaken(s: Seq<TokenModel>, n: int, k: int)
    requires
        breaks_kept_open(s, n),
        k <= n,
    ensures
        breaks_kept_open(s, k),
{
}

proof fn lemma_blocks_kept_push(cells: Seq<CellBlock>)
    requires
        cells.len() > 0,
        blocks_kept_open(cells.drop_last()),
        breaks_kept_open(cells.last().stream@, cells.last().stream@.len() - 1),
    ensures
        blocks_kept_open(cells),
{
    reveal(blocks_kept_open);
    assert forall|i: int| 0 <= i < cells.len() implies breaks_kept_open(
        #[trigger] cells[i].stream@,
        cells[i].stream@.len() - 1,
    ) by {
        if i < cells.len() - 1 {
            assert(cells[i] == cells.drop_last()[i]);
        }
    }
}

/// Every ordinary cell among the first `n` was ended by a top-level line break
/// after which, by [`spec_newline_ends_cell`], the cell was complete.
#[verifier::opaque]
pub open spec fn cells_split_at_breaks(cells: Seq<CellBlock>, n: int) -> bool {
    forall|i: int|
        0 <= i < n && i < cells.len() && (#[trigger] cells[i]).delimiter.kind
            == DelimiterKind::Empty ==> spec_newline_ends_cell(cells[i].stream@) && ends_at_break(
            cells[i].stream@,
        )
}

/// Whether a stream's last token is a line break or a block comment, the
/// tokens after which a top-level cell may end.
#[verifier::opaque]
pub open spec fn ends_at_break(s: Seq<TokenModel>) -> bool {
    s.len() > 0 && (is_line_break(s.last()) || s.last() matches TokenModel::Trivia {
        kind: TriviaKind::BlockComment,
        ..
    })
}

proof fn lemma_split_push(cells: Seq<CellBlock>)
    requires
        cells.len() > 0,
        cells_split_at_breaks(cells.drop_last(), cells.len() - 1),
        cells.last().delimiter.kind == DelimiterKind::Empty ==> spec_newline_ends_cell(
            cells.last().stream@,
        ) && ends_at_break(cells.last().stream@),
    ensures
        cells_split_at_breaks(cells, cells.len() as int),
{
    reveal(cells_split_at_breaks);
    assert forall|i: int|
        0 <= i < cells.len() && (#[trigger] cells[i]).delimiter.kind == DelimiterKind::Empty implies spec_newline_ends_cell(cells[i].stream@) && ends_at_break(cells[i].stream@) by {
        if i < cells.len() - 1 {
            assert(cells[i] == cells.drop_last()[i]);
        }
    }
}

pub open spec fn rendered_prefix(cells: Seq<CellBlock>) -> Seq<char> {
    cells_text(crate::token_stream::cells_model(cells))
}

proof fn lemma_cells_model_push(cells: Seq<CellBlock>, c: CellBlock)
    ensures
        crate::token_stream::cells_model(cells.push(c)) == crate::token_stream::cells_model(
            cells,
        ).push(crate::token_stream::cell_model(c)),
{
    assert(crate::token_stream::cells_model(cells.push(c)) =~= crate::token_stream::cells_model(
        cells,
    ).push(crate::token_stream::cell_model(c)));
}

impl<'a> NativeLexer<'a> {
    /// Closes the current top-level cell with `kind`, whose closing text has just been read.
    fn finish_cell(
        &self,
        output: &mut TokenStream,
        cells: &mut Vec<CellBlock>,
        cell_start: &mut TextPoint,
        kind: DelimiterKind,
        closing: Span,
    )
        requires
            kind == DelimiterKind::Empty ==> old(output)@.len() > 0,
            kind == DelimiterKind::Empty || kind == DelimiterKind::Semicolon,
            blocks_shaped(old(cells)@),
            models_shaped(old(output)@),
            blocks_munched(self.src(), old(cells)@),
            models_munched(self.src(), old(output)@),
        ensures
            blocks_shaped(final(cells)@),
            blocks_munched(self.src(), final(cells)@),
            models_munched(self.src(), final(output)@),
            final(output)@.len() == 0,
            final(output).0@.len() == 0,
            final(cells)@.len() == old(cells)@.len() + 1,
            final(cells)@.drop_last() == old(cells)@,
            final(cells)@.last().delimiter.kind == kind,
            final(cells)@.last().stream == *old(output),
            rendered_prefix(final(cells)@) == rendered_prefix(old(cells)@) + models_text(
                old(output)@,
            ) + closing_text(kind),
    {
        let stream = take_stream(output);
        let opening = self.span(*cell_start, *cell_start);
        let cell = CellBlock::new(Delimiter::new(kind, opening.join(closing)), stream);
        let ghost before = cells@;
        cells.push(cell);
        *cell_start = self.point;
        proof {
            reveal(blocks_munched);
            lemma_munched_empty(self.src());
            assert(output@ =~= Seq::<TokenModel>::empty());
            assert forall|i: int| 0 <= i < cells@.len() implies models_munched(
                self.src(),
                #[trigger] cells@[i].stream@,
            ) by {
                if i < before.len() {
                    assert(cells@[i] == before[i]);
                }
            }
            reveal(blocks_shaped);
            lemma_cells_model_push(before, cell);
            crate::token_stream::lemma_cells_text_push(
                crate::token_stream::cells_model(before),
                crate::token_stream::cell_model(cell),
            );
            assert(cells@.drop_last() =~= before);
            assert(opening_text(kind) =~= Seq::<char>::empty());
            assert(crate::token_stream::cell_text(crate::token_stream::cell_model(cell))
                =~= models_text(stream@) + closing_text(kind));
            assert forall|i: int| 0 <= i < cells@.len() implies models_shaped(
                #[trigger] cells@[i].stream@,
            ) by {
                if i < before.len() {
                    assert(cells@[i] == before[i]);
                }
            }
        }
    }
}

/// Lexes source bytes into source-spanned cells of token trees.
///
/// Malformed source is reported as a [`LexError`]; byte contents never cause a
/// panic. On success the rendered cells reproduce the source bytes exactly,
/// every cell is ordinary or semicolon-terminated, and ordinary cells are
/// never empty; every ordinary cell but the last is complete and ends with a
/// line break or a block comment, and no cell runs
/// past a top-level line break after which it was complete; every token has
/// its lexed shape, and punctuation, at every depth, is the longest spelling at its
/// place. An error reports a byte range whose bytes show its kind.
pub fn lex(bytes: &[u8], source_id: SourceId) -> (r: Result<CellStream, LexError>)
    ensures
        r matches Err(e) ==> lex_error_shown(bytes@, source_id, e),
        r matches Ok(cells) ==> {
            &&& encode_utf8(cells_text(cells@)) == bytes@
            &&& cells.source_id == source_id
            &&& cells_wf(cells.cells@)
            &&& cells_split_at_breaks(cells.cells@, cells.cells@.len() - 1)
            &&& cells_shaped(cells@)
            &&& cells_munched(bytes@, cells@)
            &&& cells_kept_open(cells@)
        },
{
    let mut lexer = NativeLexer::new(bytes, source_id);
    lexer.lex()
}

/// What a successful lexing of `source` gives: cells that render exactly the
/// source, each shaped and munched as the lexer reads tokens, split at the
/// top-level line breaks that complete a cell, and kept open up to them.
pub open spec fn lexes_to(source: Seq<char>, source_id: SourceId, cells: CellStream) -> bool {
    &&& cells_text(cells@) == source
    &&& cells.source_id == source_id
    &&& cells_wf(cells.cells@)
    &&& cells_split_at_breaks(cells.cells@, cells.cells@.len() - 1)
    &&& cells_shaped(cells@)
    &&& cells_munched(encode_utf8(source), cells@)
    &&& cells_kept_open(cells@)
}

/// Lexes M2 source text into its source-spanned token trees.
///
/// On success the rendered cells are exactly the source text; an error
/// reports a range of the source's bytes that shows its kind.
pub fn lex_str(source: &str, source_id: SourceId) -> (r: Result<CellStream, LexError>)
    ensures
        r matches Err(e) ==> lex_error_shown(encode_utf8(source@), source_id, e),
        r matches Ok(cells) ==> lexes_to(source@, source_id, cells),
{
    let result = lex(source.as_bytes(), source_id);
    proof {
        if let Ok(ref cells) = result {
            vstd::utf8::encode_utf8_decode_utf8(cells_text(cells@));
            vstd::utf8::encode_utf8_decode_utf8(source@);
        }
    }
    result
}

impl<'a> NativeLexer<'a> {
    fn lex(&mut self) -> (r: Result<CellStream, LexError>)
        requires
            old(self).wf(),
            old(self).pos() == 0,
        ensures
            r matches Err(e) ==> lex_error_shown(old(self).src(), old(self).source_id, e),
            r matches Ok(cells) ==> {
                &&& encode_utf8(cells_text(cells@)) == old(self).src()
                &&& cells.source_id == old(self).source_id
                &&& cells_wf(cells.cells@)
                &&& cells_split_at_breaks(cells.cells@, cells.cells@.len() - 1)
                &&& cells_shaped(cells@)
                &&& cells_munched(old(self).src(), cells@)
                &&& cells_kept_open(cells@)
            },
    {
        let mut output = TokenStream::new();
        let mut cells: Vec<CellBlock> = Vec::new();
        let mut cell_start = self.point;
        let mut groups: Vec<OpenGroup> = Vec::new();
        proof {
            reveal(cells_split_at_breaks);
            reveal(blocks_shaped);
            reveal(groups_shaped);
            reveal(blocks_munched);
            reveal(groups_munched);
            reveal(blocks_kept_open);
            lemma_munched_empty(self.src());
            crate::spelling::lemma_structural_spellings();
            assert(self.src().subrange(0, 0) =~= Seq::<u8>::empty());
            assert(rendered_prefix(cells@) + groups_text(groups@) + models_text(output@)
                =~= Seq::<char>::empty());
        }
        loop
            invariant
                self.continues(old(self)),
                groups@.len() <= MAX_GROUP_DEPTH,
                groups_open_at(self.src(), groups@),
                cells_wf(cells@),
                cells_split_at_breaks(cells@, cells@.len() as int),
                blocks_shaped(cells@),
                groups_shaped(groups@),
                models_shaped(output@),
                blocks_munched(self.src(), cells@),
                groups_munched(self.src(), groups@),
                models_munched(self.src(), output@),
                groups@.len() == 0 ==> breaks_kept_open(output@, output@.len() as int),
                groups@.len() > 0 ==> breaks_kept_open(groups@[0].parent@, groups@[0].parent@.len() as int),
                blocks_kept_open(cells@),
                encode_utf8(rendered_prefix(cells@) + groups_text(groups@) + models_text(output@))
                    == self.src().subrange(0, self.pos()),
                forall|i: int, k: DelimiterKind|
                    0 <= i < punctuation_entries().len() && punctuation_entries()[i].1
                        == PunctuationKind::Open(k) ==> punctuation_entries()[i].0 == opening_text(
                        k,
                    ),
                forall|i: int, k: DelimiterKind|
                    0 <= i < punctuation_entries().len() && punctuation_entries()[i].1
                        == PunctuationKind::Close(k) ==> punctuation_entries()[i].0 == closing_text(
                        k,
                    ),
            decreases self.src().len() - self.pos(),
        {
            let ghost start_pos = self.pos();
            let ghost prefix = rendered_prefix(cells@) + groups_text(groups@);
            let first = match self.peek(0) {
                Some(first) => first,
                None => {
                    let n = groups.len();
                    if n > 0 {
                        let opening_start = groups[n - 1].opening_start;
                        proof {
                            let g = groups@[n - 1];
                            lemma_reads_open(self.src(), self.pos(), cells@, groups@, output@);
                            assert(group_kinds(groups@).last() == g.kind);
                            assert(is_paired(g.kind) && spells_at(
                                self.src(),
                                opening_start.byte as int,
                                opening_text(g.kind),
                            ));
                        }
                        return Err(self.error(LexErrorKind::UnterminatedGroup, opening_start));
                    }
                    let ghost cells_before = cells@;
                    if !output.is_empty() {
                        let closing = self.span(self.point, self.point);
                        let ghost before = rendered_prefix(cells@);
                        let ghost closed = output@;
                        self.finish_cell(
                            &mut output,
                            &mut cells,
                            &mut cell_start,
                            DelimiterKind::Empty,
                            closing,
                        );
                        proof {
                            assert(cells@.drop_last() == cells_before);
                            lemma_kept_weaken(closed, closed.len() as int, closed.len() - 1);
                            lemma_blocks_kept_push(cells@);
                            assert(cells_wf(cells@)) by {
                                assert forall|i: int| 0 <= i < cells@.len() implies (
                                #[trigger] cells@[i]).delimiter.kind == DelimiterKind::Empty
                                    && cells@[i].stream@.len() > 0 || cells@[i].delimiter.kind
                                    == DelimiterKind::Semicolon by {
                                    if i < cells@.len() - 1 {
                                        assert(cells@[i] == cells@.drop_last()[i]);
                                    }
                                }
                            }
                        }
                    }
                    proof {
                        reveal(cells_split_at_breaks);
                        reveal(blocks_shaped);
                        reveal(blocks_munched);
                        reveal(blocks_kept_open);
                        assert forall|i: int|
                            0 <= i < cells@.len() - 1 && i < cells@.len() && (#[trigger] cells@[i]).delimiter.kind
                                == DelimiterKind::Empty implies spec_newline_ends_cell(cells@[i].stream@)
                            && ends_at_break(cells@[i].stream@) by {
                            assert(cells@[i] == cells_before[i]);
                        }
                        assert(groups_text(groups@) =~= Seq::<char>::empty());
                        assert(self.src().subrange(0, self.pos()) =~= self.src());
                        assert(rendered_prefix(cells@) =~= rendered_prefix(cells@) + groups_text(
                            groups@,
                        ) + models_text(output@));
                    }
                    return Ok(CellStream::new(cells, self.source_id));
                },
            };
            let ghost out_before = output@;
            if first == 10u8 || (first == 13u8 && self.byte_after_current() == Some(10u8)) {
                let top_level = groups.len() == 0;
                self.lex_line_break(&mut output)?;
                proof {
                    lemma_render_extend(prefix, out_before, output@, self.src(), start_pos, self.pos());
                }
                let ends = newline_ends_cell(&output);
                proof {
                    if top_level {
                        lemma_kept_prefix(out_before, output@.last());
                        if !ends {
                            lemma_kept_push(out_before, output@.last(), out_before.len() as int);
                        }
                    }
                }
                if top_level && ends {
                    let ghost closed = output@;
                    let ghost cells_before = cells@;
                    let closing = self.span(self.point, self.point);
                    let ghost total = rendered_prefix(cells@) + groups_text(groups@) + models_text(
                        output@,
                    );
                    self.finish_cell(
                        &mut output,
                        &mut cells,
                        &mut cell_start,
                        DelimiterKind::Empty,
                        closing,
                    );
                    proof {
                        assert(cells@.drop_last() == cells_before);
                        lemma_blocks_kept_push(cells@);
                        self.lemma_cells_wf_after_push(cells@);
                        assert(ends_at_break(cells@.last().stream@)) by {
                            reveal(ends_at_break);
                        }
                        lemma_split_push(cells@);
                        assert(groups_text(groups@) =~= Seq::<char>::empty());
                        assert(closing_text(DelimiterKind::Empty) =~= Seq::<char>::empty());
                        assert(models_text(output@) =~= Seq::<char>::empty());
                        assert(rendered_prefix(cells@) + groups_text(groups@) + models_text(output@)
                            =~= total);
                    }
                }
            } else if first == 13u8 {
                self.lex_carriage_return(&mut output)?;
                proof {
                    lemma_render_extend(prefix, out_before, output@, self.src(), start_pos, self.pos());
                    if groups@.len() == 0 {
                        lemma_kept_push(out_before, output@.last(), out_before.len() as int);
                    }
                }
            } else if first == 32u8 || first == 9u8 {
                self.lex_whitespace(&mut output)?;
                proof {
                    lemma_render_extend(prefix, out_before, output@, self.src(), start_pos, self.pos());
                    if groups@.len() == 0 {
                        lemma_kept_push(out_before, output@.last(), out_before.len() as int);
                    }
                }
            } else if let Some(width) = self.math_operator_width() {
                self.lex_math_operator(width, &mut output)?;
                proof {
                    lemma_render_extend(prefix, out_before, output@, self.src(), start_pos, self.pos());
                    if groups@.len() == 0 {
                        lemma_kept_push(out_before, output@.last(), out_before.len() as int);
                    }
                }
            } else if is_identifier_start(first) {
                self.lex_identifier(&mut output)?;
                proof {
                    lemma_render_extend(prefix, out_before, output@, self.src(), start_pos, self.pos());
                    if groups@.len() == 0 {
                        lemma_kept_push(out_before, output@.last(), out_before.len() as int);
                    }
                }
            } else if is_ascii_digit(first) || (first == 46u8 && match self.byte_after_current() {
                Some(b) => is_ascii_digit(b),
                None => false,
            }) {
                self.lex_number(&mut output)?;
                proof {
                    lemma_render_extend(prefix, out_before, output@, self.src(), start_pos, self.pos());
                    if groups@.len() == 0 {
                        lemma_kept_push(out_before, output@.last(), out_before.len() as int);
                    }
                }
            } else if first == 34u8 {
                self.lex_string(&mut output)?;
                proof {
                    lemma_render_extend(prefix, out_before, output@, self.src(), start_pos, self.pos());
                    if groups@.len() == 0 {
                        lemma_kept_push(out_before, output@.last(), out_before.len() as int);
                    }
                }
            } else if let Some((len, kind)) = self.take_punctuation_match() {
                self.lex_punctuation(
                    len,
                    kind,
                    &mut output,
                    &mut cells,
                    &mut cell_start,
                    &mut groups,
                )?;
            } else {
                let start = self.point;
                self.next();
                proof {
                    assert(!token_starts_at(self.src(), start_pos));
                }
                return Err(self.error(LexErrorKind::InvalidCharacter, start));
            }
        }
    }

    proof fn lemma_cells_wf_after_push(&self, cells: Seq<CellBlock>)
        requires
            cells.len() > 0,
            cells_wf(cells.drop_last()),
            cells.last().delimiter.kind == DelimiterKind::Empty && cells.last().stream@.len() > 0
                || cells.last().delimiter.kind == DelimiterKind::Semicolon,
        ensures
            cells_wf(cells),
    {
        assert forall|i: int| 0 <= i < cells.len() implies (#[trigger] cells[i]).delimiter.kind
            == DelimiterKind::Empty && cells[i].stream@.len() > 0 || cells[i].delimiter.kind
            == DelimiterKind::Semicolon by {
            if i < cells.len() - 1 {
                assert(cells[i] == cells.drop_last()[i]);
            }
        }
    }
}

impl<'a> NativeLexer<'a> {
    /// Handles one recognized punctuation prefix: a comment, a raw string, a
    /// delimiter, a top-level cell-ending semicolon, or ordinary punctuation.
    #[verifier::rlimit(100)]
    #[verifier::spinoff_prover]
    fn lex_punctuation(
        &mut self,
        len: usize,
        kind: PunctuationKind,
        output: &mut TokenStream,
        cells: &mut Vec<CellBlock>,
        cell_start: &mut TextPoint,
        groups: &mut Vec<OpenGroup>,
    ) -> (r: Result<(), LexError>)
        requires
            old(self).wf(),
            len >= 1,
            old(self).pos() + len <= old(self).src().len(),
            exists|i: int|
                0 <= i < punctuation_entries().len() && #[trigger] entry_matches(
                    old(self).src(),
                    old(self).pos(),
                    i,
                ) && len == encode_utf8(punctuation_entries()[i].0).len() && kind
                    == punctuation_entries()[i].1,
            forall|i: int|
                0 <= i < punctuation_entries().len() && #[trigger] entry_matches(
                    old(self).src(),
                    old(self).pos(),
                    i,
                ) ==> encode_utf8(punctuation_entries()[i].0).len() <= len,
            old(groups)@.len() <= MAX_GROUP_DEPTH,
            groups_open_at(old(self).src(), old(groups)@),
            cells_wf(old(cells)@),
            cells_split_at_breaks(old(cells)@, old(cells)@.len() as int),
            blocks_shaped(old(cells)@),
            groups_shaped(old(groups)@),
            models_shaped(old(output)@),
            blocks_munched(old(self).src(), old(cells)@),
            groups_munched(old(self).src(), old(groups)@),
            models_munched(old(self).src(), old(output)@),
            old(groups)@.len() == 0 ==> breaks_kept_open(old(output)@, old(output)@.len() as int),
            old(groups)@.len() > 0 ==> breaks_kept_open(
                old(groups)@[0].parent@,
                old(groups)@[0].parent@.len() as int,
            ),
            blocks_kept_open(old(cells)@),
            encode_utf8(rendered_prefix(old(cells)@) + groups_text(old(groups)@) + models_text(
                old(output)@,
            )) == old(self).src().subrange(0, old(self).pos()),
            forall|i: int, k: DelimiterKind|
                0 <= i < punctuation_entries().len() && punctuation_entries()[i].1
                    == PunctuationKind::Open(k) ==> punctuation_entries()[i].0 == opening_text(k),
            forall|i: int, k: DelimiterKind|
                0 <= i < punctuation_entries().len() && punctuation_entries()[i].1
                    == PunctuationKind::Close(k) ==> punctuation_entries()[i].0 == closing_text(k),
        ensures
            final(self).continues(old(self)),
            r matches Err(e) ==> lex_error_shown(old(self).src(), old(self).source_id, e),
            r is Ok ==> {
                &&& final(self).pos() > old(self).pos()
                &&& final(groups)@.len() <= MAX_GROUP_DEPTH
                &&& groups_open_at(final(self).src(), final(groups)@)
                &&& cells_wf(final(cells)@)
                &&& cells_split_at_breaks(final(cells)@, final(cells)@.len() as int)
                &&& blocks_shaped(final(cells)@)
                &&& groups_shaped(final(groups)@)
                &&& models_shaped(final(output)@)
                &&& blocks_munched(final(self).src(), final(cells)@)
                &&& groups_munched(final(self).src(), final(groups)@)
                &&& models_munched(final(self).src(), final(output)@)
                &&& final(groups)@.len() == 0 ==> breaks_kept_open(
                    final(output)@,
                    final(output)@.len() as int,
                )
                &&& final(groups)@.len() > 0 ==> breaks_kept_open(
                    final(groups)@[0].parent@,
                    final(groups)@[0].parent@.len() as int,
                )
                &&& blocks_kept_open(final(cells)@)
                &&& encode_utf8(rendered_prefix(final(cells)@) + groups_text(final(groups)@)
                    + models_text(final(output)@)) == final(self).src().subrange(
                    0,
                    final(self).pos(),
                )
            },
    {
        let ghost start_pos = self.pos();
        let ghost prefix = rendered_prefix(cells@) + groups_text(groups@);
        let ghost out_before = output@;
        let ghost witness = choose|i: int|
            0 <= i < punctuation_entries().len() && #[trigger] entry_matches(
                old(self).src(),
                old(self).pos(),
                i,
            ) && len == encode_utf8(punctuation_entries()[i].0).len() && kind
                == punctuation_entries()[i].1;
        proof {
            assert(self.src().subrange(start_pos, start_pos + len) == encode_utf8(
                punctuation_entries()[witness].0,
            ));
            crate::spelling::lemma_structural_spellings();
            assert(spells_at(self.src(), start_pos, punctuation_entries()[witness].0));
        }
        match kind {
            PunctuationKind::Ordinary => {
                let ends_cell = groups.len() == 0 && len == 1 && self.peek(0) == Some(59u8);
                if ends_cell {
                    let closing_start = self.point;
                    self.commit(len);
                    let closing = self.span_from(closing_start);
                    let ghost total = rendered_prefix(cells@) + groups_text(groups@) + models_text(
                        output@,
                    );
                    let ghost cells_before = cells@;
                    let ghost closed = output@;
                    self.finish_cell(output, cells, cell_start, DelimiterKind::Semicolon, closing);
                    proof {
                        assert(cells@.drop_last() == cells_before);
                        lemma_kept_weaken(closed, closed.len() as int, closed.len() - 1);
                        lemma_blocks_kept_push(cells@);
                        self.lemma_cells_wf_after_push(cells@);
                        lemma_split_push(cells@);
                        assert(groups_text(groups@) =~= Seq::<char>::empty());
                        assert(models_text(output@) =~= Seq::<char>::empty());
                        lemma_encode_semicolon();
                        assert(closing_text(DelimiterKind::Semicolon) =~= seq![';']);
                        assert(rendered_prefix(cells@) + groups_text(groups@) + models_text(output@)
                            =~= total + closing_text(DelimiterKind::Semicolon));
                        lemma_encode_utf8_append(total, closing_text(DelimiterKind::Semicolon));
                        assert(self.src().subrange(start_pos, start_pos + 1) =~= seq![59u8]);
                        assert(self.src().subrange(0, self.pos()) =~= self.src().subrange(
                            0,
                            start_pos,
                        ) + self.src().subrange(start_pos, start_pos + 1));
                    }
                } else {
                    proof {
                        assert(longest_punctuation_at(self.src(), start_pos, start_pos + len));
                    }
                    self.push_punctuation(len, output)?;
                    proof {
                        lemma_render_extend(prefix, out_before, output@, self.src(), start_pos, self.pos());
                    if groups@.len() == 0 {
                        lemma_kept_push(out_before, output@.last(), out_before.len() as int);
                    }
                    }
                }
            },
            PunctuationKind::LineComment => {
                self.lex_line_comment(len, output)?;
                proof {
                    lemma_render_extend(prefix, out_before, output@, self.src(), start_pos, self.pos());
                    if groups@.len() == 0 {
                        lemma_kept_push(out_before, output@.last(), out_before.len() as int);
                    }
                }
            },
            PunctuationKind::BlockComment => {
                let top_level = groups.len() == 0;
                let start_line = self.point.line;
                self.lex_block_comment(len, output)?;
                proof {
                    lemma_render_extend(prefix, out_before, output@, self.src(), start_pos, self.pos());
                    if groups@.len() == 0 {
                        lemma_kept_push(out_before, output@.last(), out_before.len() as int);
                    }
                }
                if top_level && self.point.line != start_line && newline_ends_cell(output) {
                    let closing = self.span(self.point, self.point);
                    let ghost total = rendered_prefix(cells@) + groups_text(groups@) + models_text(
                        output@,
                    );
                    let ghost cells_before = cells@;
                    let ghost closed = output@;
                    self.finish_cell(output, cells, cell_start, DelimiterKind::Empty, closing);
                    proof {
                        assert(cells@.drop_last() == cells_before);
                        lemma_kept_weaken(closed, closed.len() as int, closed.len() - 1);
                        lemma_blocks_kept_push(cells@);
                        self.lemma_cells_wf_after_push(cells@);
                        assert(ends_at_break(cells@.last().stream@)) by {
                            reveal(ends_at_break);
                        }
                        lemma_split_push(cells@);
                        assert(groups_text(groups@) =~= Seq::<char>::empty());
                        assert(closing_text(DelimiterKind::Empty) =~= Seq::<char>::empty());
                        assert(models_text(output@) =~= Seq::<char>::empty());
                        assert(rendered_prefix(cells@) + groups_text(groups@) + models_text(output@)
                            =~= total);
                    }
                }
            },
            PunctuationKind::RawString => {
                self.lex_raw_string(len, output)?;
                proof {
                    lemma_render_extend(prefix, out_before, output@, self.src(), start_pos, self.pos());
                    if groups@.len() == 0 {
                        lemma_kept_push(out_before, output@.last(), out_before.len() as int);
                    }
                }
            },
            PunctuationKind::Open(delimiter_kind) => {
                if groups.len() == MAX_GROUP_DEPTH {
                    proof {
                        lemma_reads_open(self.src(), start_pos, cells@, groups@, output@);
                        assert(group_kinds(groups@).len() == MAX_GROUP_DEPTH);
                        assert(is_paired(delimiter_kind) && spells_at(
                            self.src(),
                            start_pos,
                            opening_text(delimiter_kind),
                        ));
                    }
                    return Err(self.error(LexErrorKind::NestingLimitExceeded, self.point));
                }
                let opening_start = self.point;
                self.commit(len);
                let opening = self.span_from(opening_start);
                let ghost total = rendered_prefix(cells@) + groups_text(groups@) + models_text(
                    output@,
                );
                let parent = take_stream(output);
                let ghost before = groups@;
                groups.push(OpenGroup { kind: delimiter_kind, opening_start, opening, parent });
                proof {
                    lemma_groups_push(self.src(), before, groups@.last());
                    assert(groups@ == before.push(groups@.last()));
                    assert(models_shaped(output@));
                    if before.len() > 0 {
                        assert(groups@[0] == before[0]);
                    }
                    lemma_munched_empty(self.src());
                    assert(output@ =~= Seq::<TokenModel>::empty());
                    assert(groups_open_at(self.src(), groups@)) by {
                        assert forall|j: int| 0 <= j < groups@.len() implies {
                            let p = (#[trigger] groups@[j]).opening_start;
                            &&& p == point_at(self.src(), p.byte as int)
                            &&& is_paired(groups@[j].kind)
                            &&& spells_at(self.src(), p.byte as int, opening_text(groups@[j].kind))
                        } by {
                            if j < before.len() {
                                assert(groups@[j] == before[j]);
                            }
                        }
                    }
                    assert(groups@.drop_last() =~= before);
                    assert(models_text(output@) =~= Seq::<char>::empty());
                    let open = opening_text(delimiter_kind);
                    assert(punctuation_entries()[witness].0 == open);
                    assert(rendered_prefix(cells@) + groups_text(groups@) + models_text(output@)
                        =~= total + open);
                    lemma_encode_utf8_append(total, open);
                    assert(self.src().subrange(0, self.pos()) =~= self.src().subrange(
                        0,
                        start_pos,
                    ) + self.src().subrange(start_pos, self.pos()));
                }
            },
            PunctuationKind::Close(delimiter_kind) => {
                let closing_start = self.point;
                self.commit(len);
                let closing = self.span_from(closing_start);
                let ghost before = groups@;
                proof {
                    assert(is_paired(delimiter_kind) && spells_at(
                        self.src(),
                        start_pos,
                        closing_text(delimiter_kind),
                    ));
                }
                let group = match groups.pop() {
                    Some(group) => group,
                    None => {
                        proof {
                            lemma_reads_open(self.src(), start_pos, cells@, before, output@);
                        }
                        return Err(
                            self.error(LexErrorKind::UnexpectedClosingDelimiter, closing_start),
                        )
                    },
                };
                if group.kind != delimiter_kind {
                    proof {
                        lemma_reads_open(self.src(), start_pos, cells@, before, output@);
                        assert(group_kinds(before).last() == group.kind);
                    }
                    return Err(self.error(LexErrorKind::UnexpectedClosingDelimiter, closing_start));
                }
                let OpenGroup { kind: _, opening_start: _, opening, parent } = group;
                let contents = take_stream(output);
                let ghost contents_text = models_text(contents@);
                *output = parent;
                let new_group = Group::new(
                    Delimiter::new(delimiter_kind, opening.join(closing)),
                    contents,
                );
                let ghost parent_model = output@;
                output.push_group(new_group);
                proof {
                    lemma_stream_munched(self.src(), new_group.stream@);
                    lemma_shaped_push(parent_model, TokenTree::Group(new_group)@);
                    lemma_munched_push(self.src(), parent_model, TokenTree::Group(new_group)@);
                    if groups@.len() == 0 {
                        assert(before.len() == 1);
                        assert(parent_model == before[0].parent@);
                        lemma_kept_push(parent_model, TokenTree::Group(new_group)@, parent_model.len() as int);
                    } else {
                        assert(groups@[0] == before[0]);
                    }
                    assert(groups_munched(self.src(), groups@)) by {
                        reveal(groups_munched);
                        assert forall|j: int| 0 <= j < groups@.len() implies models_munched(
                            self.src(),
                            #[trigger] groups@[j].parent@,
                        ) by {
                            assert(groups@[j] == before[j]);
                        }
                    }
                    assert(models_munched(self.src(), before[before.len() - 1].parent@)) by {
                        reveal(groups_munched);
                    }
                    reveal(groups_shaped);
                    assert(groups_shaped(groups@)) by {
                        assert forall|j: int| 0 <= j < groups@.len() implies models_shaped(
                            #[trigger] groups@[j].parent@,
                        ) by {
                            assert(groups@[j] == before[j]);
                        }
                    }
                    let close = closing_text(delimiter_kind);
                    let open = opening_text(delimiter_kind);
                    assert(punctuation_entries()[witness].0 == close);
                    assert(before.drop_last() =~= groups@);
                    crate::token_stream::lemma_models_text_push(
                        parent_model,
                        TokenTree::Group(new_group)@,
                    );
                    let rest = rendered_prefix(cells@) + groups_text(groups@);
                    assert(groups_text(before) == groups_text(groups@) + models_text(parent_model)
                        + open);
                    assert(rest + models_text(output@) =~= (rest + models_text(parent_model) + open
                        + contents_text) + close);
                    lemma_encode_utf8_append(rest + models_text(parent_model) + open + contents_text, close);
                    assert(rendered_prefix(cells@) + groups_text(before) + models_text(out_before)
                        =~= rest + models_text(parent_model) + open + contents_text);
                    assert(self.src().subrange(0, self.pos()) =~= self.src().subrange(
                        0,
                        start_pos,
                    ) + self.src().subrange(start_pos, self.pos()));
                }
            },
        }
        Ok(())
    }
}

proof fn lemma_models_shaped_index(s: Seq<TokenModel>, j: int)
    requires
        models_shaped(s),
        0 <= j < s.len(),
    ensures
        model_shaped(s[j]),
    decreases s.len(),
{
    if j < s.len() - 1 {
        let t = s.subrange(0, s.len() - 1);
        lemma_models_shaped_index(t, j);
        assert(t[j] == s[j]);
    }
}

/// A lexed number literal is a float exactly when, without a radix prefix
/// such as `0x`, it holds a fraction point, a precision mark `p` or an
/// exponent `e`/`E`; every other number is an integer.
pub proof fn law_number_kind_follows_its_marks(
    source: Seq<char>,
    source_id: SourceId,
    cells: CellStream,
    i: int,
    j: int,
)
    requires
        lexes_to(source, source_id, cells),
        0 <= i < cells@.len(),
        0 <= j < cells@[i].stream.len(),
        cells@[i].stream[j] is Literal,
        cells@[i].stream[j]->Literal_kind is Integer || cells@[i].stream[j]->Literal_kind is Float,
    ensures
        cells@[i].stream[j]->Literal_kind is Float <==> marks_float(
            encode_utf8(cells@[i].stream[j]->Literal_text),
        ),
{
    assert(models_shaped(cells@[i].stream));
    lemma_models_shaped_index(cells@[i].stream, j);
}

} // verus!
