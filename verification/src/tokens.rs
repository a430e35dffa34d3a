//! Closed typed tokens: checked refinements of raw token atoms.
//!
//! Every token kind of the syntax schema is identified by its index in one
//! spelling table. A typed token [`Tok`] retains the raw atom it was parsed
//! from, so emission reproduces that atom exactly; a freshly built token gets
//! the canonical spelling. Punctuation tokens are raw punctuation, word
//! tokens are identifiers (optionally qualified as `Core$word`), and the
//! explicit `SPACE` operator is either implicit whitespace or the `SPACE`
//! identifier.
use vstd::prelude::*;

use crate::cst::Token;
use crate::lexer::core_prefix;
use crate::parse::{complete_outcome, eof_span_of, token_outcome, Parse, ParseStream, TokenParseError};
use crate::span::{Span, Spanned};
use crate::token_stream::{
    model_span, str_eq, IdentToken, Punct, ToTokens, TokenModel, TokenStream, TokenTree, Trivia,
    TriviaKind,
};

verus! {

/// The number of token kinds in the spelling table.
pub const TOKEN_KIND_COUNT: u16 = 148;

/// The index of the explicit-adjacency operator `SPACE`.
pub const SPACE_KIND: u16 = 99;

/// The kind of the semicolon token.
pub const SEMICOLON_KIND: u16 = 146;

/// The canonical spelling of token kind `k`.
pub open spec fn token_spelling(k: u16) -> Seq<char> {
    match k {
        0 => "!="@,
        1 => "#"@,
        2 => "#?"@,
        3 => "%"@,
        4 => "%="@,
        5 => "&"@,
        6 => "&="@,
        7 => "*"@,
        8 => "*="@,
        9 => "**"@,
        10 => "**="@,
        11 => "+"@,
        12 => "+="@,
        13 => "++"@,
        14 => "++="@,
        15 => "-"@,
        16 => "-="@,
        17 => "->"@,
        18 => "."@,
        19 => ".."@,
        20 => "..="@,
        21 => "..<"@,
        22 => "..<="@,
        23 => ".?"@,
        24 => "/"@,
        25 => "/="@,
        26 => "//"@,
        27 => "//="@,
        28 => ":"@,
        29 => ":="@,
        30 => "<"@,
        31 => "<-"@,
        32 => "<<"@,
        33 => "<<="@,
        34 => "<="@,
        35 => "<=="@,
        36 => "<==="@,
        37 => "<==>"@,
        38 => "<==>="@,
        39 => "="@,
        40 => "=!="@,
        41 => "=="@,
        42 => "==="@,
        43 => "===>"@,
        44 => "===>="@,
        45 => "==>"@,
        46 => "==>="@,
        47 => "=>"@,
        48 => ">"@,
        49 => ">="@,
        50 => ">>"@,
        51 => ">>="@,
        52 => "?"@,
        53 => "??"@,
        54 => "??="@,
        55 => "@"@,
        56 => "@="@,
        57 => "@@"@,
        58 => "@@="@,
        59 => "@@?"@,
        60 => "@@?="@,
        61 => "\\"@,
        62 => "\\="@,
        63 => "\\\\"@,
        64 => "\\\\="@,
        65 => "^"@,
        66 => "^="@,
        67 => "^**"@,
        68 => "^**="@,
        69 => "^<"@,
        70 => "^<="@,
        71 => "^>"@,
        72 => "^>="@,
        73 => "^^"@,
        74 => "^^="@,
        75 => "_"@,
        76 => "_="@,
        77 => "_<"@,
        78 => "_<="@,
        79 => "_>"@,
        80 => "_>="@,
        81 => "|"@,
        82 => "|="@,
        83 => "|-"@,
        84 => "|-="@,
        85 => "|_"@,
        86 => "|_="@,
        87 => "||"@,
        88 => "||="@,
        89 => "~"@,
        90 => "~="@,
        91 => "\u{b7}"@,
        92 => "\u{b7}="@,
        93 => "\u{22a0}"@,
        94 => "\u{22a0}="@,
        95 => "\u{29e2}"@,
        96 => "\u{29e2}="@,
        97 => "and"@,
        98 => "or"@,
        99 => "SPACE"@,
        100 => "xor"@,
        101 => "!"@,
        102 => "(*)"@,
        103 => "^!"@,
        104 => "^*"@,
        105 => "^~"@,
        106 => "_!"@,
        107 => "_*"@,
        108 => "_~"@,
        109 => "not"@,
        110 => "break"@,
        111 => "breakpoint"@,
        112 => "catch"@,
        113 => "continue"@,
        114 => "do"@,
        115 => "elapsedTime"@,
        116 => "elapsedTiming"@,
        117 => "else"@,
        118 => "except"@,
        119 => "finish"@,
        120 => "for"@,
        121 => "from"@,
        122 => "global"@,
        123 => "if"@,
        124 => "in"@,
        125 => "list"@,
        126 => "local"@,
        127 => "new"@,
        128 => "of"@,
        129 => "profile"@,
        130 => "return"@,
        131 => "shield"@,
        132 => "step"@,
        133 => "symbol"@,
        134 => "TEST"@,
        135 => "then"@,
        136 => "threadLocal"@,
        137 => "threadVariable"@,
        138 => "throw"@,
        139 => "time"@,
        140 => "timing"@,
        141 => "to"@,
        142 => "trap"@,
        143 => "try"@,
        144 => "when"@,
        145 => "while"@,
        146 => ";"@,
        147 => ","@,
        _ => seq![],
    }
}

/// The canonical spelling of token kind `k`.
pub fn token_text(k: u16) -> (text: &'static str)
    requires
        k < TOKEN_KIND_COUNT,
    ensures
        text@ == token_spelling(k),
{
    match k {
        0 => "!=",
        1 => "#",
        2 => "#?",
        3 => "%",
        4 => "%=",
        5 => "&",
        6 => "&=",
        7 => "*",
        8 => "*=",
        9 => "**",
        10 => "**=",
        11 => "+",
        12 => "+=",
        13 => "++",
        14 => "++=",
        15 => "-",
        16 => "-=",
        17 => "->",
        18 => ".",
        19 => "..",
        20 => "..=",
        21 => "..<",
        22 => "..<=",
        23 => ".?",
        24 => "/",
        25 => "/=",
        26 => "//",
        27 => "//=",
        28 => ":",
        29 => ":=",
        30 => "<",
        31 => "<-",
        32 => "<<",
        33 => "<<=",
        34 => "<=",
        35 => "<==",
        36 => "<===",
        37 => "<==>",
        38 => "<==>=",
        39 => "=",
        40 => "=!=",
        41 => "==",
        42 => "===",
        43 => "===>",
        44 => "===>=",
        45 => "==>",
        46 => "==>=",
        47 => "=>",
        48 => ">",
        49 => ">=",
        50 => ">>",
        51 => ">>=",
        52 => "?",
        53 => "??",
        54 => "??=",
        55 => "@",
        56 => "@=",
        57 => "@@",
        58 => "@@=",
        59 => "@@?",
        60 => "@@?=",
        61 => "\\",
        62 => "\\=",
        63 => "\\\\",
        64 => "\\\\=",
        65 => "^",
        66 => "^=",
        67 => "^**",
        68 => "^**=",
        69 => "^<",
        70 => "^<=",
        71 => "^>",
        72 => "^>=",
        73 => "^^",
        74 => "^^=",
        75 => "_",
        76 => "_=",
        77 => "_<",
        78 => "_<=",
        79 => "_>",
        80 => "_>=",
        81 => "|",
        82 => "|=",
        83 => "|-",
        84 => "|-=",
        85 => "|_",
        86 => "|_=",
        87 => "||",
        88 => "||=",
        89 => "~",
        90 => "~=",
        91 => "\u{b7}",
        92 => "\u{b7}=",
        93 => "\u{22a0}",
        94 => "\u{22a0}=",
        95 => "\u{29e2}",
        96 => "\u{29e2}=",
        97 => "and",
        98 => "or",
        99 => "SPACE",
        100 => "xor",
        101 => "!",
        102 => "(*)",
        103 => "^!",
        104 => "^*",
        105 => "^~",
        106 => "_!",
        107 => "_*",
        108 => "_~",
        109 => "not",
        110 => "break",
        111 => "breakpoint",
        112 => "catch",
        113 => "continue",
        114 => "do",
        115 => "elapsedTime",
        116 => "elapsedTiming",
        117 => "else",
        118 => "except",
        119 => "finish",
        120 => "for",
        121 => "from",
        122 => "global",
        123 => "if",
        124 => "in",
        125 => "list",
        126 => "local",
        127 => "new",
        128 => "of",
        129 => "profile",
        130 => "return",
        131 => "shield",
        132 => "step",
        133 => "symbol",
        134 => "TEST",
        135 => "then",
        136 => "threadLocal",
        137 => "threadVariable",
        138 => "throw",
        139 => "time",
        140 => "timing",
        141 => "to",
        142 => "trap",
        143 => "try",
        144 => "when",
        145 => "while",
        146 => ";",
        _ => ",",
    }
}

/// The raw shape of the atoms of one token kind.
#[derive(Debug, Clone, Copy, PartialEq, Eq, Structural)]
pub enum AtomShape {
    Punct,
    Word,
    Space,
}

pub open spec fn token_shape(k: u16) -> AtomShape {
    if k == SPACE_KIND {
        AtomShape::Space
    } else if (97 <= k && k <= 98) || k == 100 || (109 <= k && k <= 145) {
        AtomShape::Word
    } else {
        AtomShape::Punct
    }
}

pub fn shape_of(k: u16) -> (shape: AtomShape)
    ensures
        shape == token_shape(k),
{
    if k == SPACE_KIND {
        AtomShape::Space
    } else if (97 <= k && k <= 98) || k == 100 || (109 <= k && k <= 145) {
        AtomShape::Word
    } else {
        AtomShape::Punct
    }
}

/// Kinds that may stand as the operator of a binary expression.
pub open spec fn is_binary_kind(k: u16) -> bool {
    (0 <= k && k <= 16) || (18 <= k && k <= 30) || (32 <= k && k <= 38) || (40 <= k && k <= 46) || (48 <= k && k <= 100)
}

/// Kinds that may stand as the operator of a prefix expression.
pub open spec fn is_prefix_kind(k: u16) -> bool {
    k == 1 || k == 7 || k == 11 || k == 15 || k == 30 || k == 32 || (34 <= k && k <= 36) || (48 <= k && k <= 49) || (52 <= k && k <= 53) || k == 83 || k == 89 || k == 109
}

/// Kinds that may stand as the operator of a postfix expression.
pub open spec fn is_postfix_kind(k: u16) -> bool {
    (101 <= k && k <= 108)
}

pub fn binary_kind(k: u16) -> (r: bool)
    ensures
        r == is_binary_kind(k),
{
    (0 <= k && k <= 16) || (18 <= k && k <= 30) || (32 <= k && k <= 38) || (40 <= k && k <= 46) || (48 <= k && k <= 100)
}

pub fn prefix_kind(k: u16) -> (r: bool)
    ensures
        r == is_prefix_kind(k),
{
    k == 1 || k == 7 || k == 11 || k == 15 || k == 30 || k == 32 || (34 <= k && k <= 36) || (48 <= k && k <= 49) || (52 <= k && k <= 53) || k == 83 || k == 89 || k == 109
}

pub fn postfix_kind(k: u16) -> (r: bool)
    ensures
        r == is_postfix_kind(k),
{
    (101 <= k && k <= 108)
}

/// `Core$` followed by `word`: the explicitly qualified form of a word token.
pub open spec fn core_qualified(word: Seq<char>) -> Seq<char> {
    core_prefix() + word
}

/// Whether raw atom `m` is an atom of token kind `k`.
pub open spec fn token_matches(k: u16, m: TokenModel) -> bool {
    &&& k < TOKEN_KIND_COUNT
    &&& match token_shape(k) {
        AtomShape::Punct => m matches TokenModel::Punct { text, .. } && text == token_spelling(k),
        AtomShape::Word => m matches TokenModel::Ident { text, .. } && (text == token_spelling(k)
            || text == core_qualified(token_spelling(k))),
        AtomShape::Space => (m matches TokenModel::Trivia { kind, text, .. } && kind
            == TriviaKind::Whitespace && !text.contains('\n')) || (m matches TokenModel::Ident {
            text,
            ..
        } && text == token_spelling(k)),
    }
}

/// The atom a freshly constructed token of kind `k` carries.
pub open spec fn fresh_token_model(k: u16, span: Span) -> TokenModel {
    match token_shape(k) {
        AtomShape::Punct => TokenModel::Punct { text: token_spelling(k), span },
        AtomShape::Word => TokenModel::Ident { text: token_spelling(k), span },
        AtomShape::Space => TokenModel::Trivia {
            kind: TriviaKind::Whitespace,
            text: seq![' '],
            span,
        },
    }
}

/// The spelling of the semicolon kind.
pub proof fn lemma_semicolon_spelling()
    ensures
        token_spelling(SEMICOLON_KIND) == seq![';'],
{
    reveal_strlit(";");
    assert(token_spelling(SEMICOLON_KIND) =~= seq![';']);
}

/// A fresh semicolon is the punctuation `;`.
pub proof fn lemma_fresh_semicolon(span: Span)
    ensures
        fresh_token_model(SEMICOLON_KIND, span) == (TokenModel::Punct { text: seq![';'], span }),
{
    reveal_strlit(";");
    assert(token_spelling(SEMICOLON_KIND) =~= seq![';']);
}

/// Whether `text` is `word` qualified by `Core$`.
pub fn is_core_qualified(text: &str, word: &str) -> (r: bool)
    ensures
        r == (text@ == core_qualified(word@)),
{
    let len = text.unicode_len();
    if len < 5 {
        return false;
    }
    if !(text.get_char(0) == 'C' && text.get_char(1) == 'o' && text.get_char(2) == 'r'
        && text.get_char(3) == 'e' && text.get_char(4) == '$') {
        proof {
            if text@ == core_qualified(word@) {
                assert(text@[0] == core_qualified(word@)[0]);
                assert(text@[1] == core_qualified(word@)[1]);
                assert(text@[2] == core_qualified(word@)[2]);
                assert(text@[3] == core_qualified(word@)[3]);
                assert(text@[4] == core_qualified(word@)[4]);
            }
        }
        return false;
    }
    let rest = text.substring_char(5, len);
    let r = str_eq(rest, word);
    proof {
        if r {
            assert(text@ =~= core_qualified(word@));
        } else if text@ == core_qualified(word@) {
            assert(rest@ =~= word@);
        }
    }
    r
}

/// Whether raw tree `token` is an atom of token kind `k`.
pub fn kind_matches(k: u16, token: &TokenTree) -> (r: bool)
    ensures
        r == token_matches(k, token@),
{
    if k >= TOKEN_KIND_COUNT {
        return false;
    }
    let spelling = token_text(k);
    match shape_of(k) {
        AtomShape::Punct => match token {
            TokenTree::Punct(p) => str_eq(p.text.as_str(), spelling),
            _ => false,
        },
        AtomShape::Word => match token {
            TokenTree::Ident(i) => str_eq(i.text.as_str(), spelling) || is_core_qualified(
                i.text.as_str(),
                spelling,
            ),
            _ => false,
        },
        AtomShape::Space => match token {
            TokenTree::Trivia(t) => t.kind == TriviaKind::Whitespace && !t.contains_line_break(),
            TokenTree::Ident(i) => str_eq(i.text.as_str(), spelling),
            _ => false,
        },
    }
}

/// A fresh raw atom of token kind `k` at `span`.
pub fn fresh_token(k: u16, span: Span) -> (token: TokenTree)
    requires
        k < TOKEN_KIND_COUNT,
    ensures
        token@ == fresh_token_model(k, span),
        token_matches(k, token@),
{
    let spelling = token_text(k);
    match shape_of(k) {
        AtomShape::Punct => TokenTree::Punct(Punct::new(spelling, span)),
        AtomShape::Word => TokenTree::Ident(IdentToken::new(spelling, span)),
        AtomShape::Space => {
            let space = Trivia::new(TriviaKind::Whitespace, " ", span);
            proof {
                reveal_strlit(" ");
                assert(space.text@ =~= seq![' ']);
            }
            TokenTree::Trivia(space)
        },
    }
}

/// A typed token of kind `K`, retaining the raw atom it stands for.
#[derive(Debug, PartialEq, Eq)]
pub struct Tok<const K: u16> {
    raw: TokenTree,
}

impl<const K: u16> Tok<K> {
    /// The raw atom this token retains.
    pub closed spec fn raw_model(&self) -> TokenModel {
        self.raw@
    }

    /// A typed token always retains an atom of its own kind.
    #[verifier::type_invariant]
    pub closed spec fn retains_own_kind(&self) -> bool {
        token_matches(K, self.raw@)
    }

    /// The retained atom is of this token's kind.
    pub fn check_kind(&self)
        ensures
            token_matches(K, self.raw_model()),
    {
        proof {
            use_type_invariant(self);
        }
    }

    /// A token of kind `K` with its canonical spelling at `span`.
    pub fn new(span: Span) -> (token: Self)
        requires
            K < TOKEN_KIND_COUNT,
        ensures
            token.raw_model() == fresh_token_model(K, span),
    {
        Tok { raw: fresh_token(K, span) }
    }

    /// The index of this token's kind in the spelling table.
    pub fn kind(&self) -> (k: u16)
        ensures
            k == K,
    {
        K
    }

    /// The canonical spelling of this token's kind.
    pub fn spelling(&self) -> (text: &'static str)
        requires
            K < TOKEN_KIND_COUNT,
        ensures
            text@ == token_spelling(K),
    {
        token_text(K)
    }

    /// Borrows the retained raw atom.
    pub fn raw(&self) -> (raw: &TokenTree)
        ensures
            raw@ == self.raw_model(),
    {
        &self.raw
    }

    /// Releases the retained raw atom.
    pub fn into_raw(self) -> (raw: TokenTree)
        ensures
            raw@ == self.raw_model(),
    {
        self.raw
    }

    /// A structurally equal copy of this token.
    pub fn duplicate(&self) -> (copy: Self)
        ensures
            copy.raw_model() == self.raw_model(),
    {
        proof {
            use_type_invariant(self);
        }
        Tok { raw: self.raw.duplicate() }
    }
}

impl<const K: u16> Token for Tok<K> {
    open spec fn spec_matches(token: TokenModel) -> bool {
        token_matches(K, token)
    }

    open spec fn spec_raw(&self) -> TokenModel {
        self.raw_model()
    }

    open spec fn spec_spelling() -> Seq<char> {
        token_spelling(K)
    }

    fn spelling_text() -> (text: &'static str) {
        if K < TOKEN_KIND_COUNT {
            token_text(K)
        } else {
            proof {
                reveal_strlit("");
            }
            ""
        }
    }

    fn matches_token_tree(token: &TokenTree) -> (r: bool) {
        kind_matches(K, token)
    }

    fn from_token_tree(token: TokenTree) -> (r: Option<Self>) {
        if kind_matches(K, &token) {
            Some(Tok { raw: token })
        } else {
            None
        }
    }
}

impl<const K: u16> Spanned for Tok<K> {
    open spec fn spec_span(&self) -> Span {
        model_span(self.raw_model())
    }

    fn span(&self) -> (span: Span) {
        let span = self.raw.span();
        proof {
            assert(self.spec_span() == model_span(self.raw_model()));
        }
        span
    }
}

impl<const K: u16> ToTokens for Tok<K> {
    open spec fn spec_tokens(&self) -> Seq<TokenModel> {
        seq![self.raw_model()]
    }

    fn to_tokens(&self, output: &mut TokenStream) {
        let raw = self.raw.duplicate();
        let ghost before = output@;
        output.push(raw);
        proof {
            assert(self.spec_tokens() == seq![self.raw_model()]);
            assert(output@ =~= before + seq![self.raw_model()]);
        }
    }
}

/// How an operator token binds, as declared by the syntax schema.
#[derive(Debug, Clone, Copy, PartialEq, Eq, Structural)]
pub enum OperatorForm {
    /// Only between two operands.
    Binary,
    /// Between two operands or before one.
    PrefixBinary,
    /// Only before one operand.
    Prefix,
    /// Only after one operand.
    Postfix,
}

/// The precedence and binding strengths of one operator token.
#[derive(Debug, Clone, Copy, PartialEq, Eq, Structural)]
pub struct OperatorInfo {
    pub form: OperatorForm,
    pub precedence: u8,
    pub binary_strength: u8,
    pub unary_strength: u8,
}

/// The declared binding of operator kind `k`; `None` for kinds that are not operators.
pub open spec fn operator_info(k: u16) -> Option<OperatorInfo> {
    match k {
        0 => Some(OperatorInfo { form: OperatorForm::Binary, precedence: 36, binary_strength: 35, unary_strength: 0 }),
        1 => Some(OperatorInfo { form: OperatorForm::PrefixBinary, precedence: 70, binary_strength: 70, unary_strength: 61 }),
        2 => Some(OperatorInfo { form: OperatorForm::Binary, precedence: 70, binary_strength: 70, unary_strength: 0 }),
        3 => Some(OperatorInfo { form: OperatorForm::Binary, precedence: 58, binary_strength: 58, unary_strength: 0 }),
        4 => Some(OperatorInfo { form: OperatorForm::Binary, precedence: 14, binary_strength: 13, unary_strength: 0 }),
        5 => Some(OperatorInfo { form: OperatorForm::Binary, precedence: 46, binary_strength: 46, unary_strength: 0 }),
        6 => Some(OperatorInfo { form: OperatorForm::Binary, precedence: 14, binary_strength: 13, unary_strength: 0 }),
        7 => Some(OperatorInfo { form: OperatorForm::PrefixBinary, precedence: 58, binary_strength: 58, unary_strength: 58 }),
        8 => Some(OperatorInfo { form: OperatorForm::Binary, precedence: 14, binary_strength: 13, unary_strength: 0 }),
        9 => Some(OperatorInfo { form: OperatorForm::Binary, precedence: 54, binary_strength: 54, unary_strength: 0 }),
        10 => Some(OperatorInfo { form: OperatorForm::Binary, precedence: 14, binary_strength: 13, unary_strength: 0 }),
        11 => Some(OperatorInfo { form: OperatorForm::PrefixBinary, precedence: 50, binary_strength: 50, unary_strength: 50 }),
        12 => Some(OperatorInfo { form: OperatorForm::Binary, precedence: 14, binary_strength: 13, unary_strength: 0 }),
        13 => Some(OperatorInfo { form: OperatorForm::Binary, precedence: 50, binary_strength: 50, unary_strength: 0 }),
        14 => Some(OperatorInfo { form: OperatorForm::Binary, precedence: 14, binary_strength: 13, unary_strength: 0 }),
        15 => Some(OperatorInfo { form: OperatorForm::PrefixBinary, precedence: 50, binary_strength: 50, unary_strength: 50 }),
        16 => Some(OperatorInfo { form: OperatorForm::Binary, precedence: 14, binary_strength: 13, unary_strength: 0 }),
        17 => Some(OperatorInfo { form: OperatorForm::Binary, precedence: 14, binary_strength: 13, unary_strength: 0 }),
        18 => Some(OperatorInfo { form: OperatorForm::Binary, precedence: 70, binary_strength: 70, unary_strength: 0 }),
        19 => Some(OperatorInfo { form: OperatorForm::Binary, precedence: 48, binary_strength: 48, unary_strength: 0 }),
        20 => Some(OperatorInfo { form: OperatorForm::Binary, precedence: 14, binary_strength: 13, unary_strength: 0 }),
        21 => Some(OperatorInfo { form: OperatorForm::Binary, precedence: 48, binary_strength: 48, unary_strength: 0 }),
        22 => Some(OperatorInfo { form: OperatorForm::Binary, precedence: 14, binary_strength: 13, unary_strength: 0 }),
        23 => Some(OperatorInfo { form: OperatorForm::Binary, precedence: 70, binary_strength: 70, unary_strength: 0 }),
        24 => Some(OperatorInfo { form: OperatorForm::Binary, precedence: 58, binary_strength: 58, unary_strength: 0 }),
        25 => Some(OperatorInfo { form: OperatorForm::Binary, precedence: 14, binary_strength: 13, unary_strength: 0 }),
        26 => Some(OperatorInfo { form: OperatorForm::Binary, precedence: 58, binary_strength: 58, unary_strength: 0 }),
        27 => Some(OperatorInfo { form: OperatorForm::Binary, precedence: 14, binary_strength: 13, unary_strength: 0 }),
        28 => Some(OperatorInfo { form: OperatorForm::Binary, precedence: 40, binary_strength: 39, unary_strength: 0 }),
        29 => Some(OperatorInfo { form: OperatorForm::Binary, precedence: 14, binary_strength: 13, unary_strength: 0 }),
        30 => Some(OperatorInfo { form: OperatorForm::PrefixBinary, precedence: 36, binary_strength: 35, unary_strength: 36 }),
        31 => Some(OperatorInfo { form: OperatorForm::Binary, precedence: 14, binary_strength: 13, unary_strength: 0 }),
        32 => Some(OperatorInfo { form: OperatorForm::PrefixBinary, precedence: 18, binary_strength: 18, unary_strength: 18 }),
        33 => Some(OperatorInfo { form: OperatorForm::Binary, precedence: 14, binary_strength: 13, unary_strength: 0 }),
        34 => Some(OperatorInfo { form: OperatorForm::PrefixBinary, precedence: 36, binary_strength: 35, unary_strength: 36 }),
        35 => Some(OperatorInfo { form: OperatorForm::PrefixBinary, precedence: 26, binary_strength: 25, unary_strength: 26 }),
        36 => Some(OperatorInfo { form: OperatorForm::PrefixBinary, precedence: 22, binary_strength: 21, unary_strength: 22 }),
        37 => Some(OperatorInfo { form: OperatorForm::Binary, precedence: 24, binary_strength: 23, unary_strength: 0 }),
        38 => Some(OperatorInfo { form: OperatorForm::Binary, precedence: 14, binary_strength: 13, unary_strength: 0 }),
        39 => Some(OperatorInfo { form: OperatorForm::Binary, precedence: 14, binary_strength: 13, unary_strength: 0 }),
        40 => Some(OperatorInfo { form: OperatorForm::Binary, precedence: 36, binary_strength: 35, unary_strength: 0 }),
        41 => Some(OperatorInfo { form: OperatorForm::Binary, precedence: 36, binary_strength: 35, unary_strength: 0 }),
        42 => Some(OperatorInfo { form: OperatorForm::Binary, precedence: 36, binary_strength: 35, unary_strength: 0 }),
        43 => Some(OperatorInfo { form: OperatorForm::Binary, precedence: 22, binary_strength: 21, unary_strength: 0 }),
        44 => Some(OperatorInfo { form: OperatorForm::Binary, precedence: 14, binary_strength: 13, unary_strength: 0 }),
        45 => Some(OperatorInfo { form: OperatorForm::Binary, precedence: 26, binary_strength: 25, unary_strength: 0 }),
        46 => Some(OperatorInfo { form: OperatorForm::Binary, precedence: 14, binary_strength: 13, unary_strength: 0 }),
        47 => Some(OperatorInfo { form: OperatorForm::Binary, precedence: 14, binary_strength: 13, unary_strength: 0 }),
        48 => Some(OperatorInfo { form: OperatorForm::PrefixBinary, precedence: 36, binary_strength: 35, unary_strength: 36 }),
        49 => Some(OperatorInfo { form: OperatorForm::PrefixBinary, precedence: 36, binary_strength: 35, unary_strength: 36 }),
        50 => Some(OperatorInfo { form: OperatorForm::Binary, precedence: 14, binary_strength: 13, unary_strength: 0 }),
        51 => Some(OperatorInfo { form: OperatorForm::Binary, precedence: 14, binary_strength: 13, unary_strength: 0 }),
        52 => Some(OperatorInfo { form: OperatorForm::PrefixBinary, precedence: 36, binary_strength: 35, unary_strength: 36 }),
        53 => Some(OperatorInfo { form: OperatorForm::PrefixBinary, precedence: 28, binary_strength: 27, unary_strength: 28 }),
        54 => Some(OperatorInfo { form: OperatorForm::Binary, precedence: 14, binary_strength: 13, unary_strength: 0 }),
        55 => Some(OperatorInfo { form: OperatorForm::Binary, precedence: 60, binary_strength: 59, unary_strength: 0 }),
        56 => Some(OperatorInfo { form: OperatorForm::Binary, precedence: 14, binary_strength: 13, unary_strength: 0 }),
        57 => Some(OperatorInfo { form: OperatorForm::Binary, precedence: 66, binary_strength: 66, unary_strength: 0 }),
        58 => Some(OperatorInfo { form: OperatorForm::Binary, precedence: 14, binary_strength: 13, unary_strength: 0 }),
        59 => Some(OperatorInfo { form: OperatorForm::Binary, precedence: 66, binary_strength: 66, unary_strength: 0 }),
        60 => Some(OperatorInfo { form: OperatorForm::Binary, precedence: 14, binary_strength: 13, unary_strength: 0 }),
        61 => Some(OperatorInfo { form: OperatorForm::Binary, precedence: 58, binary_strength: 57, unary_strength: 0 }),
        62 => Some(OperatorInfo { form: OperatorForm::Binary, precedence: 14, binary_strength: 13, unary_strength: 0 }),
        63 => Some(OperatorInfo { form: OperatorForm::Binary, precedence: 58, binary_strength: 57, unary_strength: 0 }),
        64 => Some(OperatorInfo { form: OperatorForm::Binary, precedence: 14, binary_strength: 13, unary_strength: 0 }),
        65 => Some(OperatorInfo { form: OperatorForm::Binary, precedence: 70, binary_strength: 70, unary_strength: 0 }),
        66 => Some(OperatorInfo { form: OperatorForm::Binary, precedence: 14, binary_strength: 13, unary_strength: 0 }),
        67 => Some(OperatorInfo { form: OperatorForm::Binary, precedence: 70, binary_strength: 70, unary_strength: 0 }),
        68 => Some(OperatorInfo { form: OperatorForm::Binary, precedence: 14, binary_strength: 13, unary_strength: 0 }),
        69 => Some(OperatorInfo { form: OperatorForm::Binary, precedence: 70, binary_strength: 70, unary_strength: 0 }),
        70 => Some(OperatorInfo { form: OperatorForm::Binary, precedence: 70, binary_strength: 70, unary_strength: 0 }),
        71 => Some(OperatorInfo { form: OperatorForm::Binary, precedence: 70, binary_strength: 70, unary_strength: 0 }),
        72 => Some(OperatorInfo { form: OperatorForm::Binary, precedence: 70, binary_strength: 70, unary_strength: 0 }),
        73 => Some(OperatorInfo { form: OperatorForm::Binary, precedence: 44, binary_strength: 44, unary_strength: 0 }),
        74 => Some(OperatorInfo { form: OperatorForm::Binary, precedence: 14, binary_strength: 13, unary_strength: 0 }),
        75 => Some(OperatorInfo { form: OperatorForm::Binary, precedence: 70, binary_strength: 70, unary_strength: 0 }),
        76 => Some(OperatorInfo { form: OperatorForm::Binary, precedence: 14, binary_strength: 13, unary_strength: 0 }),
        77 => Some(OperatorInfo { form: OperatorForm::Binary, precedence: 70, binary_strength: 70, unary_strength: 0 }),
        78 => Some(OperatorInfo { form: OperatorForm::Binary, precedence: 70, binary_strength: 70, unary_strength: 0 }),
        79 => Some(OperatorInfo { form: OperatorForm::Binary, precedence: 70, binary_strength: 70, unary_strength: 0 }),
        80 => Some(OperatorInfo { form: OperatorForm::Binary, precedence: 70, binary_strength: 70, unary_strength: 0 }),
        81 => Some(OperatorInfo { form: OperatorForm::Binary, precedence: 42, binary_strength: 42, unary_strength: 0 }),
        82 => Some(OperatorInfo { form: OperatorForm::Binary, precedence: 14, binary_strength: 13, unary_strength: 0 }),
        83 => Some(OperatorInfo { form: OperatorForm::PrefixBinary, precedence: 20, binary_strength: 20, unary_strength: 20 }),
        84 => Some(OperatorInfo { form: OperatorForm::Binary, precedence: 14, binary_strength: 13, unary_strength: 0 }),
        85 => Some(OperatorInfo { form: OperatorForm::Binary, precedence: 70, binary_strength: 70, unary_strength: 0 }),
        86 => Some(OperatorInfo { form: OperatorForm::Binary, precedence: 14, binary_strength: 13, unary_strength: 0 }),
        87 => Some(OperatorInfo { form: OperatorForm::Binary, precedence: 38, binary_strength: 38, unary_strength: 0 }),
        88 => Some(OperatorInfo { form: OperatorForm::Binary, precedence: 14, binary_strength: 13, unary_strength: 0 }),
        89 => Some(OperatorInfo { form: OperatorForm::PrefixBinary, precedence: 36, binary_strength: 35, unary_strength: 36 }),
        90 => Some(OperatorInfo { form: OperatorForm::Binary, precedence: 14, binary_strength: 13, unary_strength: 0 }),
        91 => Some(OperatorInfo { form: OperatorForm::Binary, precedence: 52, binary_strength: 52, unary_strength: 0 }),
        92 => Some(OperatorInfo { form: OperatorForm::Binary, precedence: 14, binary_strength: 13, unary_strength: 0 }),
        93 => Some(OperatorInfo { form: OperatorForm::Binary, precedence: 54, binary_strength: 54, unary_strength: 0 }),
        94 => Some(OperatorInfo { form: OperatorForm::Binary, precedence: 14, binary_strength: 13, unary_strength: 0 }),
        95 => Some(OperatorInfo { form: OperatorForm::Binary, precedence: 54, binary_strength: 54, unary_strength: 0 }),
        96 => Some(OperatorInfo { form: OperatorForm::Binary, precedence: 14, binary_strength: 13, unary_strength: 0 }),
        97 => Some(OperatorInfo { form: OperatorForm::Binary, precedence: 32, binary_strength: 31, unary_strength: 0 }),
        98 => Some(OperatorInfo { form: OperatorForm::Binary, precedence: 28, binary_strength: 27, unary_strength: 0 }),
        99 => Some(OperatorInfo { form: OperatorForm::Binary, precedence: 62, binary_strength: 61, unary_strength: 0 }),
        100 => Some(OperatorInfo { form: OperatorForm::Binary, precedence: 30, binary_strength: 29, unary_strength: 0 }),
        101 => Some(OperatorInfo { form: OperatorForm::Postfix, precedence: 72, binary_strength: 0, unary_strength: 0 }),
        102 => Some(OperatorInfo { form: OperatorForm::Postfix, precedence: 64, binary_strength: 0, unary_strength: 0 }),
        103 => Some(OperatorInfo { form: OperatorForm::Postfix, precedence: 72, binary_strength: 0, unary_strength: 0 }),
        104 => Some(OperatorInfo { form: OperatorForm::Postfix, precedence: 68, binary_strength: 0, unary_strength: 0 }),
        105 => Some(OperatorInfo { form: OperatorForm::Postfix, precedence: 68, binary_strength: 0, unary_strength: 0 }),
        106 => Some(OperatorInfo { form: OperatorForm::Postfix, precedence: 72, binary_strength: 0, unary_strength: 0 }),
        107 => Some(OperatorInfo { form: OperatorForm::Postfix, precedence: 68, binary_strength: 0, unary_strength: 0 }),
        108 => Some(OperatorInfo { form: OperatorForm::Postfix, precedence: 68, binary_strength: 0, unary_strength: 0 }),
        109 => Some(OperatorInfo { form: OperatorForm::Prefix, precedence: 34, binary_strength: 0, unary_strength: 34 }),
        _ => None,
    }
}

/// The declared binding of operator kind `k`.
pub fn operator_info_of(k: u16) -> (info: Option<OperatorInfo>)
    ensures
        info == operator_info(k),
{
    match k {
        0 => Some(OperatorInfo { form: OperatorForm::Binary, precedence: 36, binary_strength: 35, unary_strength: 0 }),
        1 => Some(OperatorInfo { form: OperatorForm::PrefixBinary, precedence: 70, binary_strength: 70, unary_strength: 61 }),
        2 => Some(OperatorInfo { form: OperatorForm::Binary, precedence: 70, binary_strength: 70, unary_strength: 0 }),
        3 => Some(OperatorInfo { form: OperatorForm::Binary, precedence: 58, binary_strength: 58, unary_strength: 0 }),
        4 => Some(OperatorInfo { form: OperatorForm::Binary, precedence: 14, binary_strength: 13, unary_strength: 0 }),
        5 => Some(OperatorInfo { form: OperatorForm::Binary, precedence: 46, binary_strength: 46, unary_strength: 0 }),
        6 => Some(OperatorInfo { form: OperatorForm::Binary, precedence: 14, binary_strength: 13, unary_strength: 0 }),
        7 => Some(OperatorInfo { form: OperatorForm::PrefixBinary, precedence: 58, binary_strength: 58, unary_strength: 58 }),
        8 => Some(OperatorInfo { form: OperatorForm::Binary, precedence: 14, binary_strength: 13, unary_strength: 0 }),
        9 => Some(OperatorInfo { form: OperatorForm::Binary, precedence: 54, binary_strength: 54, unary_strength: 0 }),
        10 => Some(OperatorInfo { form: OperatorForm::Binary, precedence: 14, binary_strength: 13, unary_strength: 0 }),
        11 => Some(OperatorInfo { form: OperatorForm::PrefixBinary, precedence: 50, binary_strength: 50, unary_strength: 50 }),
        12 => Some(OperatorInfo { form: OperatorForm::Binary, precedence: 14, binary_strength: 13, unary_strength: 0 }),
        13 => Some(OperatorInfo { form: OperatorForm::Binary, precedence: 50, binary_strength: 50, unary_strength: 0 }),
        14 => Some(OperatorInfo { form: OperatorForm::Binary, precedence: 14, binary_strength: 13, unary_strength: 0 }),
        15 => Some(OperatorInfo { form: OperatorForm::PrefixBinary, precedence: 50, binary_strength: 50, unary_strength: 50 }),
        16 => Some(OperatorInfo { form: OperatorForm::Binary, precedence: 14, binary_strength: 13, unary_strength: 0 }),
        17 => Some(OperatorInfo { form: OperatorForm::Binary, precedence: 14, binary_strength: 13, unary_strength: 0 }),
        18 => Some(OperatorInfo { form: OperatorForm::Binary, precedence: 70, binary_strength: 70, unary_strength: 0 }),
        19 => Some(OperatorInfo { form: OperatorForm::Binary, precedence: 48, binary_strength: 48, unary_strength: 0 }),
        20 => Some(OperatorInfo { form: OperatorForm::Binary, precedence: 14, binary_strength: 13, unary_strength: 0 }),
        21 => Some(OperatorInfo { form: OperatorForm::Binary, precedence: 48, binary_strength: 48, unary_strength: 0 }),
        22 => Some(OperatorInfo { form: OperatorForm::Binary, precedence: 14, binary_strength: 13, unary_strength: 0 }),
        23 => Some(OperatorInfo { form: OperatorForm::Binary, precedence: 70, binary_strength: 70, unary_strength: 0 }),
        24 => Some(OperatorInfo { form: OperatorForm::Binary, precedence: 58, binary_strength: 58, unary_strength: 0 }),
        25 => Some(OperatorInfo { form: OperatorForm::Binary, precedence: 14, binary_strength: 13, unary_strength: 0 }),
        26 => Some(OperatorInfo { form: OperatorForm::Binary, precedence: 58, binary_strength: 58, unary_strength: 0 }),
        27 => Some(OperatorInfo { form: OperatorForm::Binary, precedence: 14, binary_strength: 13, unary_strength: 0 }),
        28 => Some(OperatorInfo { form: OperatorForm::Binary, precedence: 40, binary_strength: 39, unary_strength: 0 }),
        29 => Some(OperatorInfo { form: OperatorForm::Binary, precedence: 14, binary_strength: 13, unary_strength: 0 }),
        30 => Some(OperatorInfo { form: OperatorForm::PrefixBinary, precedence: 36, binary_strength: 35, unary_strength: 36 }),
        31 => Some(OperatorInfo { form: OperatorForm::Binary, precedence: 14, binary_strength: 13, unary_strength: 0 }),
        32 => Some(OperatorInfo { form: OperatorForm::PrefixBinary, precedence: 18, binary_strength: 18, unary_strength: 18 }),
        33 => Some(OperatorInfo { form: OperatorForm::Binary, precedence: 14, binary_strength: 13, unary_strength: 0 }),
        34 => Some(OperatorInfo { form: OperatorForm::PrefixBinary, precedence: 36, binary_strength: 35, unary_strength: 36 }),
        35 => Some(OperatorInfo { form: OperatorForm::PrefixBinary, precedence: 26, binary_strength: 25, unary_strength: 26 }),
        36 => Some(OperatorInfo { form: OperatorForm::PrefixBinary, precedence: 22, binary_strength: 21, unary_strength: 22 }),
        37 => Some(OperatorInfo { form: OperatorForm::Binary, precedence: 24, binary_strength: 23, unary_strength: 0 }),
        38 => Some(OperatorInfo { form: OperatorForm::Binary, precedence: 14, binary_strength: 13, unary_strength: 0 }),
        39 => Some(OperatorInfo { form: OperatorForm::Binary, precedence: 14, binary_strength: 13, unary_strength: 0 }),
        40 => Some(OperatorInfo { form: OperatorForm::Binary, precedence: 36, binary_strength: 35, unary_strength: 0 }),
        41 => Some(OperatorInfo { form: OperatorForm::Binary, precedence: 36, binary_strength: 35, unary_strength: 0 }),
        42 => Some(OperatorInfo { form: OperatorForm::Binary, precedence: 36, binary_strength: 35, unary_strength: 0 }),
        43 => Some(OperatorInfo { form: OperatorForm::Binary, precedence: 22, binary_strength: 21, unary_strength: 0 }),
        44 => Some(OperatorInfo { form: OperatorForm::Binary, precedence: 14, binary_strength: 13, unary_strength: 0 }),
        45 => Some(OperatorInfo { form: OperatorForm::Binary, precedence: 26, binary_strength: 25, unary_strength: 0 }),
        46 => Some(OperatorInfo { form: OperatorForm::Binary, precedence: 14, binary_strength: 13, unary_strength: 0 }),
        47 => Some(OperatorInfo { form: OperatorForm::Binary, precedence: 14, binary_strength: 13, unary_strength: 0 }),
        48 => Some(OperatorInfo { form: OperatorForm::PrefixBinary, precedence: 36, binary_strength: 35, unary_strength: 36 }),
        49 => Some(OperatorInfo { form: OperatorForm::PrefixBinary, precedence: 36, binary_strength: 35, unary_strength: 36 }),
        50 => Some(OperatorInfo { form: OperatorForm::Binary, precedence: 14, binary_strength: 13, unary_strength: 0 }),
        51 => Some(OperatorInfo { form: OperatorForm::Binary, precedence: 14, binary_strength: 13, unary_strength: 0 }),
        52 => Some(OperatorInfo { form: OperatorForm::PrefixBinary, precedence: 36, binary_strength: 35, unary_strength: 36 }),
        53 => Some(OperatorInfo { form: OperatorForm::PrefixBinary, precedence: 28, binary_strength: 27, unary_strength: 28 }),
        54 => Some(OperatorInfo { form: OperatorForm::Binary, precedence: 14, binary_strength: 13, unary_strength: 0 }),
        55 => Some(OperatorInfo { form: OperatorForm::Binary, precedence: 60, binary_strength: 59, unary_strength: 0 }),
        56 => Some(OperatorInfo { form: OperatorForm::Binary, precedence: 14, binary_strength: 13, unary_strength: 0 }),
        57 => Some(OperatorInfo { form: OperatorForm::Binary, precedence: 66, binary_strength: 66, unary_strength: 0 }),
        58 => Some(OperatorInfo { form: OperatorForm::Binary, precedence: 14, binary_strength: 13, unary_strength: 0 }),
        59 => Some(OperatorInfo { form: OperatorForm::Binary, precedence: 66, binary_strength: 66, unary_strength: 0 }),
        60 => Some(OperatorInfo { form: OperatorForm::Binary, precedence: 14, binary_strength: 13, unary_strength: 0 }),
        61 => Some(OperatorInfo { form: OperatorForm::Binary, precedence: 58, binary_strength: 57, unary_strength: 0 }),
        62 => Some(OperatorInfo { form: OperatorForm::Binary, precedence: 14, binary_strength: 13, unary_strength: 0 }),
        63 => Some(OperatorInfo { form: OperatorForm::Binary, precedence: 58, binary_strength: 57, unary_strength: 0 }),
        64 => Some(OperatorInfo { form: OperatorForm::Binary, precedence: 14, binary_strength: 13, unary_strength: 0 }),
        65 => Some(OperatorInfo { form: OperatorForm::Binary, precedence: 70, binary_strength: 70, unary_strength: 0 }),
        66 => Some(OperatorInfo { form: OperatorForm::Binary, precedence: 14, binary_strength: 13, unary_strength: 0 }),
        67 => Some(OperatorInfo { form: OperatorForm::Binary, precedence: 70, binary_strength: 70, unary_strength: 0 }),
        68 => Some(OperatorInfo { form: OperatorForm::Binary, precedence: 14, binary_strength: 13, unary_strength: 0 }),
        69 => Some(OperatorInfo { form: OperatorForm::Binary, precedence: 70, binary_strength: 70, unary_strength: 0 }),
        70 => Some(OperatorInfo { form: OperatorForm::Binary, precedence: 70, binary_strength: 70, unary_strength: 0 }),
        71 => Some(OperatorInfo { form: OperatorForm::Binary, precedence: 70, binary_strength: 70, unary_strength: 0 }),
        72 => Some(OperatorInfo { form: OperatorForm::Binary, precedence: 70, binary_strength: 70, unary_strength: 0 }),
        73 => Some(OperatorInfo { form: OperatorForm::Binary, precedence: 44, binary_strength: 44, unary_strength: 0 }),
        74 => Some(OperatorInfo { form: OperatorForm::Binary, precedence: 14, binary_strength: 13, unary_strength: 0 }),
        75 => Some(OperatorInfo { form: OperatorForm::Binary, precedence: 70, binary_strength: 70, unary_strength: 0 }),
        76 => Some(OperatorInfo { form: OperatorForm::Binary, precedence: 14, binary_strength: 13, unary_strength: 0 }),
        77 => Some(OperatorInfo { form: OperatorForm::Binary, precedence: 70, binary_strength: 70, unary_strength: 0 }),
        78 => Some(OperatorInfo { form: OperatorForm::Binary, precedence: 70, binary_strength: 70, unary_strength: 0 }),
        79 => Some(OperatorInfo { form: OperatorForm::Binary, precedence: 70, binary_strength: 70, unary_strength: 0 }),
        80 => Some(OperatorInfo { form: OperatorForm::Binary, precedence: 70, binary_strength: 70, unary_strength: 0 }),
        81 => Some(OperatorInfo { form: OperatorForm::Binary, precedence: 42, binary_strength: 42, unary_strength: 0 }),
        82 => Some(OperatorInfo { form: OperatorForm::Binary, precedence: 14, binary_strength: 13, unary_strength: 0 }),
        83 => Some(OperatorInfo { form: OperatorForm::PrefixBinary, precedence: 20, binary_strength: 20, unary_strength: 20 }),
        84 => Some(OperatorInfo { form: OperatorForm::Binary, precedence: 14, binary_strength: 13, unary_strength: 0 }),
        85 => Some(OperatorInfo { form: OperatorForm::Binary, precedence: 70, binary_strength: 70, unary_strength: 0 }),
        86 => Some(OperatorInfo { form: OperatorForm::Binary, precedence: 14, binary_strength: 13, unary_strength: 0 }),
        87 => Some(OperatorInfo { form: OperatorForm::Binary, precedence: 38, binary_strength: 38, unary_strength: 0 }),
        88 => Some(OperatorInfo { form: OperatorForm::Binary, precedence: 14, binary_strength: 13, unary_strength: 0 }),
        89 => Some(OperatorInfo { form: OperatorForm::PrefixBinary, precedence: 36, binary_strength: 35, unary_strength: 36 }),
        90 => Some(OperatorInfo { form: OperatorForm::Binary, precedence: 14, binary_strength: 13, unary_strength: 0 }),
        91 => Some(OperatorInfo { form: OperatorForm::Binary, precedence: 52, binary_strength: 52, unary_strength: 0 }),
        92 => Some(OperatorInfo { form: OperatorForm::Binary, precedence: 14, binary_strength: 13, unary_strength: 0 }),
        93 => Some(OperatorInfo { form: OperatorForm::Binary, precedence: 54, binary_strength: 54, unary_strength: 0 }),
        94 => Some(OperatorInfo { form: OperatorForm::Binary, precedence: 14, binary_strength: 13, unary_strength: 0 }),
        95 => Some(OperatorInfo { form: OperatorForm::Binary, precedence: 54, binary_strength: 54, unary_strength: 0 }),
        96 => Some(OperatorInfo { form: OperatorForm::Binary, precedence: 14, binary_strength: 13, unary_strength: 0 }),
        97 => Some(OperatorInfo { form: OperatorForm::Binary, precedence: 32, binary_strength: 31, unary_strength: 0 }),
        98 => Some(OperatorInfo { form: OperatorForm::Binary, precedence: 28, binary_strength: 27, unary_strength: 0 }),
        99 => Some(OperatorInfo { form: OperatorForm::Binary, precedence: 62, binary_strength: 61, unary_strength: 0 }),
        100 => Some(OperatorInfo { form: OperatorForm::Binary, precedence: 30, binary_strength: 29, unary_strength: 0 }),
        101 => Some(OperatorInfo { form: OperatorForm::Postfix, precedence: 72, binary_strength: 0, unary_strength: 0 }),
        102 => Some(OperatorInfo { form: OperatorForm::Postfix, precedence: 64, binary_strength: 0, unary_strength: 0 }),
        103 => Some(OperatorInfo { form: OperatorForm::Postfix, precedence: 72, binary_strength: 0, unary_strength: 0 }),
        104 => Some(OperatorInfo { form: OperatorForm::Postfix, precedence: 68, binary_strength: 0, unary_strength: 0 }),
        105 => Some(OperatorInfo { form: OperatorForm::Postfix, precedence: 68, binary_strength: 0, unary_strength: 0 }),
        106 => Some(OperatorInfo { form: OperatorForm::Postfix, precedence: 72, binary_strength: 0, unary_strength: 0 }),
        107 => Some(OperatorInfo { form: OperatorForm::Postfix, precedence: 68, binary_strength: 0, unary_strength: 0 }),
        108 => Some(OperatorInfo { form: OperatorForm::Postfix, precedence: 68, binary_strength: 0, unary_strength: 0 }),
        109 => Some(OperatorInfo { form: OperatorForm::Prefix, precedence: 34, binary_strength: 0, unary_strength: 34 }),
        _ => None,
    }
}
/// A token standing as the operator of a binary expression.
#[derive(Debug, PartialEq, Eq)]
pub struct BinaryOperator {
    kind: u16,
    raw: TokenTree,
}

impl BinaryOperator {
    /// The token kind of this operator.
    pub closed spec fn spec_kind(&self) -> u16 {
        self.kind
    }

    /// The raw atom this operator retains.
    pub closed spec fn raw_model(&self) -> TokenModel {
        self.raw@
    }

    #[verifier::type_invariant]
    closed spec fn inv(&self) -> bool {
        is_binary_kind(self.kind) && token_matches(self.kind, self.raw@)
    }

    /// Recognizes a raw atom as the first binary operator kind it belongs to.
    pub fn from_token_tree(token: TokenTree) -> (r: Option<Self>)
        ensures
            r is Some <==> exists|k: u16| is_binary_kind(k) && token_matches(k, token@),
            r matches Some(op) ==> {
                &&& op.raw_model() == token@
                &&& is_binary_kind(op.spec_kind())
                &&& token_matches(op.spec_kind(), token@)
                &&& forall|j: u16| j < op.spec_kind() && is_binary_kind(j) ==> !token_matches(j, token@)
            },
    {
        let mut k: u16 = 0;
        while k < TOKEN_KIND_COUNT
            invariant
                k <= TOKEN_KIND_COUNT,
                forall|j: u16| j < k && is_binary_kind(j) ==> !token_matches(j, token@),
            decreases TOKEN_KIND_COUNT - k,
        {
            if binary_kind(k) && kind_matches(k, &token) {
                return Some(BinaryOperator { kind: k, raw: token });
            }
            k = k + 1;
        }
        proof {
            assert forall|j: u16| is_binary_kind(j) implies !token_matches(j, token@) by {
                if j >= TOKEN_KIND_COUNT {
                    assert(!token_matches(j, token@));
                }
            }
        }
        None
    }

    /// Wraps a typed token of a binary operator kind.
    pub fn from_token<const K: u16>(token: Tok<K>) -> (op: Self)
        requires
            is_binary_kind(K),
            token_matches(K, token.raw_model()),
        ensures
            op.spec_kind() == K,
            op.raw_model() == token.raw_model(),
    {
        BinaryOperator { kind: K, raw: token.into_raw() }
    }

    /// The token kind of this operator.
    pub fn kind(&self) -> (k: u16)
        ensures
            k == self.spec_kind(),
    {
        self.kind
    }

    /// The canonical spelling of this operator.
    pub fn spelling(&self) -> (text: &'static str)
        ensures
            text@ == token_spelling(self.spec_kind()),
    {
        proof {
            use_type_invariant(self);
        }
        token_text(self.kind)
    }

    /// Borrows the retained raw atom.
    pub fn raw(&self) -> (raw: &TokenTree)
        ensures
            raw@ == self.raw_model(),
    {
        &self.raw
    }

    /// A structurally equal copy of this operator.
    pub fn duplicate(&self) -> (copy: Self)
        ensures
            copy.spec_kind() == self.spec_kind(),
            copy.raw_model() == self.raw_model(),
    {
        proof {
            use_type_invariant(self);
        }
        BinaryOperator { kind: self.kind, raw: self.raw.duplicate() }
    }
}

impl Spanned for BinaryOperator {
    open spec fn spec_span(&self) -> Span {
        model_span(self.raw_model())
    }

    fn span(&self) -> (span: Span) {
        let span = self.raw.span();
        proof {
            assert(self.spec_span() == model_span(self.raw_model()));
        }
        span
    }
}

impl ToTokens for BinaryOperator {
    open spec fn spec_tokens(&self) -> Seq<TokenModel> {
        seq![self.raw_model()]
    }

    fn to_tokens(&self, output: &mut TokenStream) {
        let raw = self.raw.duplicate();
        let ghost before = output@;
        output.push(raw);
        proof {
            assert(self.spec_tokens() == seq![self.raw_model()]);
            assert(output@ =~= before + seq![self.raw_model()]);
        }
    }
}

/// A token standing as the operator of a prefix expression.
#[derive(Debug, PartialEq, Eq)]
pub struct PrefixOperator {
    kind: u16,
    raw: TokenTree,
}

impl PrefixOperator {
    /// The token kind of this operator.
    pub closed spec fn spec_kind(&self) -> u16 {
        self.kind
    }

    /// The raw atom this operator retains.
    pub closed spec fn raw_model(&self) -> TokenModel {
        self.raw@
    }

    #[verifier::type_invariant]
    closed spec fn inv(&self) -> bool {
        is_prefix_kind(self.kind) && token_matches(self.kind, self.raw@)
    }

    /// Recognizes a raw atom as the first prefix operator kind it belongs to.
    pub fn from_token_tree(token: TokenTree) -> (r: Option<Self>)
        ensures
            r is Some <==> exists|k: u16| is_prefix_kind(k) && token_matches(k, token@),
            r matches Some(op) ==> {
                &&& op.raw_model() == token@
                &&& is_prefix_kind(op.spec_kind())
                &&& token_matches(op.spec_kind(), token@)
                &&& forall|j: u16| j < op.spec_kind() && is_prefix_kind(j) ==> !token_matches(j, token@)
            },
    {
        let mut k: u16 = 0;
        while k < TOKEN_KIND_COUNT
            invariant
                k <= TOKEN_KIND_COUNT,
                forall|j: u16| j < k && is_prefix_kind(j) ==> !token_matches(j, token@),
            decreases TOKEN_KIND_COUNT - k,
        {
            if prefix_kind(k) && kind_matches(k, &token) {
                return Some(PrefixOperator { kind: k, raw: token });
            }
            k = k + 1;
        }
        proof {
            assert forall|j: u16| is_prefix_kind(j) implies !token_matches(j, token@) by {
                if j >= TOKEN_KIND_COUNT {
                    assert(!token_matches(j, token@));
                }
            }
        }
        None
    }

    /// Wraps a typed token of a prefix operator kind.
    pub fn from_token<const K: u16>(token: Tok<K>) -> (op: Self)
        requires
            is_prefix_kind(K),
            token_matches(K, token.raw_model()),
        ensures
            op.spec_kind() == K,
            op.raw_model() == token.raw_model(),
    {
        PrefixOperator { kind: K, raw: token.into_raw() }
    }

    /// The token kind of this operator.
    pub fn kind(&self) -> (k: u16)
        ensures
            k == self.spec_kind(),
    {
        self.kind
    }

    /// The canonical spelling of this operator.
    pub fn spelling(&self) -> (text: &'static str)
        ensures
            text@ == token_spelling(self.spec_kind()),
    {
        proof {
            use_type_invariant(self);
        }
        token_text(self.kind)
    }

    /// Borrows the retained raw atom.
    pub fn raw(&self) -> (raw: &TokenTree)
        ensures
            raw@ == self.raw_model(),
    {
        &self.raw
    }

    /// A structurally equal copy of this operator.
    pub fn duplicate(&self) -> (copy: Self)
        ensures
            copy.spec_kind() == self.spec_kind(),
            copy.raw_model() == self.raw_model(),
    {
        proof {
            use_type_invariant(self);
        }
        PrefixOperator { kind: self.kind, raw: self.raw.duplicate() }
    }
}

impl Spanned for PrefixOperator {
    open spec fn spec_span(&self) -> Span {
        model_span(self.raw_model())
    }

    fn span(&self) -> (span: Span) {
        let span = self.raw.span();
        proof {
            assert(self.spec_span() == model_span(self.raw_model()));
        }
        span
    }
}

impl ToTokens for PrefixOperator {
    open spec fn spec_tokens(&self) -> Seq<TokenModel> {
        seq![self.raw_model()]
    }

    fn to_tokens(&self, output: &mut TokenStream) {
        let raw = self.raw.duplicate();
        let ghost before = output@;
        output.push(raw);
        proof {
            assert(self.spec_tokens() == seq![self.raw_model()]);
            assert(output@ =~= before + seq![self.raw_model()]);
        }
    }
}

/// A token standing as the operator of a postfix expression.
#[derive(Debug, PartialEq, Eq)]
pub struct PostfixOperator {
    kind: u16,
    raw: TokenTree,
}

impl PostfixOperator {
    /// The token kind of this operator.
    pub closed spec fn spec_kind(&self) -> u16 {
        self.kind
    }

    /// The raw atom this operator retains.
    pub closed spec fn raw_model(&self) -> TokenModel {
        self.raw@
    }

    #[verifier::type_invariant]
    closed spec fn inv(&self) -> bool {
        is_postfix_kind(self.kind) && token_matches(self.kind, self.raw@)
    }

    /// Recognizes a raw atom as the first postfix operator kind it belongs to.
    pub fn from_token_tree(token: TokenTree) -> (r: Option<Self>)
        ensures
            r is Some <==> exists|k: u16| is_postfix_kind(k) && token_matches(k, token@),
            r matches Some(op) ==> {
                &&& op.raw_model() == token@
                &&& is_postfix_kind(op.spec_kind())
                &&& token_matches(op.spec_kind(), token@)
                &&& forall|j: u16| j < op.spec_kind() && is_postfix_kind(j) ==> !token_matches(j, token@)
            },
    {
        let mut k: u16 = 0;
        while k < TOKEN_KIND_COUNT
            invariant
                k <= TOKEN_KIND_COUNT,
                forall|j: u16| j < k && is_postfix_kind(j) ==> !token_matches(j, token@),
            decreases TOKEN_KIND_COUNT - k,
        {
            if postfix_kind(k) && kind_matches(k, &token) {
                return Some(PostfixOperator { kind: k, raw: token });
            }
            k = k + 1;
        }
        proof {
            assert forall|j: u16| is_postfix_kind(j) implies !token_matches(j, token@) by {
                if j >= TOKEN_KIND_COUNT {
                    assert(!token_matches(j, token@));
                }
            }
        }
        None
    }

    /// Wraps a typed token of a postfix operator kind.
    pub fn from_token<const K: u16>(token: Tok<K>) -> (op: Self)
        requires
            is_postfix_kind(K),
            token_matches(K, token.raw_model()),
        ensures
            op.spec_kind() == K,
            op.raw_model() == token.raw_model(),
    {
        PostfixOperator { kind: K, raw: token.into_raw() }
    }

    /// The token kind of this operator.
    pub fn kind(&self) -> (k: u16)
        ensures
            k == self.spec_kind(),
    {
        self.kind
    }

    /// The canonical spelling of this operator.
    pub fn spelling(&self) -> (text: &'static str)
        ensures
            text@ == token_spelling(self.spec_kind()),
    {
        proof {
            use_type_invariant(self);
        }
        token_text(self.kind)
    }

    /// Borrows the retained raw atom.
    pub fn raw(&self) -> (raw: &TokenTree)
        ensures
            raw@ == self.raw_model(),
    {
        &self.raw
    }

    /// A structurally equal copy of this operator.
    pub fn duplicate(&self) -> (copy: Self)
        ensures
            copy.spec_kind() == self.spec_kind(),
            copy.raw_model() == self.raw_model(),
    {
        proof {
            use_type_invariant(self);
        }
        PostfixOperator { kind: self.kind, raw: self.raw.duplicate() }
    }
}

impl Spanned for PostfixOperator {
    open spec fn spec_span(&self) -> Span {
        model_span(self.raw_model())
    }

    fn span(&self) -> (span: Span) {
        let span = self.raw.span();
        proof {
            assert(self.spec_span() == model_span(self.raw_model()));
        }
        span
    }
}

impl ToTokens for PostfixOperator {
    open spec fn spec_tokens(&self) -> Seq<TokenModel> {
        seq![self.raw_model()]
    }

    fn to_tokens(&self, output: &mut TokenStream) {
        let raw = self.raw.duplicate();
        let ghost before = output@;
        output.push(raw);
        proof {
            assert(self.spec_tokens() == seq![self.raw_model()]);
            assert(output@ =~= before + seq![self.raw_model()]);
        }
    }
}

impl BinaryOperator {
    /// Whether this operator is the adjacency operator `SPACE`, implicit or explicit.
    pub fn is_space(&self) -> (r: bool)
        ensures
            r == (self.spec_kind() == SPACE_KIND),
    {
        self.kind == SPACE_KIND
    }
}

/// A typed token parses back from the tokens it emits: parsing them as one
/// whole stream, as `parse2` does, gives a token retaining the same raw atom.
pub proof fn lemma_token_parses_back<const K: u16>(t: Tok<K>, r: Result<Tok<K>, TokenParseError>)
    requires
        token_matches(K, t.raw_model()),
        exists|m: &mut ParseStream, parsed: Result<Tok<K>, TokenParseError>|
            m.trees() == t.spec_tokens() && m.pos() == 0 && m.spec_eof_span() == eof_span_of(
                t.spec_tokens(),
            ) && #[trigger] call_ensures(Tok::<K>::parse, (m,), parsed) && (*final(m)).trees()
                == t.spec_tokens() && complete_outcome(*final(m), parsed, r),
    ensures
        r matches Ok(u) && u.raw_model() == t.raw_model(),
{
    let trees = t.spec_tokens();
    assert(crate::parse::sig_pos(trees, 1) == 1);
}

impl<const K: u16> Parse for Tok<K> {
    /// Parses the token at the cursor's raw position.
    fn parse(input: &mut ParseStream) -> (r: Result<Self, TokenParseError>)
        ensures
            token_outcome(old(input).trees(), old(input).pos(), old(input).spec_eof_span(), r),
            old(input).pos() < old(input).trees().len() ==> final(input).pos() == old(input).pos()
                + 1,
    {
        input.parse_token()
    }
}

// Names of the token types, one per spelling.
/// The `!=` token.
pub type _BngEql = Tok<0>;
/// The `#` token.
pub type _Hsh = Tok<1>;
/// The `#?` token.
pub type _HshQsm = Tok<2>;
/// The `%` token.
pub type _Mod = Tok<3>;
/// The `%=` token.
pub type _ModEql = Tok<4>;
/// The `&` token.
pub type _Amp = Tok<5>;
/// The `&=` token.
pub type _AmpEql = Tok<6>;
/// The `*` token.
pub type _Mul = Tok<7>;
/// The `*=` token.
pub type _MulEql = Tok<8>;
/// The `**` token.
pub type _MulMul = Tok<9>;
/// The `**=` token.
pub type _MulMulEql = Tok<10>;
/// The `+` token.
pub type _Add = Tok<11>;
/// The `+=` token.
pub type _AddEql = Tok<12>;
/// The `++` token.
pub type _AddAdd = Tok<13>;
/// The `++=` token.
pub type _AddAddEql = Tok<14>;
/// The `-` token.
pub type _Sub = Tok<15>;
/// The `-=` token.
pub type _SubEql = Tok<16>;
/// The `->` token.
pub type _SubGst = Tok<17>;
/// The `.` token.
pub type _Dot = Tok<18>;
/// The `..` token.
pub type _DotDot = Tok<19>;
/// The `..=` token.
pub type _DotDotEql = Tok<20>;
/// The `..<` token.
pub type _DotDotLst = Tok<21>;
/// The `..<=` token.
pub type _DotDotLstEql = Tok<22>;
/// The `.?` token.
pub type _DotQsm = Tok<23>;
/// The `/` token.
pub type _Slh = Tok<24>;
/// The `/=` token.
pub type _SlhEql = Tok<25>;
/// The `//` token.
pub type _SlhSlh = Tok<26>;
/// The `//=` token.
pub type _SlhSlhEql = Tok<27>;
/// The `:` token.
pub type _Col = Tok<28>;
/// The `:=` token.
pub type _ColEql = Tok<29>;
/// The `<` token.
pub type _Lst = Tok<30>;
/// The `<-` token.
pub type _LstSub = Tok<31>;
/// The `<<` token.
pub type _LstLst = Tok<32>;
/// The `<<=` token.
pub type _LstLstEql = Tok<33>;
/// The `<=` token.
pub type _LstEql = Tok<34>;
/// The `<==` token.
pub type _LstEqlEql = Tok<35>;
/// The `<===` token.
pub type _LstEqlEqlEql = Tok<36>;
/// The `<==>` token.
pub type _LstEqlEqlGst = Tok<37>;
/// The `<==>=` token.
pub type _LstEqlEqlGstEql = Tok<38>;
/// The `=` token.
pub type _Eql = Tok<39>;
/// The `=!=` token.
pub type _EqlBngEql = Tok<40>;
/// The `==` token.
pub type _EqlEql = Tok<41>;
/// The `===` token.
pub type _EqlEqlEql = Tok<42>;
/// The `===>` token.
pub type _EqlEqlEqlGst = Tok<43>;
/// The `===>=` token.
pub type _EqlEqlEqlGstEql = Tok<44>;
/// The `==>` token.
pub type _EqlEqlGst = Tok<45>;
/// The `==>=` token.
pub type _EqlEqlGstEql = Tok<46>;
/// The `=>` token.
pub type _EqlGst = Tok<47>;
/// The `>` token.
pub type _Gst = Tok<48>;
/// The `>=` token.
pub type _GstEql = Tok<49>;
/// The `>>` token.
pub type _GstGst = Tok<50>;
/// The `>>=` token.
pub type _GstGstEql = Tok<51>;
/// The `?` token.
pub type _Qsm = Tok<52>;
/// The `??` token.
pub type _QsmQsm = Tok<53>;
/// The `??=` token.
pub type _QsmQsmEql = Tok<54>;
/// The `@` token.
pub type _Att = Tok<55>;
/// The `@=` token.
pub type _AttEql = Tok<56>;
/// The `@@` token.
pub type _AttAtt = Tok<57>;
/// The `@@=` token.
pub type _AttAttEql = Tok<58>;
/// The `@@?` token.
pub type _AttAttQsm = Tok<59>;
/// The `@@?=` token.
pub type _AttAttQsmEql = Tok<60>;
/// The `\` token.
pub type _Bsl = Tok<61>;
/// The `\=` token.
pub type _BslEql = Tok<62>;
/// The `\\` token.
pub type _BslBsl = Tok<63>;
/// The `\\=` token.
pub type _BslBslEql = Tok<64>;
/// The `^` token.
pub type _Crt = Tok<65>;
/// The `^=` token.
pub type _CrtEql = Tok<66>;
/// The `^**` token.
pub type _CrtMulMul = Tok<67>;
/// The `^**=` token.
pub type _CrtMulMulEql = Tok<68>;
/// The `^<` token.
pub type _CrtLst = Tok<69>;
/// The `^<=` token.
pub type _CrtLstEql = Tok<70>;
/// The `^>` token.
pub type _CrtGst = Tok<71>;
/// The `^>=` token.
pub type _CrtGstEql = Tok<72>;
/// The `^^` token.
pub type _CrtCrt = Tok<73>;
/// The `^^=` token.
pub type _CrtCrtEql = Tok<74>;
/// The `_` token.
pub type _Ubs = Tok<75>;
/// The `_=` token.
pub type _UbsEql = Tok<76>;
/// The `_<` token.
pub type _UbsLst = Tok<77>;
/// The `_<=` token.
pub type _UbsLstEql = Tok<78>;
/// The `_>` token.
pub type _UbsGst = Tok<79>;
/// The `_>=` token.
pub type _UbsGstEql = Tok<80>;
/// The `|` token.
pub type _Pip = Tok<81>;
/// The `|=` token.
pub type _PipEql = Tok<82>;
/// The `|-` token.
pub type _PipSub = Tok<83>;
/// The `|-=` token.
pub type _PipSubEql = Tok<84>;
/// The `|_` token.
pub type _PipUbs = Tok<85>;
/// The `|_=` token.
pub type _PipUbsEql = Tok<86>;
/// The `||` token.
pub type _PipPip = Tok<87>;
/// The `||=` token.
pub type _PipPipEql = Tok<88>;
/// The `~` token.
pub type _Tld = Tok<89>;
/// The `~=` token.
pub type _TldEql = Tok<90>;
/// The `·` token.
pub type _Cdt = Tok<91>;
/// The `·=` token.
pub type _CdtEql = Tok<92>;
/// The `⊠` token.
pub type _Box = Tok<93>;
/// The `⊠=` token.
pub type _BoxEql = Tok<94>;
/// The `⧢` token.
pub type _Sfp = Tok<95>;
/// The `⧢=` token.
pub type _SfpEql = Tok<96>;
/// The `and` token.
pub type _And = Tok<97>;
/// The `or` token.
pub type _Or = Tok<98>;
/// The `SPACE` token.
pub type _Space = Tok<99>;
/// The `xor` token.
pub type _Xor = Tok<100>;
/// The `!` token.
pub type _Bng = Tok<101>;
/// The `(*)` token.
pub type _Graded = Tok<102>;
/// The `^!` token.
pub type _CrtBng = Tok<103>;
/// The `^*` token.
pub type _CrtMul = Tok<104>;
/// The `^~` token.
pub type _CrtTld = Tok<105>;
/// The `_!` token.
pub type _UbsBng = Tok<106>;
/// The `_*` token.
pub type _UbsMul = Tok<107>;
/// The `_~` token.
pub type _UbsTld = Tok<108>;
/// The `not` token.
pub type _Not = Tok<109>;
/// The `break` token.
pub type _BreakKeyword = Tok<110>;
/// The `breakpoint` token.
pub type _BreakpointKeyword = Tok<111>;
/// The `catch` token.
pub type _CatchKeyword = Tok<112>;
/// The `continue` token.
pub type _ContinueKeyword = Tok<113>;
/// The `do` token.
pub type _DoKeyword = Tok<114>;
/// The `elapsedTime` token.
pub type _ElapsedTimeKeyword = Tok<115>;
/// The `elapsedTiming` token.
pub type _ElapsedTimingKeyword = Tok<116>;
/// The `else` token.
pub type _ElseKeyword = Tok<117>;
/// The `except` token.
pub type _ExceptKeyword = Tok<118>;
/// The `finish` token.
pub type _FinishKeyword = Tok<119>;
/// The `for` token.
pub type _ForKeyword = Tok<120>;
/// The `from` token.
pub type _FromKeyword = Tok<121>;
/// The `global` token.
pub type _GlobalKeyword = Tok<122>;
/// The `if` token.
pub type _IfKeyword = Tok<123>;
/// The `in` token.
pub type _InKeyword = Tok<124>;
/// The `list` token.
pub type _ListKeyword = Tok<125>;
/// The `local` token.
pub type _LocalKeyword = Tok<126>;
/// The `new` token.
pub type _NewKeyword = Tok<127>;
/// The `of` token.
pub type _OfKeyword = Tok<128>;
/// The `profile` token.
pub type _ProfileKeyword = Tok<129>;
/// The `return` token.
pub type _ReturnKeyword = Tok<130>;
/// The `shield` token.
pub type _ShieldKeyword = Tok<131>;
/// The `step` token.
pub type _StepKeyword = Tok<132>;
/// The `symbol` token.
pub type _SymbolKeyword = Tok<133>;
/// The `TEST` token.
pub type _TestKeyword = Tok<134>;
/// The `then` token.
pub type _ThenKeyword = Tok<135>;
/// The `threadLocal` token.
pub type _ThreadLocalKeyword = Tok<136>;
/// The `threadVariable` token.
pub type _ThreadVariableKeyword = Tok<137>;
/// The `throw` token.
pub type _ThrowKeyword = Tok<138>;
/// The `time` token.
pub type _TimeKeyword = Tok<139>;
/// The `timing` token.
pub type _TimingKeyword = Tok<140>;
/// The `to` token.
pub type _ToKeyword = Tok<141>;
/// The `trap` token.
pub type _TrapKeyword = Tok<142>;
/// The `try` token.
pub type _TryKeyword = Tok<143>;
/// The `when` token.
pub type _WhenKeyword = Tok<144>;
/// The `while` token.
pub type _WhileKeyword = Tok<145>;
/// The `;` token.
pub type _Scl = Tok<146>;
/// The `,` token.
pub type _Cma = Tok<147>;

} // verus!
