//! The token spelling tables declared by the Macaulay2 syntax schema.
//!
//! Operators carry binary, prefix, or postfix parser metadata; every operator
//! tagged as augmentable also has an `op=` assignment spelling. Keywords are
//! identifier-shaped reserved words. Punctuation spellings are the operator
//! spellings made only of non-alphanumeric characters, plus `;` and `,`.
use vstd::prelude::*;

use crate::delim::{closing_text, opening_text, DelimiterKind};
use crate::token_stream::str_eq;

verus! {

/// Every operator spelling, including augmented assignment forms.
pub open spec fn operator_spellings() -> Seq<Seq<char>> {
    seq![
        "!="@,
        "#"@,
        "#?"@,
        "%"@,
        "%="@,
        "&"@,
        "&="@,
        "*"@,
        "*="@,
        "**"@,
        "**="@,
        "+"@,
        "+="@,
        "++"@,
        "++="@,
        "-"@,
        "-="@,
        "->"@,
        "."@,
        ".."@,
        "..="@,
        "..<"@,
        "..<="@,
        ".?"@,
        "/"@,
        "/="@,
        "//"@,
        "//="@,
        ":"@,
        ":="@,
        "<"@,
        "<-"@,
        "<<"@,
        "<<="@,
        "<="@,
        "<=="@,
        "<==="@,
        "<==>"@,
        "<==>="@,
        "="@,
        "=!="@,
        "=="@,
        "==="@,
        "===>"@,
        "===>="@,
        "==>"@,
        "==>="@,
        "=>"@,
        ">"@,
        ">="@,
        ">>"@,
        ">>="@,
        "?"@,
        "??"@,
        "??="@,
        "@"@,
        "@="@,
        "@@"@,
        "@@="@,
        "@@?"@,
        "@@?="@,
        "\\"@,
        "\\="@,
        "\\\\"@,
        "\\\\="@,
        "^"@,
        "^="@,
        "^**"@,
        "^**="@,
        "^<"@,
        "^<="@,
        "^>"@,
        "^>="@,
        "^^"@,
        "^^="@,
        "_"@,
        "_="@,
        "_<"@,
        "_<="@,
        "_>"@,
        "_>="@,
        "|"@,
        "|="@,
        "|-"@,
        "|-="@,
        "|_"@,
        "|_="@,
        "||"@,
        "||="@,
        "~"@,
        "~="@,
        "\u{b7}"@,
        "\u{b7}="@,
        "\u{22a0}"@,
        "\u{22a0}="@,
        "\u{29e2}"@,
        "\u{29e2}="@,
        "and"@,
        "or"@,
        "SPACE"@,
        "xor"@,
        "!"@,
        "(*)"@,
        "^!"@,
        "^*"@,
        "^~"@,
        "_!"@,
        "_*"@,
        "_~"@,
        "not"@,
    ]
}

fn operator_spellings_table() -> (table: Vec<&'static str>)
    ensures
        table@.len() == operator_spellings().len(),
        forall|i: int| 0 <= i < table@.len() ==> table@[i]@ == operator_spellings()[i],
{
    vec![
        "!=",
        "#",
        "#?",
        "%",
        "%=",
        "&",
        "&=",
        "*",
        "*=",
        "**",
        "**=",
        "+",
        "+=",
        "++",
        "++=",
        "-",
        "-=",
        "->",
        ".",
        "..",
        "..=",
        "..<",
        "..<=",
        ".?",
        "/",
        "/=",
        "//",
        "//=",
        ":",
        ":=",
        "<",
        "<-",
        "<<",
        "<<=",
        "<=",
        "<==",
        "<===",
        "<==>",
        "<==>=",
        "=",
        "=!=",
        "==",
        "===",
        "===>",
        "===>=",
        "==>",
        "==>=",
        "=>",
        ">",
        ">=",
        ">>",
        ">>=",
        "?",
        "??",
        "??=",
        "@",
        "@=",
        "@@",
        "@@=",
        "@@?",
        "@@?=",
        "\\",
        "\\=",
        "\\\\",
        "\\\\=",
        "^",
        "^=",
        "^**",
        "^**=",
        "^<",
        "^<=",
        "^>",
        "^>=",
        "^^",
        "^^=",
        "_",
        "_=",
        "_<",
        "_<=",
        "_>",
        "_>=",
        "|",
        "|=",
        "|-",
        "|-=",
        "|_",
        "|_=",
        "||",
        "||=",
        "~",
        "~=",
        "\u{b7}",
        "\u{b7}=",
        "\u{22a0}",
        "\u{22a0}=",
        "\u{29e2}",
        "\u{29e2}=",
        "and",
        "or",
        "SPACE",
        "xor",
        "!",
        "(*)",
        "^!",
        "^*",
        "^~",
        "_!",
        "_*",
        "_~",
        "not",
    ]
}

/// The spellings of postfix operators.
pub open spec fn postfix_operator_spellings() -> Seq<Seq<char>> {
    seq![
        "!"@,
        "(*)"@,
        "^!"@,
        "^*"@,
        "^~"@,
        "_!"@,
        "_*"@,
        "_~"@,
    ]
}

fn postfix_operator_spellings_table() -> (table: Vec<&'static str>)
    ensures
        table@.len() == postfix_operator_spellings().len(),
        forall|i: int| 0 <= i < table@.len() ==> table@[i]@ == postfix_operator_spellings()[i],
{
    vec![
        "!",
        "(*)",
        "^!",
        "^*",
        "^~",
        "_!",
        "_*",
        "_~",
    ]
}

/// The reserved keyword spellings.
pub open spec fn keyword_spellings() -> Seq<Seq<char>> {
    seq![
        "break"@,
        "breakpoint"@,
        "catch"@,
        "continue"@,
        "do"@,
        "elapsedTime"@,
        "elapsedTiming"@,
        "else"@,
        "except"@,
        "finish"@,
        "for"@,
        "from"@,
        "global"@,
        "if"@,
        "in"@,
        "list"@,
        "local"@,
        "new"@,
        "of"@,
        "profile"@,
        "return"@,
        "shield"@,
        "step"@,
        "symbol"@,
        "TEST"@,
        "then"@,
        "threadLocal"@,
        "threadVariable"@,
        "throw"@,
        "time"@,
        "timing"@,
        "to"@,
        "trap"@,
        "try"@,
        "when"@,
        "while"@,
    ]
}

fn keyword_spellings_table() -> (table: Vec<&'static str>)
    ensures
        table@.len() == keyword_spellings().len(),
        forall|i: int| 0 <= i < table@.len() ==> table@[i]@ == keyword_spellings()[i],
{
    vec![
        "break",
        "breakpoint",
        "catch",
        "continue",
        "do",
        "elapsedTime",
        "elapsedTiming",
        "else",
        "except",
        "finish",
        "for",
        "from",
        "global",
        "if",
        "in",
        "list",
        "local",
        "new",
        "of",
        "profile",
        "return",
        "shield",
        "step",
        "symbol",
        "TEST",
        "then",
        "threadLocal",
        "threadVariable",
        "throw",
        "time",
        "timing",
        "to",
        "trap",
        "try",
        "when",
        "while",
    ]
}

/// Every operator or punctuation spelling made of non-alphanumeric characters.
pub open spec fn punctuation_spellings() -> Seq<Seq<char>> {
    seq![
        "!="@,
        "#"@,
        "#?"@,
        "%"@,
        "%="@,
        "&"@,
        "&="@,
        "*"@,
        "*="@,
        "**"@,
        "**="@,
        "+"@,
        "+="@,
        "++"@,
        "++="@,
        "-"@,
        "-="@,
        "->"@,
        "."@,
        ".."@,
        "..="@,
        "..<"@,
        "..<="@,
        ".?"@,
        "/"@,
        "/="@,
        "//"@,
        "//="@,
        ":"@,
        ":="@,
        "<"@,
        "<-"@,
        "<<"@,
        "<<="@,
        "<="@,
        "<=="@,
        "<==="@,
        "<==>"@,
        "<==>="@,
        "="@,
        "=!="@,
        "=="@,
        "==="@,
        "===>"@,
        "===>="@,
        "==>"@,
        "==>="@,
        "=>"@,
        ">"@,
        ">="@,
        ">>"@,
        ">>="@,
        "?"@,
        "??"@,
        "??="@,
        "@"@,
        "@="@,
        "@@"@,
        "@@="@,
        "@@?"@,
        "@@?="@,
        "\\"@,
        "\\="@,
        "\\\\"@,
        "\\\\="@,
        "^"@,
        "^="@,
        "^**"@,
        "^**="@,
        "^<"@,
        "^<="@,
        "^>"@,
        "^>="@,
        "^^"@,
        "^^="@,
        "_"@,
        "_="@,
        "_<"@,
        "_<="@,
        "_>"@,
        "_>="@,
        "|"@,
        "|="@,
        "|-"@,
        "|-="@,
        "|_"@,
        "|_="@,
        "||"@,
        "||="@,
        "~"@,
        "~="@,
        "\u{b7}"@,
        "\u{b7}="@,
        "\u{22a0}"@,
        "\u{22a0}="@,
        "\u{29e2}"@,
        "\u{29e2}="@,
        "!"@,
        "(*)"@,
        "^!"@,
        "^*"@,
        "^~"@,
        "_!"@,
        "_*"@,
        "_~"@,
        ";"@,
        ","@,
    ]
}

fn punctuation_spellings_table() -> (table: Vec<&'static str>)
    ensures
        table@.len() == punctuation_spellings().len(),
        forall|i: int| 0 <= i < table@.len() ==> table@[i]@ == punctuation_spellings()[i],
{
    vec![
        "!=",
        "#",
        "#?",
        "%",
        "%=",
        "&",
        "&=",
        "*",
        "*=",
        "**",
        "**=",
        "+",
        "+=",
        "++",
        "++=",
        "-",
        "-=",
        "->",
        ".",
        "..",
        "..=",
        "..<",
        "..<=",
        ".?",
        "/",
        "/=",
        "//",
        "//=",
        ":",
        ":=",
        "<",
        "<-",
        "<<",
        "<<=",
        "<=",
        "<==",
        "<===",
        "<==>",
        "<==>=",
        "=",
        "=!=",
        "==",
        "===",
        "===>",
        "===>=",
        "==>",
        "==>=",
        "=>",
        ">",
        ">=",
        ">>",
        ">>=",
        "?",
        "??",
        "??=",
        "@",
        "@=",
        "@@",
        "@@=",
        "@@?",
        "@@?=",
        "\\",
        "\\=",
        "\\\\",
        "\\\\=",
        "^",
        "^=",
        "^**",
        "^**=",
        "^<",
        "^<=",
        "^>",
        "^>=",
        "^^",
        "^^=",
        "_",
        "_=",
        "_<",
        "_<=",
        "_>",
        "_>=",
        "|",
        "|=",
        "|-",
        "|-=",
        "|_",
        "|_=",
        "||",
        "||=",
        "~",
        "~=",
        "\u{b7}",
        "\u{b7}=",
        "\u{22a0}",
        "\u{22a0}=",
        "\u{29e2}",
        "\u{29e2}=",
        "!",
        "(*)",
        "^!",
        "^*",
        "^~",
        "_!",
        "_*",
        "_~",
        ";",
        ",",
    ]
}

/// Whether `text` occurs in `table`.
fn table_contains(table: &Vec<&'static str>, spec_table: Ghost<Seq<Seq<char>>>, text: &str) -> (r: bool)
    requires
        table@.len() == spec_table@.len(),
        forall|i: int| 0 <= i < table@.len() ==> table@[i]@ == spec_table@[i],
    ensures
        r == spec_table@.contains(text@),
{
    let mut i: usize = 0;
    while i < table.len()
        invariant
            i <= table@.len(),
            table@.len() == spec_table@.len(),
            forall|k: int| 0 <= k < table@.len() ==> table@[k]@ == spec_table@[k],
            forall|k: int| 0 <= k < i ==> spec_table@[k] != text@,
        decreases table@.len() - i,
    {
        if str_eq(table[i], text) {
            proof {
                assert(spec_table@[i as int] == text@);
            }
            return true;
        }
        i = i + 1;
    }
    false
}

/// Whether `text` is an operator spelling.
pub fn is_operator_spelling(text: &str) -> (r: bool)
    ensures
        r == operator_spellings().contains(text@),
{
    let table = operator_spellings_table();
    table_contains(&table, Ghost(operator_spellings()), text)
}

/// Whether `text` is a postfix operator spelling.
pub fn is_postfix_operator_spelling(text: &str) -> (r: bool)
    ensures
        r == postfix_operator_spellings().contains(text@),
{
    let table = postfix_operator_spellings_table();
    table_contains(&table, Ghost(postfix_operator_spellings()), text)
}

/// Whether `text` is a reserved keyword.
pub fn is_keyword_spelling(text: &str) -> (r: bool)
    ensures
        r == keyword_spellings().contains(text@),
{
    let table = keyword_spellings_table();
    table_contains(&table, Ghost(keyword_spellings()), text)
}

/// Keywords that cannot end a cell because they still require a value.
pub open spec fn value_keyword_spellings() -> Seq<Seq<char>> {
    seq![
        "if"@,
        "then"@,
        "else"@,
        "for"@,
        "while"@,
        "in"@,
        "from"@,
        "to"@,
        "when"@,
        "list"@,
        "do"@,
        "new"@,
        "of"@,
        "try"@,
        "except"@,
        "catch"@,
        "throw"@,
        "trap"@,
        "shield"@,
        "TEST"@,
        "time"@,
        "timing"@,
        "breakpoint"@,
        "elapsedTime"@,
        "elapsedTiming"@,
        "profile"@,
        "symbol"@,
        "local"@,
        "global"@,
        "threadVariable"@,
        "threadLocal"@,
    ]
}

fn value_keyword_spellings_table() -> (table: Vec<&'static str>)
    ensures
        table@.len() == value_keyword_spellings().len(),
        forall|i: int| 0 <= i < table@.len() ==> table@[i]@ == value_keyword_spellings()[i],
{
    vec![
        "if",
        "then",
        "else",
        "for",
        "while",
        "in",
        "from",
        "to",
        "when",
        "list",
        "do",
        "new",
        "of",
        "try",
        "except",
        "catch",
        "throw",
        "trap",
        "shield",
        "TEST",
        "time",
        "timing",
        "breakpoint",
        "elapsedTime",
        "elapsedTiming",
        "profile",
        "symbol",
        "local",
        "global",
        "threadVariable",
        "threadLocal",
    ]
}

/// Keywords that quote the token following them.
pub open spec fn quote_specifier_spellings() -> Seq<Seq<char>> {
    seq![
        "symbol"@,
        "local"@,
        "global"@,
        "threadVariable"@,
        "threadLocal"@,
    ]
}

fn quote_specifier_spellings_table() -> (table: Vec<&'static str>)
    ensures
        table@.len() == quote_specifier_spellings().len(),
        forall|i: int| 0 <= i < table@.len() ==> table@[i]@ == quote_specifier_spellings()[i],
{
    vec![
        "symbol",
        "local",
        "global",
        "threadVariable",
        "threadLocal",
    ]
}

/// Whether a keyword still requires a value after it.
pub fn keyword_requires_value(text: &str) -> (r: bool)
    ensures
        r == value_keyword_spellings().contains(text@),
{
    let table = value_keyword_spellings_table();
    table_contains(&table, Ghost(value_keyword_spellings()), text)
}

/// Whether a keyword quotes the following token.
pub fn is_quote_specifier(text: &str) -> (r: bool)
    ensures
        r == quote_specifier_spellings().contains(text@),
{
    let table = quote_specifier_spellings_table();
    table_contains(&table, Ghost(quote_specifier_spellings()), text)
}

/// How the lexer treats a recognized punctuation prefix.
#[derive(Debug, Clone, Copy, PartialEq, Eq, Structural)]
pub enum PunctuationKind {
    Ordinary,
    LineComment,
    BlockComment,
    RawString,
    Open(DelimiterKind),
    Close(DelimiterKind),
}

/// The structural spellings recognized before ordinary punctuation.
pub open spec fn structural_entries() -> Seq<(Seq<char>, PunctuationKind)> {
    seq![
        ("///"@, PunctuationKind::RawString),
        ("--"@, PunctuationKind::LineComment),
        ("-*"@, PunctuationKind::BlockComment),
        ("("@, PunctuationKind::Open(DelimiterKind::Parenthesis)),
        (")"@, PunctuationKind::Close(DelimiterKind::Parenthesis)),
        ("["@, PunctuationKind::Open(DelimiterKind::Bracket)),
        ("]"@, PunctuationKind::Close(DelimiterKind::Bracket)),
        ("{"@, PunctuationKind::Open(DelimiterKind::Brace)),
        ("}"@, PunctuationKind::Close(DelimiterKind::Brace)),
        ("<|"@, PunctuationKind::Open(DelimiterKind::AngleBar)),
        ("|>"@, PunctuationKind::Close(DelimiterKind::AngleBar)),
    ]
}

/// Every spelling the lexer's maximal munch chooses among, with its treatment.
pub open spec fn punctuation_entries() -> Seq<(Seq<char>, PunctuationKind)> {
    structural_entries() + punctuation_spellings().map_values(
        |s: Seq<char>| (s, PunctuationKind::Ordinary),
    )
}

/// The exec counterpart of [`punctuation_entries`].
pub fn punctuation_entry_table() -> (table: Vec<(&'static str, PunctuationKind)>)
    ensures
        table@.len() == punctuation_entries().len(),
        forall|i: int|
            0 <= i < table@.len() ==> table@[i].0@ == punctuation_entries()[i].0 && table@[i].1
                == punctuation_entries()[i].1,
{
    let mut table = vec![
        ("///", PunctuationKind::RawString),
        ("--", PunctuationKind::LineComment),
        ("-*", PunctuationKind::BlockComment),
        ("(", PunctuationKind::Open(DelimiterKind::Parenthesis)),
        (")", PunctuationKind::Close(DelimiterKind::Parenthesis)),
        ("[", PunctuationKind::Open(DelimiterKind::Bracket)),
        ("]", PunctuationKind::Close(DelimiterKind::Bracket)),
        ("{", PunctuationKind::Open(DelimiterKind::Brace)),
        ("}", PunctuationKind::Close(DelimiterKind::Brace)),
        ("<|", PunctuationKind::Open(DelimiterKind::AngleBar)),
        ("|>", PunctuationKind::Close(DelimiterKind::AngleBar)),
    ];
    let ordinary = punctuation_spellings_table();
    let ghost fixed = table@;
    let mut i: usize = 0;
    while i < ordinary.len()
        invariant
            i <= ordinary@.len(),
            ordinary@.len() == punctuation_spellings().len(),
            forall|k: int| 0 <= k < ordinary@.len() ==> ordinary@[k]@ == punctuation_spellings()[k],
            table@.len() == structural_entries().len() + i,
            forall|k: int|
                0 <= k < table@.len() ==> table@[k].0@ == punctuation_entries()[k].0 && table@[k].1
                    == punctuation_entries()[k].1,
        decreases ordinary@.len() - i,
    {
        table.push((ordinary[i], PunctuationKind::Ordinary));
        i = i + 1;
    }
    table
}

/// Structural spellings are exactly the delimiter texts of their kinds.
pub proof fn lemma_structural_spellings()
    ensures
        forall|i: int, k: DelimiterKind|
            0 <= i < punctuation_entries().len() && punctuation_entries()[i].1
                == PunctuationKind::Open(k) ==> punctuation_entries()[i].0 == opening_text(k),
        forall|i: int, k: DelimiterKind|
            0 <= i < punctuation_entries().len() && punctuation_entries()[i].1
                == PunctuationKind::Close(k) ==> punctuation_entries()[i].0 == closing_text(k),
        forall|i: int, k: DelimiterKind|
            0 <= i < punctuation_entries().len() && (punctuation_entries()[i].1
                == PunctuationKind::Open(k) || punctuation_entries()[i].1 == PunctuationKind::Close(
                k,
            )) ==> crate::delim::is_paired(k),
        forall|i: int|
            0 <= i < punctuation_entries().len() && punctuation_entries()[i].1
                == PunctuationKind::RawString ==> punctuation_entries()[i].0 == "///"@,
        forall|i: int|
            0 <= i < punctuation_entries().len() && punctuation_entries()[i].1
                == PunctuationKind::BlockComment ==> punctuation_entries()[i].0 == "-*"@,
        forall|i: int|
            0 <= i < punctuation_entries().len() && punctuation_entries()[i].1
                == PunctuationKind::LineComment ==> punctuation_entries()[i].0 == "--"@,
{
    reveal_strlit("///");
    reveal_strlit("--");
    reveal_strlit("-*");
    reveal_strlit("(");
    reveal_strlit(")");
    reveal_strlit("[");
    reveal_strlit("]");
    reveal_strlit("{");
    reveal_strlit("}");
    reveal_strlit("<|");
    reveal_strlit("|>");
    assert("("@ =~= seq!['(']);
    assert(")"@ =~= seq![')']);
    assert("["@ =~= seq!['[']);
    assert("]"@ =~= seq![']']);
    assert("{"@ =~= seq!['{']);
    assert("}"@ =~= seq!['}']);
    assert("<|"@ =~= seq!['<', '|']);
    assert("|>"@ =~= seq!['|', '>']);
}

} // verus!
