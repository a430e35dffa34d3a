# m2-syn

A typed, parser-independent syntax graph for Macaulay2, written in Verus. The
library's functions are proved against contracts over mathematical models of
tokens, cells and text. The contracts do not all fix the complete result. The
lexer's contract fixes the rendered text, the shape of every token (blank or
comment trivia, framed strings, identifier and number starts), that
punctuation at every depth is the longest spelling at its place, that a `;`
or a line break after which a cell was complete ends that cell and that no
other ordinary cell ends but the last, and what each error shows; a delimiter error is tied to how the source reads up to it (no
open group, or one of another kind, for an unexpected closing delimiter). The
parser's contract fixes which lexemes a parsed file keeps and which cells
become which elements, not the shape of each expression tree, and most of the
pretty printer's text is left to the tests.

## Pipeline

```text
source bytes --lex--> CellStream --parse_cells--> SourceFile
                          ^                            |
                          +---------- to_cells --------+
```

- `lexer` turns bytes into cells of token trees. On success the rendered cells
  are exactly the source, a cell never runs past a top-level line break after
  which it is complete, and every token has its lexed shape; an error reports a
  byte range of the source whose bytes show its kind.
- `native` parses cells into the typed `SourceFile`. A parsed file keeps the
  lexemes (the non-trivia spellings, with delimiters) of the cells it came
  from; the lexer frames every string literal, so a natively parsed file keeps
  exactly the lexemes of its source.
- `nodes` holds the typed graph with its `ToTokens`/`ToCells` emission; the
  emitted cells carry exactly the lexemes of the tree.
- `token_stream`, `delim`, `punct`, `delimited`, `body` and `tokens` hold the
  raw atoms, delimiters, punctuated sequences and typed tokens.
- `parse` is the shared token cursor behind `Parse`; `span` the source
  positions and their laws; `pretty` the token and tree reports.
- `lexemes` defines the lexeme model and the lemmas that relate it to each
  node kind.

## Layout

- `src/` is the verified library.
- `tests/` holds the executable tests.
- `app/` prints reports to a terminal.
