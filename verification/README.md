# squawk

A linter for Postgres migrations, with the pieces of a SQL language server
that work on text alone, written in Verus and verified.

- `token`, `lexer_spec`, `lexer`, `token_boundaries`: the SQL lexer.
  `tokenize` is proved to give exactly the tokens that the specification
  `spec_tokenize` describes; the tokens cover the input, cut it only
  between characters, and hold what their kinds say.
- `line_index`, `boundary`, `text`: line endings, splitting text into lines
  (and how that relates to `str::lines`), UTF-8 boundaries and the string
  helpers the rest uses.
- `syntax`: what the rules read of a parsed SQL file (statements, names,
  column types, `DEFAULT` expressions, assignment lists), each with its text
  range.
- `linter`, `lint`, `rules/`: the rules, each with a specification of what it
  reports; `Linter::lint` runs the rules it is given that are defined here,
  applies the ignore comments and returns the violations ordered by where
  they start.
- `ignore`, `ignore_index`: `-- squawk-ignore` and `-- squawk-ignore-file`
  comments.
- `identifier`, `version`: Postgres identifiers and server versions.
- `ide/`: hover text, literal conversions, integer literal types, quoting of
  names and the classification of semantic tokens.

`app/` holds what needs serde and std's formatting: the configuration names
of the rules and the `Display`/`Error` impls of the error type.

## What is not here

- The SQL parser. The rules read the `syntax::SourceFile` model; nothing in
  this crate builds it from SQL text, so a caller (or a test) builds it.
- The rules `disallowed-unique-constraint`, `prefer-identity`,
  `prefer-timestamptz`, `renaming-column`, `renaming-table`,
  `require-concurrent-index-creation`, `require-concurrent-index-deletion`
  and `transaction-nesting`: their names are known and can be enabled, but
  they have no definition here and report nothing.
- The list of Postgres functions that are not volatile, which
  `adding-field-with-default` consults: it is a setting,
  `LinterSettings::non_volatile_functions`, empty by default.
- The language-server features that walk the syntax tree: `hover`,
  `inlay_hints`, `semantic_tokens`, `goto_definition`, name resolution
  (`resolve`), scopes, symbols, document offsets and locations, type
  inference from expressions, and the name helpers that read tree nodes.
  They all work on the parser's tree and the project's database of parsed
  files, neither of which is part of this crate. What they compute from
  plain text (hover text, literal conversions, integer types, quoting) is
  here.
- `unquote_ident` and `is_reserved_word`, which read a generated table of
  SQL keywords that is not part of this crate.
