# kettu

Verified building blocks of the Kettu toolchain (a WASM-first language
that extends WIT), written in Verus.

`src/` is the library. Its functions carry contracts that Verus proves,
except five small wrappers around standard-library calls (building a
`String` from characters, `str::to_lowercase`, `char::is_alphanumeric`,
and the `Debug` text of a string and of a list of strings), whose
contracts are trusted and stated in their doc comments:

- `text`, `numbers`, `name_map` — character-level text handling, decimal
  rendering and parsing, and a small map keyed by names.
- `constraints`, `call_check`, `hush` — the type checker's parameter
  constraints: evaluating `where` clauses on the arguments of a call,
  the diagnostics for violated, undecidable and inherited constraints, and
  the `/// ^ message` comments that acknowledge them in tests.
- `position`, `stepping`, `debug_symbols`, `call_syntax`, `eval_lexer` —
  the debugger's logic: source positions and breakpoints, stepping through
  a test's trace, snapping column breakpoints to inline closures, debug
  symbol bookkeeping, reading calls and assignments off a source line, and
  the lexer of `evaluate` expressions; `closures` lists the closures
  written in a program's tests and the tests themselves, and `sorting`
  orders them stably.
- `ast`, `types`, `checked`, `interfaces`, `inherited`, `func_bodies`,
  `body_spec`, `body_check`, `file_spec`, `checker`, `collect` — the type
  checker: the syntax tree it reads, type syntax and its checked types,
  what it records of interfaces and worlds, the constraints a function
  inherits from its callees, the specification and checking of function
  bodies, and the two passes over a file (collecting definitions, then
  validating every item against them) behind `check`, `check_with_source`
  and `check_package`.
- `docs`, `doctest`, `cli_rules`, `package_path`, `diagnostics` — the
  embedded guide (frontmatter, ordering, grouping, link rewriting, topic
  selectors), doc-test extraction and tallying, and the command line's
  rules.

`app/` is the command-line program around the library, with the
conversion of the parser's syntax tree into the library's; `tests/`
exercise the library on concrete values.
