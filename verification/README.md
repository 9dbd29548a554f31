# zat_rust_viewer

Outline of a Rust source file: each public top-level item as a one-line
signature (structs and enums with one line per shown field or variant),
with the lines it covers, and the private `use` items that those
signatures refer to, with their source text.

Layout:

- `src/model.rs` — the plain model of a parsed file that the outline is
  computed from, and the outline's result types.
- `src/text.rs` — joining, splitting into lines (as `str::lines`), and the
  capitalized-word scan (`collect_type_refs_from_str`).
- `src/signature.rs`, `src/items.rs` — rendering of types, generics,
  parameters, signatures and items, each against a spec function, with the
  set of type names each rendering refers to.
- `src/outline.rs` — the outline of a list of items (`outline_of_items`,
  `try_outline_of_items`) against `outline_spec`.
- `src/laws.rs` — properties of the outline proved over the spec.
- `src/syntax.rs` — parsing with `syn` and converting its tree into the
  model (trusted, one for one; the result is named `parsed_items` of the
  text), and `extract_outline`, whose result is `source_outline` of the text.
- `app/main.rs` — the command line: reads a file and prints its outline.
