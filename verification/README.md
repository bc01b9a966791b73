# funclens

Rank the functions in a project by how many lines they span. Point it at a
directory and it walks the tree, finds every function across 25 languages using
tree-sitter, and prints the longest ones first, as `<lines> <name> <path>`.
`--logical` counts only the lines that carry code, skipping blank and
comment-only lines.

## Layout

- `src/` is the library, verified with Verus:
  - `registry.rs`: which file extensions select which language;
  - `language.rs`: building a language (grammar, compiled query, capture
    indices) and finding the language for an extension;
  - `filter.rs`: the `--include` / `--exclude` extension filter;
  - `scan.rs`: extracting function records from parsed files;
  - `rows.rs`: the physical and logical line counts;
  - `rank.rs`: longest first, ties broken by name and then by path;
  - `table.rs`: the right-aligned output rows;
  - `text.rs`: byte-wise string comparison;
  - `sitter.rs`, `grammars.rs`: the calls into tree-sitter, as unverified
    wrappers whose contracts are taken on trust.
- `app/main.rs` is the command line: argument parsing, the `.gitignore`-aware
  directory walk, reading files, the thread pool, and printing.
- `tests/` exercises the library on real parses.
