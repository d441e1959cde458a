# rms_check

Syntax checking, linting and formatting for Age of Empires 2 random map scripts, with the
library's behaviour stated in contracts and proved with Verus.

- `src/` is the verified library: the word splitter and the parser, the parse state that
  tracks definitions, nesting and compatibility, the lints and the checker that runs them,
  the formatter, syntax highlighting, folding ranges, automatic fixes, reading maps from plain
  files and ZR@ archives, and what the language server decides (ranges, diagnostics, code
  actions, edits, signature help, message headers). `src/laws.rs` holds the properties that
  span several functions.
- `tests/` runs the library on concrete scripts.
- `app/` is the command line program around it: `check`, `fix`, `format`, `pack`, `unpack`
  and the language server, with the file, terminal and network input and output.

## Collections

- The names that the definition files declare, and the `#const` / `#define` values of a
  script, are kept in `Vec`s and looked up by a loop. A `HashSet<String>` or
  `HashMap<String, _>` was not kept: with a `String` key Verus states nothing about what a
  lookup finds, so no contract over those names could be proved through it.
- The table of known tokens is a set of functions over a fixed list, searched in order. A
  `lazy_static` map is built by a macro of an outside crate, which cannot stand in verified
  code, and a `String`-keyed map would again leave lookups unstated.

## Definition files

`RMSFile::from_string`, `from_zip_rms` and `from_bytes` add three empty `random_map.def`
files, so only what the script itself defines is known. To check against the game's
definitions, pass their texts to `RMSFile::from_string_with_definitions` or `RMSFile::new`.
