# binary-inspector

A safe ELF inspector whose decoding, analysis and reporting are proved with
Verus.

- `src/` is the verified library. `elf` decodes headers, sections, segments,
  dynamic data, symbols, notes and relocations from untrusted bytes, each
  step stated against a specification over those bytes, and derives the
  hardening findings; `report` renders the human-readable report exactly as
  its specification spells it out; `text` escapes binary-provided strings;
  `input` admits only regular, non-symlink files of bounded size; `view`
  selects and orders the rows of the desktop tables; `labels`, `fmt`,
  `hash`, `error`, `cli` and `model` hold the rest.
- Laws of the library are public proof functions beside the code they speak
  of (for example `elf::parsed_report_is_terminal_safe`,
  `text::escaped_is_lossless`, `elf::parsed_binary_is_bounded`,
  `labels::grouping_keeps_digits`).
- `app/` is the executable: argument parsing, file reading, JSON output, the
  entropy figures (floating point) and the desktop window.
- `tests/` exercises the library on concrete inputs.
