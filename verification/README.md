# relocator

A verified library that reads 64-bit little-endian ELF relocatable objects and
turns their absolute data relocations into `R_X86_64_COPY` relocations, with a
small command-line front end.

- `src/bytes.rs` — little-endian integer codec over byte buffers.
- `src/types.rs` — the ELF64 records, section and symbol constants, and the
  x86-64 relocation kinds with their loader formulas.
- `src/strtab.rs` — string tables: strings by offset, all strings, symbol and
  section names.
- `src/relocate.rs` — symbol and relocation sections, symbol lookup for
  relocation entries, and the rewrite of relocations with its report.
- `src/elf.rs` — the layout of an object in its bytes (`parse_elf`), the
  reader `convert_raw_to_elf`, the rewrite of a whole object, writing the
  rewritten kinds back, and `relocate_image`, which does all three.
- `src/laws.rs` — properties that span several functions: code round trips,
  idempotence of the rewrite on the model and on the bytes, and what writing
  back does and does not change.
- `app/main.rs` — reads the file named on the command line, checks the
  conditions under which the library's functions apply, calls
  `relocate_image`, prints what it rewrote, and writes the file back.

Every function in `src/` is verified with Verus; the one call outside it,
`std::str::from_utf8`, stands behind a wrapper whose contract states what the
standard library documents.
