# cobol_sizer

Computes the size in bytes of the records of a COBOL copybook written for
Micro Focus RM/COBOL, and lists its groups, its items, or the groups larger
than the RM/COBOL limit of 65280 bytes.

The library under `src/` is verified with Verus:

- `text` — searching, replacing, splitting, trimming and tokenizing
  character sequences; decimal numbers in both directions; padding.
- `source` — comment lines and the sequence area dropped; the text cut into
  statements.
- `entry` — each statement taken apart into level number, name and clause;
  OCCURS counts carried into the members of a group.
- `field` — field kinds, usages and picture sizes.
- `record`, `layout` — classification, REDEFINES and condition entries left
  out, group sizes, total size, the RM/COBOL limit.
- `report` — the listing lines with their indentation by depth.
- `program` — a whole run, from the options and the lines of a copybook to
  the lines printed.
- `patterns`, `external` — the regular expressions (through the `regex`
  crate) and the other calls whose contracts are trusted.
- `laws` — properties relating these functions.

`app/main.rs` reads the command line (with `clap`) and the file, and prints
what the library computes.
