# effer

An encrypted notepad for the terminal. The notes are the lines of one text
file; the first line records the settings (page size, row spacing, colors),
and the whole text is sealed with a key derived from a password and kept
as hexadecimal text.

## Layout

- `src/` — the library, verified with Verus: the file format and its
  sealing (`encryption` and `hex`, with the outside cryptography in
  `crypto`), the
  note operations and paging rules (`notes`, `file`), the settings header
  (`settings`), the notes file's path with `~` and environment variables
  expanded (`paths`), colors, menus and screens (`colors`, `menu`, `screen`,
  `modes`), and the dialogs that decide what a user's answers do
  (`input`, `security`, `session`, `arguments`). Laws that span operations
  (what a save reads back as, what an undo restores, where the last-edited
  note goes after a swap or a move, the header settings read back as
  written) are public proof functions next to the operations they speak of.
- `app/` — the program around it: command-line parsing, the prompt, the
  terminal screen and keys, and the reading and writing of files.
- `tests/` — tests of the library on concrete values.
