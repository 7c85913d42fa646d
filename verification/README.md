# lnk_forensic

A verified reader and analyzer for Windows Shell Link (`.lnk`) files and Jump
Lists, written in Verus.

- `parse_shell_link` turns `[MS-SHLLINK]` bytes into a typed `ShellLink`; its
  contract is the exact value the bytes describe (`shell_link_of`), and it is
  `None` exactly when the header is not a valid `ShellLinkHeader`.
- `parse_automatic_destinations` (a CFB compound file with a `DestList` stream)
  and `parse_custom_destinations` (a flat run of embedded links) read the two
  Jump List families; `parse_destlist` reads a `DestList` stream on its own.
- `audit`, `audit_findings` and `audit_jumplist` grade what a link or a list
  holds into hedged observations ("consistent with …").

Layout:

- `src/bytes.rs`, `src/text.rs` — bounds-checked field readers, FILETIME
  conversion, NUL-terminated strings, GUID and number renderings.
- `src/shell_link.rs`, `src/jumplist.rs` — the two readers, each proved against
  a specification of what the bytes hold.
- `src/audit.rs` — the anomaly kinds, their grades and notes, and the audits.
- `src/laws.rs` — properties of the library as a whole, proved.
- `src/wording.rs` — what a note may say: when its embedded fields use no
  verdict word, neither does the note, proved over the note templates and
  the shape of std's `Debug` escapes.
- `src/deps.rs` — the trusted boundary: the calls into `cfb`,
  `forensicnomicon` and std, each with the contract Verus takes on trust.
- `app/lib.rs` — the findings in `forensicnomicon::report` form (builder and
  `Observation` trait), which Verus does not see.
- `tests/` — concrete checks, including end-to-end fixtures built in code.
