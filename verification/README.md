# nus3edit

The editing core of a desktop editor for NUS3AUDIO and NUS3BANK sound
files, written in Verus: every function in `src/` carries a contract, and
Verus proves each one except those of the few trusted wrappers named below,
whose contracts describe outside code.

- `src/` — the verified library: the track table (search, stable sort,
  selection and batch actions), pending edits of sound banks (tone
  descriptors, group names, project properties) and their editors, track
  replacement and addition registries, WAV header reading and loop-point
  patching, the player's playlist, repeat and shuffle rules, keyboard
  shortcut routing, and the export decisions around vgmstream.
- `tests/` — tests run against the compiled library.
- `app/` — unverified glue: file and process I/O, the shared stores,
  egui keyboard input, the floating-point parts of playback, and the
  saved side-panel state.

The only outside code the library calls goes through a few trusted
wrappers: the `nus3audio` reader (called only on bytes where a verified
check shows that it returns) and encoder, `rand`, and std's string case
mapping and `String::push`, each documented where it is declared. Paths
are read as Windows reads them: `/` and `\` both separate components.
