# Bottles plugins

The plugin support of Bottles, with the part that decides and computes proved in
Verus.

- `src/` is the library. Its operations are values that say what to do next and
  take the answer; the relations `.._next` state what each step comes to, and the
  proof functions `law_..` what holds of whole runs.
- `tests/` runs the library with the real crates around it.
- `app/` is the host's side: it reads and writes the files, runs the commands,
  holds the locks and drives the component runtime.

What the library takes on trust is marked `external_body`,
`external_type_specification` or `assume_specification`, each with a comment that
names the function or type of the other crate and says what is claimed of it.
