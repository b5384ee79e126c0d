# rovex_core

The verified core of the Rovex file manager, written in Verus.

- `src/` is the library. Every function there is verified against its
  `requires`/`ensures`: path rules (`path`, `winpath`), folder listings and
  their order (`filesystem`), file operations and their checks
  (`operations`), the clipboard payload (`clipboard`), opening files
  (`activation`, `open_with`), media conversion (`converters`) and the state
  behind the desktop window (`desktop`).
- `app/` is the command-line program around it: it reads the disk, the
  environment and the registry, runs the encoder and copies bytes, and asks
  the library for every decision. The graphical window is not part of this
  build.
- `tests/` runs the library on concrete values.

What comes from the platform (its path separator, the disk, the clock, the
processes) reaches the library as arguments, and the library states its
result for each value of them.
