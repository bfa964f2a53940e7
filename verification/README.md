# alsp

Repository maps, symbol lookup and call graphs for source trees, and a local protocol that serves
them.

- `src/` is the library, written in Verus. What each function returns is stated in its contract
  and proved; `src/laws/` holds what is proved of the functions together.
- `app/` is the program around it: the command line, the adapter that listens on TCP, the walks
  over directories, and the TypeScript language server as a child process.
- `tests/` runs the library.

Two things are taken from outside on trust, each behind a small function that says what is
believed of it: the `regex` crate, which matches the line patterns, and of the standard library
the lower case of a text, appending a character to a `String` and taking a root off a path.
