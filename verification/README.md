# med

A small modal text editor for the terminal, in the style of vi: normal,
insert, command-line and operator-pending modes, counts, line and character
edits, and `:q`, `:w [path]`, `:e path`.

The editor's logic is a library verified with Verus:

- `src/editor/`: the editor state and what each key does to it (`update`),
  cursor motion and text edits (`text.rs`), the command line and its
  commands (`cmdline.rs`), buffers and their file contents (`buffer.rs`),
  the check of which keys the editor can take (`guard.rs`), and laws that
  hold across operations (`laws.rs`).
- `src/layout.rs`: splitting the screen into regions.
- `src/render.rs`: the texts, colors and cursor place the screen shows.
- `src/terminal/`: the cell grid, its differences, and the drawing
  commands they turn into.
- `src/strings.rs`: byte-level `String` operations stated over UTF-8.

`app/` is the program around it: the terminal, file reading and writing,
and the event loop. It performs what `update` leaves to it (writing a
buffer, opening a file) and hands the results back to the library.
