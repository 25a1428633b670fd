# csvcat

A CSV viewer for the terminal. The library under `src/` is verified with Verus; the program under
`app/` opens files, reads keys and performs what the library says is to be drawn.

- `reader`: a table out of CSV bytes, through the `csv` crate.
- `table`: the width of each column.
- `text`: display columns, fitting and clipping text, decimal numbers.
- `geometry`: how many rows and which columns fit on a screen.
- `search`: which rows contain a query.
- `state`: the viewer's state and what each key does to it; `state_laws` says what holds of every
  session.
- `canvas`: a drawing as a list of texts and terminal commands.
- `render`, `viewer`: the lines of the table, the frame, the status bar and the printed table.
- `alignment`, `lines`, `viewer_laws`: all lines of a picture take the same columns, a frame fills
  the screen, and every state that keys lead to can be drawn.

`unicode-width` is held at 0.1.11, where the width of a text is the sum of the widths of its
characters. That a fitted cell takes exactly its columns rests on this.
