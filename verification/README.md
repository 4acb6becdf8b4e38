# tbr_gui

The decisions behind the window of a graphical e-book reader, verified with
[Verus](https://github.com/verus-lang/verus).

- `src/` is the library. It works on plain values; every function has a
  contract, and the laws that hold across functions are proof functions named
  `law_...` beside the functions they are about.
- `tests/` runs the library on given values.
- `app/` is the window itself, on the GTK toolkit.

| module      | what it decides                                                    |
|-------------|--------------------------------------------------------------------|
| `context`   | the state of the window, and what happens to it                    |
| `startup`   | how the program and its window come up                             |
| `history`   | which files were read, and the history menu                        |
| `chapters`  | which rows of the chapter list are selected                        |
| `keys`      | what the keys do, and the font sizes                               |
| `sidebar`   | opening, shutting and switching the sidebar                        |
| `selection` | what is done with selected text                                    |
| `settings`  | what new settings change                                           |
| `fonts`     | which fonts are loaded, in which order                             |
| `fontfile`  | how far the counts in a font file reach                            |
| `icons`     | which assets are icons, and how they are called                    |
| `buttons`   | the buttons of the toolbar and the entries of the popup menu       |
| `color`     | the page colors of a terminal theme                                |
| `readme`    | the introduction that is shown while no book is open               |
| `config`    | what is remembered between two runs                                |
| `text`      | comparing, joining and splitting text, and decimal numbers         |
