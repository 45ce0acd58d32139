# Tachyon

A GPU-accelerated terminal emulator for Windows, with a core that is proved against its contracts.

Everything that decides something is a verified library: what a byte of output does to the screen,
what a key sends, what a frame shows, where a glyph goes in the atlas, which shell is started with
which environment. Its functions carry contracts over mathematical models, and Verus proves each of
them. Around it stands a program in ordinary Rust that talks to the operating system.

## The library, `src/`

| Module   | What is in it |
| -------- | ------------- |
| `term`   | Cells, colours and modes; the grid with its scrollback and its reflow; the terminal's state and every control sequence it understands; the scanner that takes plain text past the parser |
| `input`  | What keys and the mouse send to an application |
| `config` | The settings file |
| `pty`    | Command lines, the environment block, the choice of a shell |
| `render` | What a frame is made of: colours, runs, glyphs to draw, the glyph atlas, fonts to try |
| `win`    | Messages of the system, tabs, selections, shortcuts, the mouse, pasting, pacing of frames, window edges, the search path |
| `cli`    | Arguments |
| `text`   | Characters, words, numbers |

`term::model` says what the terminal is and what each operation does to it; `term::terminal`
implements it. What holds over several operations stands in public proof functions: that output
split anywhere gives the same screen (`term::parser`), that re-wrapping loses no text that the
scrollback has room for (`term::reflow_laws`), that the alternate screen leaves no trace
(`term::laws`), that a quoted argument reads back (`pty::command`).

A few functions of other crates are trusted, each behind a small wrapper that says what is believed
of it: the escape-sequence parser `vte`, the width tables of `unicode-width`, the hash maps of
`rustc-hash`, and four functions of the standard library. The floating-point parts (layout, gamma,
blending) are not in the library.

## The program, `app/`

The window, Direct3D and DirectWrite, the pseudo console, files and the registry. It hands plain
values to the library and carries out what comes back.

## Tests, `tests/`

Scenarios on concrete values, with the other crates linked.
