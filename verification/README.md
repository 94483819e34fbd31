# TermPlex

A window manager and terminal multiplexer for the terminal, with a client and a
server. The library holds what it decides and computes, with contracts that Verus
proves; the program around it does the input and output.

- `src/` is the library.
  - `protocol`, `framing`: messages, and how they are framed.
  - `emulator`, `terminal_screen`, `screen`, `color`, `snapshot`: what a terminal keeps
    and shows, and what clients are told.
  - `server`, `arrange`, `solo`, `tiling`, `layout`, `capture`, `session`: the windows
    of a session, what can be done with them, and what the server does for a message.
  - `terminal`, `window`, `command`: programs in terminals, and the command line.
  - `store`, `hits`, `input`, `client`, `mouse`, `events`, `clipboard`: a client.
  - `widgets`, `scene`: where the parts of the picture go.
  - `geometry`, `text`: rectangles and texts.
  - `agreement`: that clients and the server agree.
- `tests/` runs the library on concrete values.
- `app/` is the program: connections, pseudo terminals, drawing.
