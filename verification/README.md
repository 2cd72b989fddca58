# justshow

A verified X11 client library, written in Verus.

- `src/` is the library. Every function in it carries a contract that Verus proves:
  decoding and encoding of the X11 wire protocol (connection setup, events, replies, the
  RandR and MIT-SHM extensions), key symbol tables, the `DISPLAY` setting and authority
  files, a bitmap canvas with its drawing primitives, an immediate-mode user interface,
  window layouts, a BDF font lexer and parser, and the logic of a pong game.
- `app/` holds what talks to the outside world and what needs floating point: opening the
  connection to the X server (finding the display and the authority, the connection
  setup), the frame loop of the pong game around a window given to it, System V shared
  memory, anti-aliased circles, the slider, and fixed-point conversions. It sends no
  core requests after the setup.
- `tests/` exercises the library on concrete values.
