# herdr

The orchestrator side of a terminal daemon: which panes are registered, what
each has reported, how a pane is launched, drawn, typed into, handed over and
torn down. Every function of the library has a contract, and Verus proves it.

- `src/termhost`: the protocol, the picture of each pane, the client's state,
  pane handles, and how a daemon is found, spawned and shut down.
- `src/pane`: commands, shells, working directories, the input mirror, drawing,
  the runtime of a pane, and a terminal double for tests.
- `src/seam_client`: the small client that a probe needs.
- `src/text.rs`, `src/kitty_keyboard.rs`, `src/input.rs`, `src/wire.rs`,
  `src/terminal`: what the others share.
- `app`: sockets, threads, processes, the environment, JSON and the screen. The
  library decides and gives back what to send; this carries it out.
- `tests`: the library on concrete values.

What is believed without proof is marked `external_body` or
`assume_specification`, each beside the outside function it speaks of: base64,
character widths, the decoding of UTF-8, and appending a character to a string.
