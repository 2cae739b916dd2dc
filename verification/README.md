# hyprcircl

A radial (pie-menu) launcher for Hyprland and macOS, built with GTK4, whose
decision logic is verified with Verus.

- `src/` — the verified library: the CSS tokenizer, rule parser and theme
  model (`css`, `theme`), the per-property cascade laws (`cascade`), the configuration model and its file-search rules
  (`config`), the top-pill module text and refresh scheduling (`bar`), the
  menu navigation state machine (`nav`), and command launching, the daemon
  protocol and the command line (`command`).
- `app/` — the program around it: GTK window and Cairo/Pango drawing,
  floating-point geometry, TOML loading, threads, processes and sockets.
- `tests/` — tests of the library.
