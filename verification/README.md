# edges

A lightweight window border tool for macOS: every suitable window gets an
overlay window that draws a colored border around it (a highlight color for
the focused window, another for the rest).

Layout:

- `src/` — the verified library (Verus). `settings` holds the border settings,
  the configuration-file overrides and the parsing of `0x`-prefixed ARGB
  colors; `events` decodes window server notifications; `window_manager`
  decides which windows deserve a border and keeps the table of live borders
  (focus, removal, stale borders); `border` holds the state of one border
  window. Lengths in points are kept as `f32` bit patterns.
- `app/` — the program: command line and configuration file, the SkyLight and
  CoreFoundation/CoreGraphics calls, the event loop and the drawing.
- `tests/` — tests of the library.

Options: `--width <N>` (default 4.0), `--style round|square|uniform`
(default round), `--active-color <HEX>` (default `0xffe1e3e4`),
`--inactive-color <HEX>` (default `0x00000000`), `--hidpi`, `--config <PATH>`
(default `~/.config/edges/edges.toml`). Command-line options override the
configuration file.
