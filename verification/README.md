# steamdualboot

A Steam Deck dual-boot tool in two parts: an installer app that carves a
Windows 11 partition out of the SteamOS home partition and installs Windows
into it, and a UEFI boot picker styled after Steam Big Picture that chainloads
SteamOS or Windows.

`src/` is the verified library (Verus):

* `config` — the picker's `key=value` config file: reading it back gives what
  was saved (countdown capped at 60 s).
* `input`, `picker` — keys to navigation events; the picker's state machine
  (highlight, countdown, default, boot) and its screen as a list of drawing
  operations.
* `canvas`, `text`, `theme` — the software framebuffer and its exact integer
  drawing primitives, glyph drawing from the Noto Sans Mono bitmaps, colours.
* `frame` — performing the picker's drawing operations on the canvas (the
  rounded shapes' solid parts exactly, their anti-aliased corner squares
  through coverage values the caller supplies): what each does to the pixels, that
  nothing outside its box changes, that a tile stays in its box and the
  footer in its band, and that a frame does not depend on what was on screen.
* `engine` — the installer: preflight checks, ISO verdicts, home-partition
  detection, the dry-run / `pkexec` decision, the six install steps as planned
  actions and their progress reports, and the `autounattend.xml` answer file,
  proved never to contain a `<DiskConfiguration>` element.
* `strings` — `str` operations specified over `Seq<char>`.

`app/` is the unverified glue: Tauri commands, process spawning and files for
the installer; GOP, keyboard, ESP files and chainloading for the picker; and
the floating-point parts (partition sizes in GiB, anti-aliased corner
coverage values).

`tests/` runs the library on concrete values.
