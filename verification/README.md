# arch_install_manager

The logic of an Arch Linux package manager (repository and AUR installs,
updates, a privileged helper), written in Verus with its behaviour stated in
`requires`/`ensures` contracts and proved.

Layout:

- `src/` — the verified library.
  - `cli.rs` — command-line parsing and the update-check decisions.
  - `engine/` — the AUR side of installs: `.SRCINFO` dependencies, the
    resolver state machine that plans builds (`resolve.rs`), the update
    picker (`picker.rs`), parsing of picks (`picks.rs`) and the rendering of
    search results (`render.rs`).
  - `ipc/` — the request framing between the application and the helper
    (`protocol.rs`), the client's checks (`client.rs`) and what the helper
    runs for each request (`server.rs`).
  - `helpers/` — AUR RPC URLs and results, PKGBUILD review, search merging
    and ranking, installed-package listings, dates, shortcuts.
  - `ui/` — the decisions of the graphical interface: the update list, the
    information panel and dialogs, theme detection.
  - `ordering.rs` — a verified stable sort used by the lists.
  - `text.rs` — string and character helpers with their specifications.
  - `clock.rs` — the clock and local time zone, from `chrono`.
- `tests/` — tests of the library on concrete values.
- `app/` — the programs `daim`, `daim-helper` and `daim-check`: process
  spawning, sockets, libalpm, the network and the terminal.

Left out, for want of their sources: the AUR scanner (packages carry its
findings in `aur_scan_findings`, grouped by severity, most severe first, and
the library shows them; nothing here produces them), the editing of
`IgnorePkg` in pacman.conf (the helper answers such requests with an error),
the stored list of AUR maintainers (maintainer changes are not detected), the
user settings, the Arch news, the tray and the post-update checks, and the
graphical interface itself, whose decisions are in `src/ui/`.
