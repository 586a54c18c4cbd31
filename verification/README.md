# rhinco_tv

The logic of a couch-friendly game and application launcher for Linux, verified
with Verus: finding games (Steam, Heroic, SNES and N64 emulators) and desktop
applications, ordering the rows, navigating them with a gamepad or keyboard,
starting entries and watching the started game, running system updates, and
gathering system information.

## Layout

- `src/` — the verified library. Each module states its behaviour in
  `requires`/`ensures` contracts over mathematical models (`Seq`, `Map`, spec
  functions), and the laws that span several functions are public proof
  functions named `law_*`.
  - the screen as a state machine (message in, command out): `screen`
  - rows and navigation: `model`, `category_list`, `navigation`, `session`,
    `virtual_keyboard`, `gamepad`
  - game and app discovery: `game_sources`, `heroic`, `json`, `desktop_apps`,
    `entries`, `roms`, `snes9x`, `mupen64plus`, `gopher64`, `simple64`, `paths`
  - starting and watching: `launcher`, `monitor`, `osk`, `sleep_inhibit`,
    `auth_flow`
  - system tools: `system_update`, `system_update_state`, `system_info`
  - cover art: `artwork`
  - text handling shared by all: `text`, `user_dirs`
- `tests/` — tests of the library on concrete values.
- `app/` — a console front end: it reads the disk, runs programs and prints,
  handing plain values to the library's screen as messages and performing the
  commands it answers with.
