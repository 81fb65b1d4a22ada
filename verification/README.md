# Maolan Player

A desktop audio player with playlists in tabs, a tray icon and basic transport
controls. The logic is a Verus library; windows, files, the tray and the audio
engine are ordinary Rust around it.

## Layout

- `src/app.rs` — the state of the player, its messages, what is to be done,
  and what every message does
- `src/update.rs` — handling of messages
- `src/view.rs` — what the window shows
- `src/input.rs` — keys, tray events and engine results as messages
- `src/playlist.rs`, `src/names.rs`, `src/reorder.rs`, `src/files.rs` —
  playlists, names of tabs, shuffling and sorting, songs in folders
- `src/pls.rs`, `src/round_trip.rs`, `src/store.rs` — the playlist file and
  the state file
- `src/title.rs`, `src/path.rs`, `src/text.rs`, `src/order.rs` — titles,
  paths, text and sorting
- `src/device.rs`, `src/buffer.rs`, `src/settings.rs`, `src/setup.rs` —
  backends, devices, buffer sizes and the settings screen
- `src/engine.rs` — conversations with the audio engine
- `src/tray.rs` — tooltip, menu, events and pixels of the tray icon
- `src/laws.rs`, `src/promises.rs` — what holds whatever the player is told
- `app/` — the program: `main`, windows, files, tray and engine

## Conventions

Every type of the library has a view, a plain mathematical value, and
contracts speak of views. A message is handled by `update`, which changes the
state and returns effects; the program carries them out in order and reports
back with further messages. Levels in dB are carried as the bits of a 32-bit
float and are not computed with.

Paths are byte strings with `/` between their components. Where the system has
another separator, the program hands paths over with `/` in its place and turns
it back when it opens a file.
