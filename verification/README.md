# parkour_lobby

A Minecraft lobby server built on valence: players spawn at a configured place,
see a sidebar, a boss bar, a welcome title and display entities, chat with each
other, fall back to the spawn when they drop below a minimum height, and can run
parkour courses made of checkpoints.

The decisions are a verified library (`src/`, checked with Verus):

- `config` — reading configuration values (game mode, boss bar colour and
  division, item and block kinds) and the messages for values that are refused;
- `legacy` — splitting text written with `§` format codes into styled runs;
- `parkour` — starting, advancing, cancelling and completing a course, and the
  action bar text, with the laws that a tracker stays valid and that stepping on
  every checkpoint in order completes the course;
- `world` — the spawn chunks to load, the sidebar scores, the welcome title, the
  out-of-bounds rule and chat lines;
- `decimal`, `text` — number formatting and character helpers;
- `outside` — the calls into `std` and valence whose results the library names.

`app/main.rs` is the server itself: it reads `config.toml`, runs the valence app,
and hands the library plain values (block positions, elapsed tenths of a second)
computed from the game's floating-point state.
