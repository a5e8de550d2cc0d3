# animecix

The logic of a desktop client for the animecix streaming site, written in
Verus: every function under `src/` carries a `requires` / `ensures`
contract over mathematical models (`Seq`, `Map`, `int`, views) and is proved
by the verifier.

## Layout

- `src/` — the verified library.
  - `text`, `json` — string helpers and the JSON value model the API replies
    are read through.
  - `session`, `account` — cookie jar, XSRF token, login / logout /
    favourites as request–reply state machines.
  - `xeh` — the `X-E-H` request signature (AES-256-GCM through `ring`,
    base64 through `base64`, both behind trusted wrappers).
  - `history`, `home` — watch history merging and the home page's
    continue-watching pager.
  - `playback`, `supervisor`, `embedded`, `mpv`, `cinema` — the decisions
    of the player: retries, skip prompts, source fallback, the IPC replies of
    mpv, the cinematic overlay timers.
  - `media`, `installer`, `views`, `shortcuts` — file names and URLs,
    distribution detection and install commands, the small formulas and
    labels of the user interface, the shortcut configuration.
  - `episodes`, `discover`, `info`, `settings` — the episode list (season
    tabs, quick search, row progress), the discover filter, the review /
    news / calendar texts, and the settings page's drop-downs and sidebar
    switches.
  - Laws that span several functions are public proof functions named
    `lemma_*` next to the functions they speak of.
- `tests/` — ordinary Rust tests run against the compiled library.
- `app/` — the command-line front end: HTTP through `reqwest`, files,
  the mpv process and its socket, and the few computations on floats.
