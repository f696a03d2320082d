# anki_tui

A keyboard-driven terminal client for reviewing Anki cards through the
AnkiConnect add-on. The logic of the program is a Verus-verified library; a
thin front end drives the terminal and the network.

## Layout

- `src/` — the verified library:
  - `text.rs` — character-sequence helpers (search, ASCII case, decimals).
  - `media.rs` — scanning card HTML: `[sound:…]` references, `<img>` tags and
    their `src`, `<hr>` rules, text blocks, image sizes in terminal cells, and
    the rendering of card HTML to styled lines.
  - `deck.rs` — the deck tree: labels, parents, depths, fold state, ordering.
  - `anki.rs` — records exchanged with AnkiConnect and the decisions taken on
    its replies (an inactive review screen, media files in base64).
  - `stats.rs` — the card-info popup: rows, history and interval texts.
  - `view.rs` — the text of the screens: deck rows, grading hints, the layout
    of a card body, the history table and its colours.
  - `app.rs` — the state machine of the deck list and the review screen. Each
    exchange with Anki is a `Request` the front end carries out; its outcome
    goes back as a `Reply` to `App::resume`.
  - `sort.rs` — a stable insertion sort with its proof.
  - `laws.rs` — properties that span several operations (undo, grading,
    folding, ordering, media scanning).
- `tests/` — tests of the library on concrete values.
- `app/` — the terminal front end: AnkiConnect over HTTP, ratatui drawing,
  images through ratatui-image, audio playback and the fold state on disk.

## Configuration

- `ANKI_CONNECT_URL` (default `http://127.0.0.1:8765`): the AnkiConnect endpoint.
- `ANKI_TUI_AUDIO_CMD` (default `afplay`): the command that plays an audio
  file; the file's path is appended as its last argument.
