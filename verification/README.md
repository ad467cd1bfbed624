# Nudge

A tray app that asks, every few minutes, "what am I doing?" and appends the
answer to a journal (`<Documents>/Nudge/journal-rust.ndjson`). A daisy in the
tray loses a petal per twelfth of the interval; when the last one has fallen
the popup comes up.

## Layout

- `src/` — the verified library (Verus). Every decision of the app lives
  here with its contract:
  - `hotkey` — the hotkey label grammar (`parse`, `format`), the key
    recorder's mapping; proved: `parse(format(h)) == h`, each modifier bit
    is set exactly when a segment names that modifier, case and whitespace
    around `+` do not matter.
  - `nudge_state` — the close decision of the popup, interval parsing, the
    tray tooltip, repaint cadence, window anchor.
  - `popup` — the popup's state machine (open, which input closes it, what a
    close does).
  - `daisy` — the petal timeline; proved: petals fall evenly, only ever fall,
    and the popup fires only after the last drift.
  - `tray_bridge` — the tray thread's loop (redraw, tooltip, fire once per deadline,
    sleep), the state shared with the popup, hotkey registration codes, live
    reload of the config.
  - `timer`, `span`, `number` — the countdown, time spans, doubles held by
    their bit patterns.
  - `journal` — events and their validation (including the RFC 3339
    timestamp with milliseconds and an offset), the NDJSON line framing.
  - `config`, `config_watcher`, `autostart`, `settings_app`,
    `word_jump`, `text` — configuration, change detection, the
    transactional autostart rule (`os_call`, `autostart_step`), the settings window's state, word-wise
    cursor movement, text helpers.
- `tests/` — tests of the library on concrete values.
- `app/` — the program: windows (egui/eframe), file I/O and JSON, the file
  watcher, the daisy's pixel rendering, the tray thread's clock and sleeping.
