# nexus_tui

A terminal client for the Nexus chat and forum server. The client's logic
is a library verified with Verus; a thin front end drives it.

## Layout

- `src/` — the verified library.
  - `model.rs` — users, forums, servers, messages and the protocol enums.
  - `text.rs`, `codec.rs` — character-level helpers and the Base64 and
    image-decoding calls.
  - `services/` — message validation and command parsing, profile
    validation and image fields, image decoding and the image cache
    (time to live, least-recently-used eviction), and the chat service
    (mention and emoji suggestions, message lines, avatar requests).
  - `state/` — the state of each screen: login, chat, forums, profile,
    notifications, menus and popups.
  - `handlers/` — what each key does on each screen.
  - `server_events.rs` — what each message from the server does.
  - `app.rs` — the application state and its operations; sounds, desktop
    notifications, messages to the server and preference saves are queued
    as effects for the front end.
  - `notify.rs`, `prefs.rs`, `appearance.rs`, `time_format.rs`,
    `avatar.rs`, `sound.rs`, `input.rs` — desktop notification contents,
    global preferences, theme and background selection, message times,
    the round avatar mask, sound kinds, key events.
  - `properties.rs` — properties that span calls: reading back what the
    cache stored, the order of suggestion and user lists, drafts kept per
    conversation, and more.
- `tests/` — tests of the library on concrete values.
- `app/` — the front end: terminal, TLS connection with bincode frames,
  drawing, and carrying out the library's effects.

Run the client with the server address and, optionally, a PEM file of the
certificate to trust: `nexus_tui 127.0.0.1:8080 cert.pem`.
