# aWay

A username-based remote desktop for a handful of people: users log in to a
signaling server with a username and password (no numeric IDs), ask each other
for a connection, accept or reject it, and then exchange the WebRTC session
descriptions and ICE candidates through the server. The screen travels as H264
over a WebRTC video track, mouse and keyboard over a data channel; the server
never sees the media. A TURN relay (coturn) with short-lived credentials covers
networks where peer-to-peer fails.

## Layout

- `src/` — the library, verified with Verus.
  - `protocol` — the signaling messages.
  - `ws`, `state`, `users`, `turn`, `config` — the signaling server's decisions
    for one connection, the online users and sessions, the account store
    (argon2), TURN credentials (HMAC-SHA1, base64) and the configuration from
    environment values. `signaling_laws` proves properties across messages.
  - `engine` — the client's connection engine as a state machine (window
    commands, server messages and peer connection events in; a new state and
    actions out); `engine_laws` proves properties across steps.
  - `convert` — BGRA to I420 with box-filter downscaling to any size, and I420
    back to RGB, in integer BT.601 limited range; `convert_laws`.
  - `capture` — the sharing loop's decisions: the output size ladder and its
    controller, key frames, skipping unchanged frames, statistics;
    `capture_laws`.
  - `decode` — H264 decoding (openh264) into drawable frames.
  - `signaling`, `input`, `forms` — the signaling client's waits, remote input
    events, and the window's form decisions.
  - `text`, `strmap` — text helpers and a string-keyed map.
- `tests/` — tests of the library on concrete values.
- `app/` — the program around it: the WebSocket server (axum), the accounts
  file, the command-line client (WebRTC data channel), and the media client's
  plumbing (screen capture, encoding, video track, input injection, and the
  window behind the `media` feature).

Run the server with `away` (configured by `AWAY_BIND`, `AWAY_ACCOUNTS`,
`AWAY_TURN_SECRET`, `AWAY_TURN_URLS`, `AWAY_STUN_URLS`, `AWAY_TURN_TTL`,
`AWAY_ALLOW_REGISTER`), create accounts with `away adduser <name> <password>`,
and run a client with `away client --user <name> --pass <password> [--connect <peer>]`.
