# ankurah-chat-leptos

The decision logic of the ankurah chat components for Leptos, written in Verus
and proved against its contracts: what the composer does with each key and
draft, the read cursors and unread badges, direct-message pairing, reaction
chips, the message actions menu, and the host handshake's session cache.

## Layout

- `src/` — the verified library. Each module states its model in spec
  functions, proves every public function against an exact contract, and
  holds the laws that span several functions as public proof functions
  (`law_*`).
  - `context` — the session cache every surface shares, and the accessor
    steps that never serve one session's query or cursor manager to another.
  - `read_state` — read cursors, unread counts, and the flush loop's steps.
  - `dm` — two-person conversations, agreed on from either seat.
  - `composer`, `keys`, `latch` — drafts, mentions, shortcodes, sending,
    keyboard handling, and when an anonymous reader is asked to sign in.
  - `reactions`, `menu`, `rooms`, `timeline` — the remaining surfaces'
    decisions.
  - `text` — string helpers, with the few std calls Verus has no
    specification for behind small trusted wrappers.
- `tests/` — ordinary Rust tests that run the library on concrete values.
- `app/` — the Leptos components: DOM, reactive signals, and ankurah reads and
  writes. It runs the library's steps and does what they decide.

Verify with `verus` on `src/lib.rs`; run the tests with `cargo test`.
