# Termland

A remote desktop for Wayland. A server runs a headless compositor per session
(labwc for a desktop, cage for a single program), captures and encodes its
screen, and sends it to desktop and mobile clients, which send input back. A
session outlives its connections: a client that loses one comes back to the same
session.

This repository holds the rules of that system as a library in Verus: every
function states what it returns or changes, and the statement is proved.

## Layout

- `src/protocol` - messages and their ids, framing, the binary headers of the
  media streams, key codes, and files on the clipboard.
- `src/codec` - which encoder or decoder to try, how to set it up, and how to
  recover when it fails.
- `src/client` - the desktop client: its arguments, the connection and its
  retries, the session window and what is drawn over it, the trays, the session
  manager, and what it keeps on disk.
- `src/compositor` - starting a compositor, typing into it, and reading its
  screen, its pointer and its windows.
- `src/mobile` - the core of the mobile clients.
- `src/text.rs`, `src/paths.rs`, `src/pixels.rs` - what the others share.
- `tests` - tests of the library by example.
- `app` - the program around it: sockets, Wayland, FFmpeg, sound and windows. It
  asks the library what to do, does it, and says how it went.

## How the library is written

Work that waits for the outside is a state machine: a function takes the state
and what happened and says what to do next (`connection::handshake_step`,
`decoder::VideoDecoder`, `input::TextInjection`, `output_resize::OutputState`).
Times are passed in, in milliseconds or seconds. Floating-point positions are
carried as their bit patterns.

Laws that span several functions stand beside them as public proof functions,
for example `frame::frames_round_trip`, `connection::a_lost_session_is_resumed`,
`input::the_keymap_is_always_restored` or
`backend::privileges_are_dropped_in_order`.

What is believed without proof is small: `bytes::BytesMut` as a sequence of
bytes, the glyphs of `font8x8`, and a few functions of the standard library on
text. Each such item says in its comment what it claims.
