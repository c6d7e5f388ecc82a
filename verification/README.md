# binbook_x4

Firmware and display logic for the Xteink X4 e-ink reader, written in Verus:
the functions in `src/` carry contracts that the verifier proves.

Three small functions in `src/` only call the standard library, and their
contracts are trusted rather than proved: `is_white` (`char::is_whitespace`)
and `parse_decimal_u32` (`str::parse::<u32>`) in `src/fw/serial.rs`, and
`utf8_str` (`core::str::from_utf8`) in `src/protocol/store.rs`. Each says in
its doc comment what its contract claims of the call.

- `src/protocol` — the diagnostic serial protocol: wire codes, payload codecs,
  COBS framing with a CRC, and the storage requests.
- `src/display` — the 480×800 logical page on the 800×480 panel: the GRAY2
  framebuffer and its drawing operations, row packing, refresh policy, probe
  windows, plane streaming, and the display engine as a step machine.
- `src/fw` — the reader firmware: button decoding, page turns, the library
  menu, deferred grayscale refresh, resume and crash records, the diagnostic
  log and console, the flash layout, the line console, and the decisions of
  the runtime tasks.
- `tests/` — tests run against the compiled library.
- `app/` — glue that Verus does not see: `embedded-graphics` drawing onto
  the framebuffer, the menu's text, and the flash stores that read and write
  internal flash through `embedded-storage`.
