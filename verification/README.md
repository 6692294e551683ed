# scrap_dxgi

The Windows screen-capture front end of a remote-desktop capture library, verified with Verus.

- `src/display.rs` — monitors as the backend describes them, and the choice between the
  GDI and DXGI display lists (with its ordering laws).
- `src/capturer.rs` — the desktop-duplication and Magnification capturers, generic over
  the backend that does the platform work.
- `src/window.rs` — the per-window GDI capture: what each capture attempt hands out.
- `src/utf16.rs` — lossy UTF-16 decoding of display names, with its round-trip law.
- `src/pixel_buffer.rs`, `src/error.rs` — frames, pixel buffers and capture errors.
- `app/` — the GDI calls of the window capture and the `std::io` error conversions.
