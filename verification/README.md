# ainav

Keyboard-driven screen navigation: after a hotkey, the program reads the key
of a character and looks for it on a screenshot.

- `src/` is the verified library (Verus): pixel luminance, the light-text and
  dark-text bitmaps of a frame and the images made from them, the search for
  the Emacs cursor, screen rectangles, the hotkey session state machine and
  the unpacking of screenshot pixels. Bit vectors come from `bit_vec` and
  image buffers from `image`, behind trusted wrappers in `src/bits.rs` and
  `src/raster.rs`.
- `app/` is the X11 program around it: XCB/Xlib calls, the event loop, file
  writes and mouse movement.
- `tests/` exercises the library on concrete frames and events.

Looking up font files through fontconfig is out of scope: the program does
not use it.
