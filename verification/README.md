# fetch_screen

The engine of a desktop screenshot tool with scrolling (long) screenshots and
pinned image windows, written in Verus.

* `src/` — the verified library:
  * `column_match` — column-sampled MAD matching of consecutive frames, with
    the hint-first candidate order;
  * `stitcher` — the long-image canvas and the row-appending step;
  * `controller` — what each captured frame does in manual and automatic
    scroll capture (re-anchoring, rate limiting, end-of-page detection);
  * `pixels`, `desktop`, `hitbox`, `pins`, `cache`, `config`, `fft`,
    `encoding` — pixel conversions, screen geometry, pin-window hit areas and
    registry, settings and JPEG data URLs.
* `app/` — the Tauri application around it: windows, hotkeys, tray, screen
  grabbing through Win32/xcap, clipboard, files, and the floating-point parts
  (FFT phase correlation, window sizing).
* `tests/` — executable tests of the library.
