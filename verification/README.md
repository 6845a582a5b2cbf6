# tembed_ui

The user interface of the LilyGo T-Embed CC1101 firmware, as a library whose
behaviour is stated in contracts and proved with Verus.

- `src/` is the library. Its functions are verified, except a few trusted
  wrappers (marked `#[verifier::external_body]`) that make calls into std and
  `trouble-host`:
  - `app` — the screens (main menu, BLE menu, BLE keyboard, BLE spam,
    settings, brightness, SD-card browser), the navigation stack and the
    application state machine, with the hardware commands each event asks
    for;
  - `ui` — the single-screen interface (menu, brightness pop-up, keyboard
    mode);
  - `standalone` — the stand-alone menu with long-press detection;
  - `input` — quadrature decoding of the encoder and debouncing of its
    buttons;
  - `sd_card` — directory entries, the file-system interface, paths, listing
    order, short 8.3 names and human-readable sizes;
  - `ble_hid` — HID keyboard reports and the advertising payloads;
  - `backlight` — the PWM duty of a brightness level.
- The `FileSystem` trait describes each implementation's answers with spec
  functions (`dir_listing`, `file_contents`, `write_outcome`, `has_file`);
  its contracts are assumed of the implementations, which are outside the
  library (the SD-card driver in `app/`, test doubles in `tests/`).
- `tests/` runs the library on concrete inputs.
- `app/` is the firmware around it: hardware set-up, the async tasks, the
  BLE host, the SD-card driver and drawing with `ratatui`.
