# wiim_display

The logic of a small ESP32 display that shows what a WiiM network audio
player is playing, as a Verus-verified library, with the device code around it.

- `src/encoding.rs`: the player reports title, artist and album as hex digits
  of UTF-8 text; the specification of that decoding and the trusted calls into
  `hex::decode` and `std::str::from_utf8`.
- `src/model/`: the player's status and its decoding into track information
  (`player_status`), the detection of a changed track (`audio_player`), and a
  player that is due to be asked again ten seconds after it was last asked,
  and is updated only when due (`mod.rs`; the program polls it and fetches).
- `src/view/`: a line of text that scrolls back and forth when it is longer
  than the display (`scroll_textblock`), and the three-line player screen
  (`player_ui`).
- `src/device/http.rs`: the text of an HTTP response read into a buffer.
- `app/`: the ESP-IDF program: Wi-Fi, HTTP, the TFT display, the background
  thread that polls the player, and JSON parsing of its status.
