# lightbox

Control logic for a box of buttons that drives an LED strip (over Open Pixel
Control) and a music player (MPD), verified with Verus.

- `src/lightstrip.rs`: pixels, `#rrggbb` colour codes, the strip's frame
  sequences for each message, and their Open Pixel Control encoding.
- `src/easyopc.rs`: the bytes of the simpler fixed-header pixel stream.
- `src/modes.rs`, `src/modes/`: the idle, colour and music modes, and the
  effects (LEDs, strip messages, player commands) that their buttons ask for.
- `src/control.rs`: mode switching driven by the button events, step by step
  so that failed work leaves the status where the step left it.
- `src/buttons.rs`: pin numbers and press detection on pin readings.
- `src/music.rs`: the retry rule for player commands.
- `app/`: the program around the library: GPIO, TCP, MPD, threads, and the
  loop that carries out the effects.
