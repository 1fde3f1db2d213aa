# Sunrise alarm

An alarm clock on two boards. One keeps the time, shows it on a small display,
lights a ring of LEDs in the minutes before the alarm, and beeps while it rings.
The other opens a Wi-Fi access point with a web page to set the clock. They talk
over a serial link, one line of text at a time.

- `src/` is the logic of both boards, verified with Verus: the clock, the
  commands and reports on the link, the web page, the lights, the buzzer, the
  display, and the temperature sensor. Functions named `law_...` state what holds
  of several of them together.
- `tests/` runs it on concrete values.
- `app/` is the programs on the boards: peripherals, timers, sockets. The board
  with the clock is the default. With `--cfg network_board` the image is that of
  the board with the web page, and the firmware of its Wi-Fi chip is expected in
  `firmware/`.

Strings are `heapless::String`s. What `src/text.rs` states of their methods is
not proved, nor is what `src/web.rs` states of `core::str::from_utf8`.
