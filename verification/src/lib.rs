//! A sunrise alarm clock, made of two boards.
//!
//! The clock board keeps the time (`clock`), shows it (`display`), lights a
//! sunrise before the alarm (`leds`), beeps while it rings (`buzzer`), and reads
//! a temperature sensor (`bme280`). The network board serves a web page (`web`).
//! They talk over a serial link, one line of text at a time (`line`): commands
//! go to the clock (`command`), and reports on it come back (`telemetry`).
//!
//! `text`, `decimal` and `scan` are what the lines are made with: strings of
//! bounded size, numbers in decimal, and taking strings apart.
//!
//! The functions here compute. The programs on the boards do the input and the
//! output.

pub mod bme280;
pub mod buzzer;
pub mod clock;
pub mod command;
pub mod decimal;
pub mod display;
pub mod leds;
pub mod line;
pub mod scan;
pub mod telemetry;
pub mod text;
pub mod web;
