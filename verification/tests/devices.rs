use sunrise_alarm::bme280::{
    parse_calibration, temperature_tenths, Calibration, Sensor, SensorAction,
};
use sunrise_alarm::buzzer::{buzzer_action, BuzzerAction};
use sunrise_alarm::clock::ClockState;
use sunrise_alarm::leds::{byte_pulses, frame_bytes, scale_brightness, LedColor, Pulse, SunriseLights};

#[test]
fn brightness_is_scaled() {
    let color = LedColor { r: 200, g: 80, b: 10 };
    assert_eq!(scale_brightness(color, 85), LedColor { r: 170, g: 68, b: 8 });
    assert_eq!(scale_brightness(color, 100), color);
    assert_eq!(scale_brightness(color, 0), LedColor::off());
    // 255 * 255 / 100 is 650, which is 138 modulo 256.
    assert_eq!(scale_brightness(LedColor { r: 255, g: 1, b: 0 }, 255), LedColor { r: 138, g: 2, b: 0 });
}

fn before_alarm(minutes: u8) -> ClockState {
    let mut clock = ClockState::new();
    clock.alarm_enabled = true;
    clock.hour = 6;
    clock.minute = 60 - minutes;
    clock
}

#[test]
fn the_sunrise() {
    let mut lights = SunriseLights::new();
    let expected = [
        (1, LedColor { r: 255, g: 140, b: 30 }),
        (2, LedColor { r: 170, g: 68, b: 8 }),
        (3, LedColor { r: 78, g: 26, b: 0 }),
        (4, LedColor { r: 24, g: 6, b: 0 }),
        (5, LedColor { r: 4, g: 0, b: 0 }),
        (6, LedColor { r: 0, g: 0, b: 0 }),
    ];
    for (minutes, color) in expected {
        assert_eq!(lights.next_frame(&before_alarm(minutes)), [color; 16]);
    }
    let mut clock = ClockState::new();
    clock.alarm_enabled = true;
    clock.hour = 7;
    assert_eq!(lights.next_frame(&clock), [LedColor { r: 255, g: 200, b: 100 }; 16]);
    clock.alarm_enabled = false;
    assert_eq!(lights.next_frame(&clock), [LedColor::off(); 16]);
}

#[test]
fn the_sunrise_only_gets_brighter() {
    let mut lights = SunriseLights::new();
    let mut last = LedColor::off();
    for minutes in (0..10).rev() {
        let color = lights.next_frame(&before_alarm(minutes))[0];
        assert!(last.r <= color.r && last.g <= color.g && last.b <= color.b);
        last = color;
    }
    assert_eq!(last, LedColor { r: 255, g: 200, b: 100 });
}

#[test]
fn the_sunrise_over_midnight() {
    let mut lights = SunriseLights::new();
    let mut clock = ClockState::new();
    clock.alarm_enabled = true;
    clock.hour = 23;
    clock.minute = 58;
    clock.alarm_hour = 0;
    clock.alarm_minute = 1;
    assert_eq!(lights.next_frame(&clock), [LedColor { r: 78, g: 26, b: 0 }; 16]);
}

#[test]
fn the_lights_flash_while_the_alarm_rings() {
    let mut lights = SunriseLights::new();
    let mut clock = ClockState::new();
    clock.is_ringing = true;
    let white = LedColor { r: 255, g: 255, b: 255 };
    assert_eq!(lights.next_frame(&clock), [LedColor::off(); 16]);
    assert_eq!(lights.next_frame(&clock), [white; 16]);
    clock.is_ringing = false;
    assert_eq!(lights.next_frame(&clock), [LedColor::off(); 16]);
    clock.is_ringing = true;
    assert_eq!(lights.next_frame(&clock), [LedColor::off(); 16]);
    assert_eq!(lights.next_frame(&clock), [white; 16]);
}

#[test]
fn a_frame_is_sent_green_first() {
    let mut colors = [LedColor::off(); 16];
    colors[0] = LedColor { r: 1, g: 2, b: 3 };
    colors[15] = LedColor { r: 4, g: 5, b: 6 };
    let bytes = frame_bytes(&colors);
    assert_eq!(&bytes[..4], &[2, 1, 3, 0]);
    assert_eq!(&bytes[44..], &[0, 5, 4, 6]);
}

#[test]
fn a_byte_is_sent_high_bit_first() {
    let one = Pulse { high: 60, low: 32 };
    let zero = Pulse { high: 28, low: 64 };
    assert_eq!(byte_pulses(0b1010_0001), [one, zero, one, zero, zero, zero, zero, one]);
    assert_eq!(byte_pulses(0), [zero; 8]);
    assert_eq!(byte_pulses(255), [one; 8]);
}

#[test]
fn pulses_tell_bytes_apart() {
    for a in 0..=255u8 {
        let mut value: u8 = 0;
        for pulse in byte_pulses(a) {
            value = value * 2 + if pulse.high > pulse.low { 1 } else { 0 };
        }
        assert_eq!(value, a);
    }
}

#[test]
fn beeps_quicken() {
    assert_eq!(buzzer_action(false, 200), BuzzerAction::Rest { ms: 100 });
    for (secs, ms) in [(0, 500), (59, 500), (60, 300), (119, 300), (120, 200), (179, 200), (180, 100), (299, 100)] {
        assert_eq!(buzzer_action(true, secs), BuzzerAction::Beep { ms });
    }
}

#[test]
fn calibration_is_little_endian() {
    assert_eq!(
        parse_calibration(&[0x70, 0x6b, 0x43, 0x67, 0x18, 0xfc]),
        Calibration { t1: 27504, t2: 26435, t3: -1000 }
    );
    assert_eq!(
        parse_calibration(&[0xff, 0xff, 0x00, 0x80, 0xff, 0xff]),
        Calibration { t1: 65535, t2: -32768, t3: -1 }
    );
}

#[test]
fn a_measured_temperature() {
    let calibration = Calibration { t1: 27504, t2: 26435, t3: -1000 };
    // 519888 is 0x7eed0.
    assert_eq!(temperature_tenths(&calibration, &[0x7e, 0xed, 0x00]), 250);
    // 400000 is 0x61a80: below zero.
    let adc: i64 = 400000;
    let var1 = (adc / 8 - 27504 * 2) * 26435 / 2048;
    let tmp = adc / 16 - 27504;
    let var2 = (tmp * tmp / 4096) * -1000 / 16384;
    let expected = (((var1 + var2) * 5 + 128) / 256) as i16 / 10;
    assert_eq!(expected, -126);
    assert_eq!(temperature_tenths(&calibration, &[0x61, 0xa8, 0x00]), expected);
}

#[test]
fn temperatures_at_the_ends_of_their_range() {
    for t1 in [0u16, 1, 32768, 65535] {
        for t2 in [i16::MIN, -1, 0, 1, i16::MAX] {
            for t3 in [i16::MIN, -1, 0, 1, i16::MAX] {
                for raw in [[0u8, 0, 0], [0xff, 0xff, 0xff], [0x80, 0, 0x10], [0x7f, 0xff, 0xf0]] {
                    let adc = ((raw[0] as i64) << 12) | ((raw[1] as i64) << 4) | ((raw[2] as i64) >> 4);
                    let (d1, d2, d3) = (t1 as i64, t2 as i64, t3 as i64);
                    let var1 = (adc / 8 - d1 * 2) * d2 / 2048;
                    let tmp = adc / 16 - d1;
                    let var2 = (tmp * tmp / 4096) * d3 / 16384;
                    let hundredths = (((var1 + var2) * 5 + 128) / 256) as i16;
                    assert_eq!(temperature_tenths(&Calibration { t1, t2, t3 }, &raw), hundredths / 10);
                }
            }
        }
    }
}

fn probe_all(answers: &[u8]) -> Sensor {
    let mut sensor = Sensor::new();
    assert_eq!(sensor.action(), SensorAction::Wait { ms: 2000 });
    assert_eq!(sensor.advance(true, &[0; 6]), None);
    for expected in 0x08u8..=0x77 {
        assert_eq!(sensor.action(), SensorAction::Probe { addr: expected });
        assert_eq!(sensor.advance(answers.contains(&expected), &[0; 6]), None);
    }
    sensor
}

#[test]
fn the_lowest_address_is_used() {
    assert_eq!(probe_all(&[0x77, 0x76]), Sensor::Identifying { addr: 0x76 });
    assert_eq!(probe_all(&[0x08, 0x77]), Sensor::Identifying { addr: 0x08 });
    assert_eq!(probe_all(&[0x77]), Sensor::Identifying { addr: 0x77 });
    let mut none = probe_all(&[]);
    assert_eq!(none, Sensor::Stopped);
    assert_eq!(none.action(), SensorAction::Stop);
    assert_eq!(none.advance(true, &[1; 6]), None);
    assert_eq!(none, Sensor::Stopped);
}

#[test]
fn the_sensor_is_set_up_and_read() {
    let mut sensor = probe_all(&[0x76]);
    assert_eq!(sensor.action(), SensorAction::Read { addr: 0x76, register: 0xD0, count: 1 });
    assert_eq!(sensor.advance(true, &[0x60, 0, 0, 0, 0, 0]), None);
    assert_eq!(sensor.action(), SensorAction::Read { addr: 0x76, register: 0x88, count: 6 });
    assert_eq!(sensor.advance(true, &[0x70, 0x6b, 0x43, 0x67, 0x18, 0xfc]), None);
    assert_eq!(sensor.action(), SensorAction::Write { addr: 0x76, register: 0xF4, value: 0x27 });
    assert_eq!(sensor.advance(true, &[0; 6]), None);
    assert_eq!(sensor.action(), SensorAction::Wait { ms: 100 });
    assert_eq!(sensor.advance(true, &[0; 6]), None);
    assert_eq!(sensor.action(), SensorAction::Read { addr: 0x76, register: 0xFA, count: 3 });
    assert_eq!(sensor.advance(true, &[0x7e, 0xed, 0x00, 0, 0, 0]), Some(250));
    assert_eq!(sensor.action(), SensorAction::Wait { ms: 30000 });
    assert_eq!(sensor.advance(true, &[0; 6]), None);
    assert_eq!(sensor.advance(false, &[0x7e, 0xed, 0x00, 0, 0, 0]), None);
    assert_eq!(sensor.action(), SensorAction::Wait { ms: 30000 });
}

#[test]
fn a_sensor_that_cannot_be_set_up_is_given_up() {
    for fails_at in 0..3 {
        let mut sensor = probe_all(&[0x10]);
        for _ in 0..fails_at {
            sensor.advance(true, &[0; 6]);
        }
        sensor.advance(false, &[0; 6]);
        assert_eq!(sensor, Sensor::Stopped);
    }
}
