//! The ring of lights: a sunrise before the alarm, a flash while it rings, and
//! the signal that brings the colours to the lights.

use crate::clock::ClockState;
use vstd::prelude::*;

verus! {

/// How many lights there are.
pub const LED_COUNT: usize = 16;

/// How many bytes the colours of all lights take.
pub const FRAME_BYTES: usize = 48;

/// For how many steps the line stays low after a frame, so that the lights take
/// it on.
pub const LATCH_STEPS: u32 = 4000;

/// The colour of a light.
#[derive(Debug, Clone, Copy, PartialEq, Eq, Structural)]
pub struct LedColor {
    pub r: u8,
    pub g: u8,
    pub b: u8,
}

impl LedColor {
    /// No light at all.
    pub fn off() -> (color: LedColor)
        ensures
            color == dark(),
    {
        LedColor { r: 0, g: 0, b: 0 }
    }
}

/// How long the line is high, and then low, for one bit.
#[derive(Debug, Clone, Copy, PartialEq, Eq, Structural)]
pub struct Pulse {
    pub high: u32,
    pub low: u32,
}

/// The lights, which flash while the alarm rings.
#[derive(Debug, Clone, Copy, PartialEq, Eq, Structural)]
pub struct SunriseLights {
    /// The next flash is bright.
    pub bright: bool,
}

/// A component of a colour at a percentage of its brightness, modulo 256.
pub open spec fn scaled(component: u8, pct: u8) -> u8 {
    ((component * pct) / 100 % 256) as u8
}

/// A colour at a percentage of its brightness.
pub open spec fn scaled_color(color: LedColor, pct: u8) -> LedColor {
    LedColor { r: scaled(color.r, pct), g: scaled(color.g, pct), b: scaled(color.b, pct) }
}

/// The minutes from the hands to the alarm: to that of the next day, where
/// today's has passed.
pub open spec fn minutes_to_alarm(clock: ClockState) -> int {
    let minutes = clock.alarm_hour * 60 + clock.alarm_minute - clock.hour * 60 - clock.minute;
    if minutes < 0 {
        minutes + 24 * 60
    } else {
        minutes
    }
}

/// The colour of the sunrise so many minutes before the alarm, and its
/// brightness in percent.
pub open spec fn sunrise(minutes: int) -> Option<(LedColor, u8)> {
    if minutes == 0 {
        Some((LedColor { r: 255, g: 200, b: 100 }, 100u8))
    } else if minutes == 1 {
        Some((LedColor { r: 255, g: 140, b: 30 }, 100u8))
    } else if minutes == 2 {
        Some((LedColor { r: 200, g: 80, b: 10 }, 85u8))
    } else if minutes == 3 {
        Some((LedColor { r: 120, g: 40, b: 0 }, 65u8))
    } else if minutes == 4 {
        Some((LedColor { r: 60, g: 15, b: 0 }, 40u8))
    } else if minutes == 5 {
        Some((LedColor { r: 20, g: 3, b: 0 }, 20u8))
    } else {
        None
    }
}

/// No light at all.
pub open spec fn dark() -> LedColor {
    LedColor { r: 0, g: 0, b: 0 }
}

/// The colour of all lights: white or none in turn while the alarm rings, that
/// of the sunrise before it, and else none.
pub open spec fn shown_color(clock: ClockState, bright: bool) -> LedColor {
    if clock.is_ringing {
        if bright {
            LedColor { r: 255, g: 255, b: 255 }
        } else {
            dark()
        }
    } else if clock.alarm_enabled {
        match sunrise(minutes_to_alarm(clock)) {
            Some((color, pct)) => scaled_color(color, pct),
            None => dark(),
        }
    } else {
        dark()
    }
}

/// The bit of `byte` that is sent as number `i`: the highest comes first.
pub open spec fn sent_bit(byte: u8, i: int) -> bool {
    (byte >> ((7 - i) as u8)) & 1 == 1
}

/// The pulse that stands for a bit.
pub open spec fn pulse_for(bit: bool) -> Pulse {
    if bit {
        Pulse { high: 60, low: 32 }
    } else {
        Pulse { high: 28, low: 64 }
    }
}

/// The byte of a frame with number `k`: three per light, green first.
pub open spec fn frame_byte(colors: Seq<LedColor>, k: int) -> u8 {
    let color = colors[k / 3];
    if k % 3 == 0 {
        color.g
    } else if k % 3 == 1 {
        color.r
    } else {
        color.b
    }
}

/// A colour at a percentage of its brightness.
pub fn scale_brightness(color: LedColor, pct: u8) -> (result: LedColor)
    ensures
        result == scaled_color(color, pct),
{
    LedColor {
        r: scale_component(color.r, pct),
        g: scale_component(color.g, pct),
        b: scale_component(color.b, pct),
    }
}

/// A component of a colour at a percentage of its brightness.
fn scale_component(component: u8, pct: u8) -> (result: u8)
    ensures
        result == scaled(component, pct),
{
    assert(0 <= component * pct <= 255 * 255) by (nonlinear_arith)
        requires
            component <= 255,
            pct <= 255,
    ;
    ((component as u16 * pct as u16) / 100 % 256) as u8
}

/// The colour of the sunrise so many minutes before the alarm, and its
/// brightness in percent.
fn sunrise_color(minutes: i32) -> (result: Option<(LedColor, u8)>)
    ensures
        result == sunrise(minutes as int),
{
    match minutes {
        0 => Some((LedColor { r: 255, g: 200, b: 100 }, 100)),
        1 => Some((LedColor { r: 255, g: 140, b: 30 }, 100)),
        2 => Some((LedColor { r: 200, g: 80, b: 10 }, 85)),
        3 => Some((LedColor { r: 120, g: 40, b: 0 }, 65)),
        4 => Some((LedColor { r: 60, g: 15, b: 0 }, 40)),
        5 => Some((LedColor { r: 20, g: 3, b: 0 }, 20)),
        _ => None,
    }
}

impl SunriseLights {
    /// Lights whose first flash is dark.
    pub fn new() -> (lights: SunriseLights)
        ensures
            !lights.bright,
    {
        SunriseLights { bright: false }
    }

    /// The colours to show next. While the alarm rings, the flash after this one
    /// is of the other kind.
    pub fn next_frame(&mut self, clock: &ClockState) -> (frame: [LedColor; LED_COUNT])
        ensures
            forall|i: int|
                0 <= i < LED_COUNT ==> #[trigger] frame[i] == shown_color(
                    *clock,
                    old(self).bright,
                ),
            final(self).bright == (clock.is_ringing != old(self).bright),
            final(self).bright != old(self).bright <==> clock.is_ringing,
    {
        let mut color = LedColor::off();
        if clock.is_ringing {
            if self.bright {
                color = LedColor { r: 255, g: 255, b: 255 };
            }
            self.bright = !self.bright;
        } else if clock.alarm_enabled {
            let current_total: i32 = clock.hour as i32 * 60 + clock.minute as i32;
            let alarm_total: i32 = clock.alarm_hour as i32 * 60 + clock.alarm_minute as i32;
            let mut mins_to_alarm: i32 = alarm_total - current_total;
            if mins_to_alarm < 0 {
                mins_to_alarm += 24 * 60;
            }
            if let Some((base, brightness)) = sunrise_color(mins_to_alarm) {
                color = scale_brightness(base, brightness);
            }
        }
        [color; LED_COUNT]
    }
}

/// The bytes of a frame, in the order in which they are sent.
pub fn frame_bytes(colors: &[LedColor; LED_COUNT]) -> (bytes: [u8; FRAME_BYTES])
    ensures
        forall|k: int| 0 <= k < FRAME_BYTES ==> #[trigger] bytes[k] == frame_byte(colors@, k),
        forall|i: int|
            0 <= i < 16 ==> bytes[3 * i] == (#[trigger] colors[i]).g && bytes[3 * i + 1]
                == colors[i].r && bytes[3 * i + 2] == colors[i].b,
{
    let mut bytes: [u8; FRAME_BYTES] = [0u8; FRAME_BYTES];
    let mut i: usize = 0;
    while i < LED_COUNT
        invariant
            i <= LED_COUNT,
            forall|k: int| 0 <= k < 3 * i ==> #[trigger] bytes[k] == frame_byte(colors@, k),
        decreases LED_COUNT - i,
    {
        let c: LedColor = colors[i];
        bytes[3 * i] = c.g;
        bytes[3 * i + 1] = c.r;
        bytes[3 * i + 2] = c.b;
        i += 1;
    }
    bytes
}

/// The pulses of a byte, in the order in which they are sent.
pub fn byte_pulses(byte: u8) -> (pulses: [Pulse; 8])
    ensures
        forall|i: int| 0 <= i < 8 ==> #[trigger] pulses[i] == pulse_for(sent_bit(byte, i)),
{
    let mut pulses: [Pulse; 8] = [Pulse { high: 28, low: 64 }; 8];
    let mut i: usize = 0;
    while i < 8
        invariant
            i <= 8,
            forall|j: int| 0 <= j < i ==> #[trigger] pulses[j] == pulse_for(sent_bit(byte, j)),
            forall|j: int| i <= j < 8 ==> #[trigger] pulses[j] == pulse_for(false),
        decreases 8 - i,
    {
        if (byte >> ((7 - i) as u8)) & 1 == 1 {
            pulses[i] = Pulse { high: 60, low: 32 };
        }
        i += 1;
    }
    pulses
}

/// A percentage up to a hundred makes no component brighter.
pub proof fn law_scaling_dims(component: u8, pct: u8)
    requires
        pct <= 100,
    ensures
        scaled(component, pct) <= component,
{
    assert(0 <= component * pct <= component * 100) by (nonlinear_arith)
        requires
            pct <= 100,
    ;
}

/// Between times of day, the minutes to the alarm are those of the rest of the
/// day up to it.
pub proof fn law_minutes_to_alarm(clock: ClockState)
    requires
        clock.time_in_range(),
        clock.alarm_in_range(),
    ensures
        0 <= minutes_to_alarm(clock) < 1440,
        minutes_to_alarm(clock) == (clock.alarm_seconds() / 60 - clock.seconds_of_day() / 60)
            % 1440,
{
}

/// While no alarm rings, the lights are on in the five minutes before an alarm
/// that is on and in its own minute, and at no other time.
pub proof fn law_sunrise_before_alarm(clock: ClockState, bright: bool)
    requires
        !clock.is_ringing,
    ensures
        shown_color(clock, bright) != dark() <==> clock.alarm_enabled && 0 <= minutes_to_alarm(
            clock,
        ) <= 5,
{
}

/// The sunrise only gets brighter: nearer to the alarm no component of its colour
/// is darker.
pub proof fn law_sunrise_brightens(earlier: ClockState, later: ClockState, bright: bool)
    requires
        !earlier.is_ringing && earlier.alarm_enabled,
        !later.is_ringing && later.alarm_enabled,
        0 <= minutes_to_alarm(later) <= minutes_to_alarm(earlier),
    ensures
        shown_color(earlier, bright).r <= shown_color(later, bright).r,
        shown_color(earlier, bright).g <= shown_color(later, bright).g,
        shown_color(earlier, bright).b <= shown_color(later, bright).b,
{
}

/// While the alarm rings, the colour of one frame is never that of the next.
pub proof fn law_flash_alternates(clock: ClockState, later: ClockState, bright: bool)
    requires
        clock.is_ringing,
        later.is_ringing,
    ensures
        shown_color(clock, bright) != shown_color(later, clock.is_ringing != bright),
{
}

/// The pulses of a byte tell which byte it is.
pub proof fn law_pulses_tell_byte(a: u8, b: u8)
    requires
        forall|i: int|
            0 <= i < 8 ==> #[trigger] pulse_for(sent_bit(a, i)) == pulse_for(sent_bit(b, i)),
    ensures
        a == b,
{
    assert forall|i: int| 0 <= i < 8 implies sent_bit(a, i) == sent_bit(b, i) by {
        assert(pulse_for(sent_bit(a, i)) == pulse_for(sent_bit(b, i)));
    }
    assert(sent_bit(a, 0) == sent_bit(b, 0) && sent_bit(a, 1) == sent_bit(b, 1));
    assert(sent_bit(a, 2) == sent_bit(b, 2) && sent_bit(a, 3) == sent_bit(b, 3));
    assert(sent_bit(a, 4) == sent_bit(b, 4) && sent_bit(a, 5) == sent_bit(b, 5));
    assert(sent_bit(a, 6) == sent_bit(b, 6) && sent_bit(a, 7) == sent_bit(b, 7));
    assert(a == b) by (bit_vector)
        requires
            ((a >> 7u8) & 1 == 1) == ((b >> 7u8) & 1 == 1),
            ((a >> 6u8) & 1 == 1) == ((b >> 6u8) & 1 == 1),
            ((a >> 5u8) & 1 == 1) == ((b >> 5u8) & 1 == 1),
            ((a >> 4u8) & 1 == 1) == ((b >> 4u8) & 1 == 1),
            ((a >> 3u8) & 1 == 1) == ((b >> 3u8) & 1 == 1),
            ((a >> 2u8) & 1 == 1) == ((b >> 2u8) & 1 == 1),
            ((a >> 1u8) & 1 == 1) == ((b >> 1u8) & 1 == 1),
            ((a >> 0u8) & 1 == 1) == ((b >> 0u8) & 1 == 1),
    ;
}

/// The bytes of a frame tell the colours of its lights.
pub proof fn law_frame_tells_colors(a: Seq<LedColor>, b: Seq<LedColor>)
    requires
        a.len() == LED_COUNT,
        b.len() == LED_COUNT,
        forall|k: int| 0 <= k < FRAME_BYTES ==> #[trigger] frame_byte(a, k) == frame_byte(b, k),
    ensures
        a == b,
{
    assert forall|i: int| 0 <= i < LED_COUNT implies a[i] == b[i] by {
        assert(frame_byte(a, 3 * i) == frame_byte(b, 3 * i));
        assert(frame_byte(a, 3 * i + 1) == frame_byte(b, 3 * i + 1));
        assert(frame_byte(a, 3 * i + 2) == frame_byte(b, 3 * i + 2));
    }
    assert(a =~= b);
}

/// A frame is sent light by light, and of each light green, red and blue: whatever
/// the colours are, the three bytes of a light are those of its own colour.
pub proof fn law_frame_order(colors: Seq<LedColor>, i: int)
    requires
        colors.len() == LED_COUNT,
        0 <= i < LED_COUNT,
    ensures
        frame_byte(colors, 3 * i) == colors[i].g,
        frame_byte(colors, 3 * i + 1) == colors[i].r,
        frame_byte(colors, 3 * i + 2) == colors[i].b,
        LED_COUNT == 16 && FRAME_BYTES == 3 * LED_COUNT,
{
}

/// A frame of one colour is sent as groups of three bytes that are all the same.
pub proof fn law_even_frame(colors: Seq<LedColor>, i: int, j: int)
    requires
        colors.len() == LED_COUNT,
        forall|k: int| 0 <= k < LED_COUNT ==> #[trigger] colors[k] == colors[0],
        0 <= i < FRAME_BYTES,
        0 <= j < FRAME_BYTES,
        i % 3 == j % 3,
    ensures
        frame_byte(colors, i) == frame_byte(colors, j),
{
    assert(colors[i / 3] == colors[0] && colors[j / 3] == colors[0]);
}

/// A bit is sent as a long pulse and a short pause where it is one, and as a short
/// pulse and a long pause where it is zero. Both take as long, and the line rests
/// after a frame for longer than any pause.
pub proof fn law_pulse_lengths(bit: bool)
    ensures
        bit ==> pulse_for(bit).high == 60 && pulse_for(bit).low == 32,
        !bit ==> pulse_for(bit).high == 28 && pulse_for(bit).low == 64,
        pulse_for(bit).high + pulse_for(bit).low == 92,
        LATCH_STEPS == 4000 && pulse_for(bit).low < LATCH_STEPS,
{
}

/// The bits of a byte are sent from the highest to the lowest: with the values that
/// their places have, they add up to the byte.
pub proof fn law_bits_make_byte(byte: u8)
    ensures
        byte == (if sent_bit(byte, 0) { 128int } else { 0 }) + (if sent_bit(byte, 1) {
            64int
        } else {
            0
        }) + (if sent_bit(byte, 2) { 32int } else { 0 }) + (if sent_bit(byte, 3) {
            16int
        } else {
            0
        }) + (if sent_bit(byte, 4) { 8int } else { 0 }) + (if sent_bit(byte, 5) {
            4int
        } else {
            0
        }) + (if sent_bit(byte, 6) { 2int } else { 0 }) + (if sent_bit(byte, 7) { 1int } else { 0 }),
{
    let b0 = byte >> 7u8 & 1;
    let b1 = byte >> 6u8 & 1;
    let b2 = byte >> 5u8 & 1;
    let b3 = byte >> 4u8 & 1;
    let b4 = byte >> 3u8 & 1;
    let b5 = byte >> 2u8 & 1;
    let b6 = byte >> 1u8 & 1;
    let b7 = byte >> 0u8 & 1;
    assert(b0 <= 1 && b1 <= 1 && b2 <= 1 && b3 <= 1 && b4 <= 1 && b5 <= 1 && b6 <= 1 && b7 <= 1
        && byte == 128u8 * b0 + 64u8 * b1 + 32u8 * b2 + 16u8 * b3 + 8u8 * b4 + 4u8 * b5 + 2u8 * b6
        + b7) by (bit_vector)
        requires
            b0 == byte >> 7u8 & 1,
            b1 == byte >> 6u8 & 1,
            b2 == byte >> 5u8 & 1,
            b3 == byte >> 4u8 & 1,
            b4 == byte >> 3u8 & 1,
            b5 == byte >> 2u8 & 1,
            b6 == byte >> 1u8 & 1,
            b7 == byte >> 0u8 & 1,
    ;
}

/// Scaling takes a share of each component, rounded down, and where that is more than
/// a byte holds, its low byte: `whole` is the share and `left` what rounding leaves.
pub proof fn law_scaling(color: LedColor, pct: u8, component: u8, whole: int, left: int)
    requires
        component * pct == 100 * whole + left,
        0 <= left < 100,
    ensures
        component == color.r ==> scaled_color(color, pct).r == whole % 256,
        component == color.g ==> scaled_color(color, pct).g == whole % 256,
        component == color.b ==> scaled_color(color, pct).b == whole % 256,
        pct <= 100 ==> scaled(component, pct) == whole,
        scaled_color(color, 100) == color,
        scaled_color(color, 0) == (LedColor { r: 0, g: 0, b: 0 }),
{
    assert((component * pct) / 100 == whole);
    assert(0 <= component * pct) by (nonlinear_arith);
    if pct <= 100 {
        assert(component * pct <= component * 100) by (nonlinear_arith)
            requires
                pct <= 100,
        ;
    }
}

/// The lights of a silent alarm. `minutes` is the time from the hands to the alarm, a
/// day added where it is negative. Up to five minutes before an alarm that is on, the
/// lights go from a faint red to a warm white. At any other time, and where the alarm
/// is off, they are dark.
pub proof fn law_sunrise_colors(clock: ClockState, bright: bool, minutes: int)
    requires
        !clock.is_ringing,
        ({
            let ahead = (clock.alarm_hour * 60 + clock.alarm_minute) - (clock.hour * 60
                + clock.minute);
            minutes == ahead && ahead >= 0 || minutes == ahead + 1440 && ahead < 0
        }),
    ensures
        ({
            let c = shown_color(clock, bright);
            let on = clock.alarm_enabled;
            &&& minutes_to_alarm(clock) == minutes
            &&& on && minutes == 5 ==> c.r == 4 && c.g == 0 && c.b == 0
            &&& on && minutes == 4 ==> c.r == 24 && c.g == 6 && c.b == 0
            &&& on && minutes == 3 ==> c.r == 78 && c.g == 26 && c.b == 0
            &&& on && minutes == 2 ==> c.r == 170 && c.g == 68 && c.b == 8
            &&& on && minutes == 1 ==> c.r == 255 && c.g == 140 && c.b == 30
            &&& on && minutes == 0 ==> c.r == 255 && c.g == 200 && c.b == 100
            &&& !on || minutes < 0 || minutes > 5 ==> c.r == 0 && c.g == 0 && c.b == 0
        }),
{
}

/// The lights of an alarm that rings are white or dark, as their turn is, whatever
/// else the clock says.
pub proof fn law_flash_colors(clock: ClockState, bright: bool)
    requires
        clock.is_ringing,
    ensures
        ({
            let c = shown_color(clock, bright);
            &&& bright ==> c.r == 255 && c.g == 255 && c.b == 255
            &&& !bright ==> c.r == 0 && c.g == 0 && c.b == 0
        }),
{
}

} // verus!
