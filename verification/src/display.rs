//! What the clock's display shows.

use crate::clock::ClockState;
use crate::decimal::{
    append_decimal, append_signed, append_two_digits, decimal, is_digit, lemma_decimal_len,
    lemma_two_digits_value, signed_decimal, ten_to, two_digits,
};
use crate::scan::{joined, law_split_joined, split};
use crate::text::{append, append_char, text};
use vstd::prelude::*;
use vstd::utf8::is_ascii_chars;

verus! {

/// Tenths, rounded toward zero to whole ones.
pub open spec fn whole_part(tenths: int) -> int {
    if tenths < 0 {
        -((-tenths) / 10)
    } else {
        tenths / 10
    }
}

/// The tenths that are left of it, without a sign.
pub open spec fn tenth_part(tenths: int) -> nat {
    if tenths < 0 {
        ((-tenths) % 10) as nat
    } else {
        (tenths % 10) as nat
    }
}

/// A temperature with one decimal. The sign is that of its whole part, so there
/// is none between minus one and zero.
pub open spec fn degrees(tenths: int) -> Seq<char> {
    signed_decimal(whole_part(tenths)).push('.') + decimal(tenth_part(tenths))
}

/// The hands of a clock.
pub open spec fn time_shown(hour: nat, minute: nat, second: nat) -> Seq<char> {
    two_digits(hour) + ":"@ + two_digits(minute) + ":"@ + two_digits(second)
}

/// The time of an alarm.
pub open spec fn alarm_shown(hour: nat, minute: nat) -> Seq<char> {
    two_digits(hour) + ":"@ + two_digits(minute)
}

/// What the display says of the alarm.
#[derive(Debug, Clone, Copy, PartialEq, Eq, Structural)]
pub enum AlarmStatus {
    Ringing,
    Armed,
    Off,
}

impl AlarmStatus {
    /// The word that the display shows.
    pub fn label(self) -> (label: &'static str)
        ensures
            label@ == (match self {
                AlarmStatus::Ringing => "RING!"@,
                AlarmStatus::Armed => "SET  "@,
                AlarmStatus::Off => "OFF  "@,
            }),
    {
        match self {
            AlarmStatus::Ringing => "RING!",
            AlarmStatus::Armed => "SET  ",
            AlarmStatus::Off => "OFF  ",
        }
    }
}

/// What the display says of a clock's alarm.
pub fn alarm_status(clock: &ClockState) -> (status: AlarmStatus)
    ensures
        status == (if clock.is_ringing {
            AlarmStatus::Ringing
        } else if clock.alarm_enabled {
            AlarmStatus::Armed
        } else {
            AlarmStatus::Off
        }),
        status is Ringing <==> clock.is_ringing,
        status is Off <==> !clock.is_ringing && !clock.alarm_enabled,
{
    if clock.is_ringing {
        AlarmStatus::Ringing
    } else if clock.alarm_enabled {
        AlarmStatus::Armed
    } else {
        AlarmStatus::Off
    }
}

/// Appends two numbers with a colon between them.
pub(crate) fn append_alarm<const N: usize>(out: &mut heapless::String<N>, hour: u8, minute: u8)
    requires
        is_ascii_chars(text(*old(out))),
        text(*old(out)).len() + 7 <= N,
    ensures
        text(*final(out)) == text(*old(out)) + alarm_shown(hour as nat, minute as nat),
        is_ascii_chars(text(*final(out))),
        text(*final(out)).len() <= text(*old(out)).len() + 7,
{
    let ghost before = text(*out);
    proof {
        reveal_strlit(":");
        lemma_two_digits_value(hour as nat);
        lemma_two_digits_value(minute as nat);
    }
    append_two_digits(out, hour);
    append(out, ":");
    append_two_digits(out, minute);
    assert(text(*out) =~= before + alarm_shown(hour as nat, minute as nat));
}

/// Appends three numbers with colons between them.
pub(crate) fn append_time<const N: usize>(
    out: &mut heapless::String<N>,
    hour: u8,
    minute: u8,
    second: u8,
)
    requires
        is_ascii_chars(text(*old(out))),
        text(*old(out)).len() + 11 <= N,
    ensures
        text(*final(out)) == text(*old(out)) + time_shown(
            hour as nat,
            minute as nat,
            second as nat,
        ),
        is_ascii_chars(text(*final(out))),
        text(*final(out)).len() <= text(*old(out)).len() + 11,
{
    let ghost before = text(*out);
    proof {
        reveal_strlit(":");
        lemma_two_digits_value(second as nat);
    }
    append_alarm(out, hour, minute);
    append(out, ":");
    append_two_digits(out, second);
    assert(text(*out) =~= before + time_shown(hour as nat, minute as nat, second as nat));
}

/// Appends a temperature with one decimal.
pub(crate) fn append_degrees<const N: usize>(out: &mut heapless::String<N>, tenths: i16)
    requires
        is_ascii_chars(text(*old(out))),
        text(*old(out)).len() + 8 <= N,
    ensures
        text(*final(out)) == text(*old(out)) + degrees(tenths as int),
        is_ascii_chars(text(*final(out))),
        text(*final(out)).len() <= text(*old(out)).len() + 8,
{
    let ghost before = text(*out);
    let whole: i16 = tenths / 10;
    let rest: i16 = tenths % 10;
    let tenth: u16 = if rest < 0 {
        (-rest) as u16
    } else {
        rest as u16
    };
    proof {
        assert(ten_to(5) == 100000) by {
            reveal_with_fuel(ten_to, 6);
        }
        assert(ten_to(1) == 10) by {
            reveal_with_fuel(ten_to, 2);
        }
        lemma_decimal_len(
            if whole < 0 {
                (-whole) as nat
            } else {
                whole as nat
            },
            5,
        );
        lemma_decimal_len(tenth as nat, 1);
    }
    append_signed(out, whole);
    append_char(out, '.');
    append_decimal(out, tenth);
    assert(text(*out) =~= before + degrees(tenths as int));
}

/// The line that shows the time.
pub fn time_text(clock: &ClockState) -> (line: heapless::String<12>)
    ensures
        text(line) == time_shown(clock.hour as nat, clock.minute as nat, clock.second as nat),
{
    let mut line: heapless::String<12> = heapless::String::new();
    append_time(&mut line, clock.hour, clock.minute, clock.second);
    assert(text(line) =~= time_shown(clock.hour as nat, clock.minute as nat, clock.second as nat));
    line
}

/// The line that shows the alarm.
pub fn alarm_text(clock: &ClockState) -> (line: heapless::String<8>)
    ensures
        text(line) == alarm_shown(clock.alarm_hour as nat, clock.alarm_minute as nat),
{
    let mut line: heapless::String<8> = heapless::String::new();
    append_alarm(&mut line, clock.alarm_hour, clock.alarm_minute);
    assert(text(line) =~= alarm_shown(clock.alarm_hour as nat, clock.alarm_minute as nat));
    line
}

/// The line that shows the temperature.
pub fn temperature_text(clock: &ClockState) -> (line: heapless::String<16>)
    ensures
        text(line) == degrees(clock.temp_tenths as int) + " C  "@,
{
    let mut line: heapless::String<16> = heapless::String::new();
    proof {
        reveal_strlit(" C  ");
    }
    append_degrees(&mut line, clock.temp_tenths);
    append(&mut line, " C  ");
    assert(text(line) =~= degrees(clock.temp_tenths as int) + " C  "@);
    line
}

/// The numbers of a time are shown one after the other with colons between them, each
/// with two digits at least: they come apart again as they were.
pub proof fn law_time_shown(hour: nat, minute: nat, second: nat)
    ensures
        split(time_shown(hour, minute, second), ':') == seq![
            two_digits(hour),
            two_digits(minute),
            two_digits(second),
        ],
        split(alarm_shown(hour, minute), ':') == seq![two_digits(hour), two_digits(minute)],
{
    let h = two_digits(hour);
    let m = two_digits(minute);
    let s = two_digits(second);
    reveal_strlit(":");
    assert(":"@ =~= seq![':']);
    lemma_no_colon(hour);
    lemma_no_colon(minute);
    lemma_no_colon(second);
    assert(seq![h, m, s].drop_first() =~= seq![m, s]);
    assert(seq![m, s].drop_first() =~= seq![s]);
    assert(seq![h, m].drop_first() =~= seq![m]);
    assert(joined(seq![s], ':') == s && joined(seq![m], ':') == m);
    assert(joined(seq![m, s], ':') == m.push(':') + s);
    assert(joined(seq![h, m, s], ':') == h.push(':') + joined(seq![m, s], ':'));
    assert(joined(seq![h, m], ':') == h.push(':') + m);
    assert(time_shown(hour, minute, second) =~= joined(seq![h, m, s], ':'));
    assert(alarm_shown(hour, minute) =~= joined(seq![h, m], ':'));
    law_split_joined(seq![h, m, s], ':');
    law_split_joined(seq![h, m], ':');
}

/// There is no colon in a number.
proof fn lemma_no_colon(n: nat)
    ensures
        !two_digits(n).contains(':'),
{
    let d = two_digits(n);
    lemma_two_digits_value(n);
    assert forall|i: int| 0 <= i < d.len() implies #[trigger] d[i] != ':' by {
        assert(is_digit(d[i]));
    }
}

/// A temperature is shown as its whole degrees, a point, and the one digit of the tenths
/// that are left: ten times the one and the other make up the tenths, and go the same way
/// from zero.
pub proof fn law_degrees(tenths: int, whole: int, left: nat)
    requires
        left < 10,
        tenths == 10 * whole + left && whole >= 0 || tenths == 10 * whole - left && whole <= 0,
    ensures
        degrees(tenths) == signed_decimal(whole) + seq!['.'] + decimal(left),
        decimal(left).len() == 1,
{
    assert(whole_part(tenths) == whole);
    assert(tenth_part(tenths) == left);
    assert(degrees(tenths) =~= signed_decimal(whole) + seq!['.'] + decimal(left));
}

} // verus!
