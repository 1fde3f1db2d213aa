//! The report that the clock board sends to the network board every few seconds.

use crate::clock::ClockState;
use crate::decimal::{
    all_digits, append_signed, append_two_digits, decimal, digits_value, is_digit,
    law_number_read, lemma_decimal_len, lemma_decimal_value, lemma_digits_read, lemma_signed_read,
    lemma_two_digits_value, number_in, read_i16, read_u8, signed_decimal, ten_to, two_digits,
};
use crate::line::{
    cut, fed, fed_all, law_line_arrives, law_line_cut, without_returns, LineBuffer, NEWLINE,
};
use crate::scan::{
    blank, is_white_space, joined, law_split_joined, law_trimmed, law_until, lemma_split_part,
    lemma_trimmed_same, position, same_text, split, strip_prefix, trim, trimmed, until,
};
use crate::text::{
    append, append_char, lemma_printable, lemma_printable_concat, printable, text,
};
use vstd::prelude::*;
use vstd::utf8::{encode_utf8, is_ascii_chars};

verus! {

/// The bytes that a report may take with its line end, as it is sent.
pub const REPORT_CAPACITY: usize = 64;

/// The bytes that a line may take where reports are received.
pub const TELEMETRY_CAPACITY: usize = 128;

/// What the network board knows of the clock: nothing until `fresh`.
#[derive(Debug, Clone, Copy, PartialEq, Eq, Structural)]
pub struct Telemetry {
    pub temp_tenths: i16,
    pub alarm_hour: u8,
    pub alarm_minute: u8,
    pub alarm_enabled: bool,
    pub alarm_ringing: bool,
    pub cur_hour: u8,
    pub cur_minute: u8,
    pub cur_second: u8,
    pub fresh: bool,
}

/// A flag as a report shows it.
pub open spec fn flag(b: bool) -> Seq<char> {
    if b {
        seq!['1']
    } else {
        seq!['0']
    }
}

/// The report on a clock, without its line end.
pub open spec fn report(clock: ClockState) -> Seq<char> {
    "T:"@ + signed_decimal(clock.temp_tenths as int) + ",AH:"@ + two_digits(clock.alarm_hour as nat)
        + ",AM:"@ + two_digits(clock.alarm_minute as nat) + ",AE:"@ + flag(clock.alarm_enabled)
        + ",AR:"@ + flag(clock.is_ringing) + ",CH:"@ + two_digits(clock.hour as nat) + ",CM:"@
        + two_digits(clock.minute as nat) + ",CS:"@ + two_digits(clock.second as nat)
}

/// What a report on a clock should tell.
pub open spec fn told_by(clock: ClockState) -> Telemetry {
    Telemetry {
        temp_tenths: clock.temp_tenths,
        alarm_hour: clock.alarm_hour,
        alarm_minute: clock.alarm_minute,
        alarm_enabled: clock.alarm_enabled,
        alarm_ringing: clock.is_ringing,
        cur_hour: clock.hour,
        cur_minute: clock.minute,
        cur_second: clock.second,
        fresh: true,
    }
}

/// The telemetry before any report.
pub open spec fn no_report() -> Telemetry {
    Telemetry {
        temp_tenths: 0,
        alarm_hour: 0,
        alarm_minute: 0,
        alarm_enabled: false,
        alarm_ringing: false,
        cur_hour: 0,
        cur_minute: 0,
        cur_second: 0,
        fresh: false,
    }
}

/// The number from 0 to 255 in a field of a report, or 0 where there is none.
pub open spec fn byte_in(value: Seq<char>) -> u8 {
    match number_in(trimmed(value), false) {
        Some(v) => if v <= 255 {
            v as u8
        } else {
            0
        },
        None => 0,
    }
}

/// The temperature in a field of a report, or 0 where there is none.
pub open spec fn temperature_in(value: Seq<char>) -> i16 {
    match number_in(trimmed(value), true) {
        Some(v) => if -32768 <= v <= 32767 {
            v as i16
        } else {
            0
        },
        None => 0,
    }
}

/// The flag in a field of a report.
pub open spec fn flag_in(value: Seq<char>) -> bool {
    trimmed(value) == "1"@
}

/// `t` with what one part of a report tells. Unknown parts tell nothing.
pub open spec fn with_part(t: Telemetry, part: Seq<char>) -> Telemetry {
    if "T:"@.is_prefix_of(part) {
        Telemetry { temp_tenths: temperature_in(part.skip(2)), ..t }
    } else if "AH:"@.is_prefix_of(part) {
        Telemetry { alarm_hour: byte_in(part.skip(3)), ..t }
    } else if "AM:"@.is_prefix_of(part) {
        Telemetry { alarm_minute: byte_in(part.skip(3)), ..t }
    } else if "AE:"@.is_prefix_of(part) {
        Telemetry { alarm_enabled: flag_in(part.skip(3)), ..t }
    } else if "AR:"@.is_prefix_of(part) {
        Telemetry { alarm_ringing: flag_in(part.skip(3)), ..t }
    } else if "CH:"@.is_prefix_of(part) {
        Telemetry { cur_hour: byte_in(part.skip(3)), ..t }
    } else if "CM:"@.is_prefix_of(part) {
        Telemetry { cur_minute: byte_in(part.skip(3)), ..t }
    } else if "CS:"@.is_prefix_of(part) {
        Telemetry { cur_second: byte_in(part.skip(3)), ..t }
    } else {
        t
    }
}

/// `t` with what the parts of a report tell, one after the other.
pub open spec fn with_parts(t: Telemetry, parts: Seq<Seq<char>>) -> Telemetry
    decreases parts.len(),
{
    if parts.len() == 0 {
        t
    } else {
        with_parts(with_part(t, parts[0]), parts.drop_first())
    }
}

/// What a line tells: the last word of its parts on each field, and 0 or no on
/// those of which it says nothing.
pub open spec fn told_in(line: Seq<char>) -> Telemetry {
    Telemetry { fresh: true, ..with_parts(no_report(), split(line, ',')) }
}

/// What the end of a line does to the telemetry: an empty line tells nothing.
pub open spec fn at_line_end() -> spec_fn(Telemetry, Seq<char>) -> Telemetry {
    |t: Telemetry, line: Seq<char>|
        if line.len() > 0 {
            told_in(line)
        } else {
            t
        }
}

impl Telemetry {
    /// The telemetry before any report.
    pub fn new() -> (telemetry: Telemetry)
        ensures
            telemetry == no_report(),
            telemetry.temp_tenths == 0 && !telemetry.fresh,
            telemetry.alarm_hour == 0 && telemetry.alarm_minute == 0,
            !telemetry.alarm_enabled && !telemetry.alarm_ringing,
            telemetry.cur_hour == 0 && telemetry.cur_minute == 0 && telemetry.cur_second == 0,
    {
        Telemetry {
            temp_tenths: 0,
            alarm_hour: 0,
            alarm_minute: 0,
            alarm_enabled: false,
            alarm_ringing: false,
            cur_hour: 0,
            cur_minute: 0,
            cur_second: 0,
            fresh: false,
        }
    }

    /// Takes in what one part of a report tells.
    fn read_part(&mut self, part: &str)
        ensures
            *final(self) == with_part(*old(self), part@),
    {
        proof {
            reveal_strlit("T:");
            reveal_strlit("AH:");
            reveal_strlit("AM:");
            reveal_strlit("AE:");
            reveal_strlit("AR:");
            reveal_strlit("CH:");
            reveal_strlit("CM:");
            reveal_strlit("CS:");
        }
        if let Some(val) = strip_prefix(part, "T:") {
            self.temp_tenths = match read_i16(trim(val)) {
                Some(v) => v,
                None => 0,
            };
        } else if let Some(val) = strip_prefix(part, "AH:") {
            self.alarm_hour = byte_or_zero(val);
        } else if let Some(val) = strip_prefix(part, "AM:") {
            self.alarm_minute = byte_or_zero(val);
        } else if let Some(val) = strip_prefix(part, "AE:") {
            self.alarm_enabled = same_text(trim(val), "1");
        } else if let Some(val) = strip_prefix(part, "AR:") {
            self.alarm_ringing = same_text(trim(val), "1");
        } else if let Some(val) = strip_prefix(part, "CH:") {
            self.cur_hour = byte_or_zero(val);
        } else if let Some(val) = strip_prefix(part, "CM:") {
            self.cur_minute = byte_or_zero(val);
        } else if let Some(val) = strip_prefix(part, "CS:") {
            self.cur_second = byte_or_zero(val);
        }
    }

    /// Takes in one byte of the serial link. At the end of a line that is not
    /// empty the telemetry becomes what the line tells. Says whether it did.
    pub fn receive_byte(
        &mut self,
        line: &mut LineBuffer<TELEMETRY_CAPACITY>,
        byte: u8,
    ) -> (updated: bool)
        ensures
            (final(line)@, *final(self)) == fed(
                old(line)@,
                *old(self),
                byte,
                TELEMETRY_CAPACITY as nat,
                at_line_end(),
            ),
            updated == (byte == NEWLINE && old(line)@.len() > 0),
            old(line).wf() ==> final(line).wf(),
    {
        if line.accept(byte) {
            let updated = !line.as_str().is_empty();
            if updated {
                *self = parse_telemetry(line.as_str());
            }
            line.clear();
            updated
        } else {
            false
        }
    }
}

/// The number from 0 to 255 in a field of a report, or 0 where there is none.
fn byte_or_zero(value: &str) -> (v: u8)
    ensures
        v == byte_in(value@),
{
    match read_u8(trim(value)) {
        Some(v) => v,
        None => 0,
    }
}

/// Reads what a line tells.
pub fn parse_telemetry(line: &str) -> (telemetry: Telemetry)
    ensures
        telemetry == told_in(line@),
{
    let mut t = Telemetry::new();
    let mut rest: &str = line;
    let mut len: usize = line.unicode_len();
    loop
        invariant
            len == rest@.len(),
            with_parts(no_report(), split(line@, ',')) == with_parts(t, split(rest@, ',')),
        decreases len,
    {
        let ghost before = t;
        let n: usize = position(rest, ',');
        let part = rest.substring_char(0, n);
        assert(part@ =~= rest@.take(n as int));
        t.read_part(part);
        proof {
            let parts = split(rest@, ',');
            if n < len {
                assert(parts.drop_first() =~= split(rest@.skip(n as int + 1), ','));
            } else {
                assert(part@ =~= rest@);
                assert(with_parts(t, parts.drop_first()) == t);
            }
            assert(with_parts(before, parts) == with_parts(t, parts.drop_first()));
        }
        if n == len {
            t.fresh = true;
            return t;
        }
        let next = rest.substring_char(n + 1, len);
        assert(next@ =~= rest@.skip(n as int + 1));
        rest = next;
        len = len - n - 1;
    }
}

/// Appends a tag and a number of two digits or three.
fn append_field<const N: usize>(out: &mut heapless::String<N>, tag: &str, v: u8)
    requires
        is_ascii_chars(text(*old(out))),
        is_ascii_chars(tag@),
        text(*old(out)).len() + tag@.len() + 3 <= N,
    ensures
        text(*final(out)) == text(*old(out)) + tag@ + two_digits(v as nat),
        is_ascii_chars(text(*final(out))),
        text(*final(out)).len() <= text(*old(out)).len() + tag@.len() + 3,
{
    append(out, tag);
    append_two_digits(out, v);
    proof {
        lemma_two_digits_value(v as nat);
    }
}

/// Appends a tag and a flag.
fn append_flag<const N: usize>(out: &mut heapless::String<N>, tag: &str, b: bool)
    requires
        is_ascii_chars(text(*old(out))),
        is_ascii_chars(tag@),
        text(*old(out)).len() + tag@.len() + 1 <= N,
    ensures
        text(*final(out)) == text(*old(out)) + tag@ + flag(b),
        is_ascii_chars(text(*final(out))),
        text(*final(out)).len() == text(*old(out)).len() + tag@.len() + 1,
{
    append(out, tag);
    let ghost tagged = text(*out);
    append_char(
        out,
        if b {
            '1'
        } else {
            '0'
        },
    );
    assert(text(*out) =~= tagged + flag(b));
}

/// The report on a clock, with its line end. All of it fits.
pub fn telemetry_line(clock: &ClockState) -> (line: heapless::String<REPORT_CAPACITY>)
    ensures
        text(line) == report(*clock).push('\n'),
{
    let mut msg: heapless::String<REPORT_CAPACITY> = heapless::String::new();
    proof {
        reveal_strlit("T:");
        reveal_strlit(",AH:");
        reveal_strlit(",AM:");
        reveal_strlit(",AE:");
        reveal_strlit(",AR:");
        reveal_strlit(",CH:");
        reveal_strlit(",CM:");
        reveal_strlit(",CS:");
        lemma_signed_len(clock.temp_tenths);
    }
    append(&mut msg, "T:");
    assert(text(msg) =~= "T:"@);
    append_signed(&mut msg, clock.temp_tenths);
    append_field(&mut msg, ",AH:", clock.alarm_hour);
    append_field(&mut msg, ",AM:", clock.alarm_minute);
    append_flag(&mut msg, ",AE:", clock.alarm_enabled);
    append_flag(&mut msg, ",AR:", clock.is_ringing);
    append_field(&mut msg, ",CH:", clock.hour);
    append_field(&mut msg, ",CM:", clock.minute);
    append_field(&mut msg, ",CS:", clock.second);
    append_char(&mut msg, '\n');
    msg
}

/// A temperature takes at most six characters.
pub proof fn lemma_signed_len(v: i16)
    ensures
        1 <= signed_decimal(v as int).len() <= 6,
{
    assert(ten_to(5) == 100000) by {
        reveal_with_fuel(ten_to, 6);
    }
    lemma_decimal_len(
        if v < 0 {
            (-v) as nat
        } else {
            v as nat
        },
        5,
    );
}

/// A part that starts with a tag starts with the tag's characters.
proof fn lemma_tag_chars(part: Seq<char>)
    ensures
        "T:"@.is_prefix_of(part) ==> part[0] == 'T' && part[1] == ':',
        "AH:"@.is_prefix_of(part) ==> part[0] == 'A' && part[1] == 'H',
        "AM:"@.is_prefix_of(part) ==> part[0] == 'A' && part[1] == 'M',
        "AE:"@.is_prefix_of(part) ==> part[0] == 'A' && part[1] == 'E',
        "AR:"@.is_prefix_of(part) ==> part[0] == 'A' && part[1] == 'R',
        "CH:"@.is_prefix_of(part) ==> part[0] == 'C' && part[1] == 'H',
        "CM:"@.is_prefix_of(part) ==> part[0] == 'C' && part[1] == 'M',
        "CS:"@.is_prefix_of(part) ==> part[0] == 'C' && part[1] == 'S',
{
    reveal_strlit("T:");
    reveal_strlit("AH:");
    reveal_strlit("AM:");
    reveal_strlit("AE:");
    reveal_strlit("AR:");
    reveal_strlit("CH:");
    reveal_strlit("CM:");
    reveal_strlit("CS:");
    if part.len() >= 2 {
        assert(part.subrange(0, 2)[0] == part[0] && part.subrange(0, 2)[1] == part[1]);
    }
    if part.len() >= 3 {
        assert(part.subrange(0, 3)[0] == part[0] && part.subrange(0, 3)[1] == part[1]);
    }
}

/// A tag with a value after it starts with the tag, has the value behind it, and
/// has a comma in it only where one of them has.
proof fn lemma_tagged(tag: Seq<char>, value: Seq<char>)
    ensures
        tag.is_prefix_of(tag + value),
        (tag + value).skip(tag.len() as int) == value,
        !tag.contains(',') && !value.contains(',') ==> !(tag + value).contains(','),
{
    assert(tag =~= (tag + value).subrange(0, tag.len() as int));
    assert((tag + value).skip(tag.len() as int) =~= value);
    if (tag + value).contains(',') {
        let i = choose|i: int| 0 <= i < (tag + value).len() && (tag + value)[i] == ',';
        if i < tag.len() {
            assert(tag[i] == ',');
        } else {
            assert(value[i - tag.len()] == ',');
        }
    }
}

/// A number of two digits or three is read back, and has no comma in it.
proof fn lemma_byte_read(v: u8)
    ensures
        byte_in(two_digits(v as nat)) == v,
        !two_digits(v as nat).contains(','),
{
    let d = two_digits(v as nat);
    lemma_two_digits_value(v as nat);
    lemma_digits_read(d);
    assert forall|i: int| 0 <= i < d.len() implies #[trigger] d[i] != ',' by {
        assert(is_digit(d[i]));
    }
}

/// A temperature is read back, and has no comma in it.
proof fn lemma_temperature_read(v: i16)
    ensures
        temperature_in(signed_decimal(v as int)) == v,
        !signed_decimal(v as int).contains(','),
{
    let d = signed_decimal(v as int);
    let n = if v < 0 {
        (-v) as nat
    } else {
        v as nat
    };
    lemma_signed_read(v as int);
    lemma_decimal_value(n);
    assert forall|i: int| 0 <= i < d.len() implies #[trigger] d[i] != ',' by {
        if v >= 0 {
            assert(is_digit(d[i]));
        } else if i > 0 {
            assert(d[i] == decimal(n)[i - 1]);
            assert(is_digit(decimal(n)[i - 1]));
        }
    }
}

/// A flag is read back, and has no comma in it.
proof fn lemma_flag_read(b: bool)
    ensures
        flag_in(flag(b)) == b,
        !flag(b).contains(','),
{
    reveal_strlit("1");
    lemma_trimmed_same(flag(b));
    assert("1"@ =~= seq!['1']);
    assert(flag(false)[0] == '0');
}

/// The part that tells the temperature.
proof fn lemma_temp_tenths_told(t: Telemetry, v: i16)
    ensures
        with_part(t, "T:"@ + signed_decimal(v as int)) == (Telemetry { temp_tenths: v, ..t }),
        !("T:"@ + signed_decimal(v as int)).contains(','),
{
    reveal_strlit("T:");
    lemma_temperature_read(v);
    lemma_tagged("T:"@, signed_decimal(v as int));
    lemma_tag_chars("T:"@ + signed_decimal(v as int));
}

/// The part that tells the alarm's hour.
proof fn lemma_alarm_hour_told(t: Telemetry, v: u8)
    ensures
        with_part(t, "AH:"@ + two_digits(v as nat)) == (Telemetry { alarm_hour: v, ..t }),
        !("AH:"@ + two_digits(v as nat)).contains(','),
{
    reveal_strlit("AH:");
    lemma_byte_read(v);
    lemma_tagged("AH:"@, two_digits(v as nat));
    lemma_tag_chars("AH:"@ + two_digits(v as nat));
}

/// The part that tells the alarm's minute.
proof fn lemma_alarm_minute_told(t: Telemetry, v: u8)
    ensures
        with_part(t, "AM:"@ + two_digits(v as nat)) == (Telemetry { alarm_minute: v, ..t }),
        !("AM:"@ + two_digits(v as nat)).contains(','),
{
    reveal_strlit("AM:");
    lemma_byte_read(v);
    lemma_tagged("AM:"@, two_digits(v as nat));
    lemma_tag_chars("AM:"@ + two_digits(v as nat));
}

/// The part that tells whether the alarm is on.
proof fn lemma_alarm_enabled_told(t: Telemetry, v: bool)
    ensures
        with_part(t, "AE:"@ + flag(v)) == (Telemetry { alarm_enabled: v, ..t }),
        !("AE:"@ + flag(v)).contains(','),
{
    reveal_strlit("AE:");
    lemma_flag_read(v);
    lemma_tagged("AE:"@, flag(v));
    lemma_tag_chars("AE:"@ + flag(v));
}

/// The part that tells whether the alarm rings.
proof fn lemma_alarm_ringing_told(t: Telemetry, v: bool)
    ensures
        with_part(t, "AR:"@ + flag(v)) == (Telemetry { alarm_ringing: v, ..t }),
        !("AR:"@ + flag(v)).contains(','),
{
    reveal_strlit("AR:");
    lemma_flag_read(v);
    lemma_tagged("AR:"@, flag(v));
    lemma_tag_chars("AR:"@ + flag(v));
}

/// The part that tells the hour.
proof fn lemma_cur_hour_told(t: Telemetry, v: u8)
    ensures
        with_part(t, "CH:"@ + two_digits(v as nat)) == (Telemetry { cur_hour: v, ..t }),
        !("CH:"@ + two_digits(v as nat)).contains(','),
{
    reveal_strlit("CH:");
    lemma_byte_read(v);
    lemma_tagged("CH:"@, two_digits(v as nat));
    lemma_tag_chars("CH:"@ + two_digits(v as nat));
}

/// The part that tells the minute.
proof fn lemma_cur_minute_told(t: Telemetry, v: u8)
    ensures
        with_part(t, "CM:"@ + two_digits(v as nat)) == (Telemetry { cur_minute: v, ..t }),
        !("CM:"@ + two_digits(v as nat)).contains(','),
{
    reveal_strlit("CM:");
    lemma_byte_read(v);
    lemma_tagged("CM:"@, two_digits(v as nat));
    lemma_tag_chars("CM:"@ + two_digits(v as nat));
}

/// The part that tells the second.
proof fn lemma_cur_second_told(t: Telemetry, v: u8)
    ensures
        with_part(t, "CS:"@ + two_digits(v as nat)) == (Telemetry { cur_second: v, ..t }),
        !("CS:"@ + two_digits(v as nat)).contains(','),
{
    reveal_strlit("CS:");
    lemma_byte_read(v);
    lemma_tagged("CS:"@, two_digits(v as nat));
    lemma_tag_chars("CS:"@ + two_digits(v as nat));
}

/// The parts of the report on a clock.
spec fn report_parts(clock: ClockState) -> Seq<Seq<char>> {
    seq![
        "T:"@ + signed_decimal(clock.temp_tenths as int),
        "AH:"@ + two_digits(clock.alarm_hour as nat),
        "AM:"@ + two_digits(clock.alarm_minute as nat),
        "AE:"@ + flag(clock.alarm_enabled),
        "AR:"@ + flag(clock.is_ringing),
        "CH:"@ + two_digits(clock.hour as nat),
        "CM:"@ + two_digits(clock.minute as nat),
        "CS:"@ + two_digits(clock.second as nat),
    ]
}

/// One part more, at the end of those that are joined.
proof fn lemma_joined_push(parts: Seq<Seq<char>>, part: Seq<char>)
    requires
        parts.len() > 0,
    ensures
        joined(parts.push(part), ',') == joined(parts, ',').push(',') + part,
    decreases parts.len(),
{
    let rest = parts.drop_first();
    assert(parts.push(part).drop_first() =~= rest.push(part));
    if parts.len() == 1 {
        assert(rest.push(part) =~= seq![part]);
        assert(joined(seq![part], ',') == part);
    } else {
        lemma_joined_push(rest, part);
        assert(joined(parts.push(part), ',') =~= joined(parts, ',').push(',') + part);
    }
}

/// A tag with a comma before it, and a value, are one part more.
proof fn lemma_next_part(
    parts: Seq<Seq<char>>,
    k: int,
    marked: Seq<char>,
    tag: Seq<char>,
    value: Seq<char>,
)
    requires
        0 < k < parts.len(),
        marked == seq![','] + tag,
        parts[k] == tag + value,
    ensures
        joined(parts.take(k + 1), ',') == joined(parts.take(k), ',') + marked + value,
{
    let before = joined(parts.take(k), ',');
    lemma_joined_push(parts.take(k), parts[k]);
    assert(parts.take(k).push(parts[k]) =~= parts.take(k + 1));
    assert(before + marked + value =~= before.push(',') + (tag + value));
}

/// The tags with commas before them.
proof fn lemma_marked_tags()
    ensures
        ",AH:"@ == seq![','] + "AH:"@,
        ",AM:"@ == seq![','] + "AM:"@,
        ",AE:"@ == seq![','] + "AE:"@,
        ",AR:"@ == seq![','] + "AR:"@,
        ",CH:"@ == seq![','] + "CH:"@,
        ",CM:"@ == seq![','] + "CM:"@,
        ",CS:"@ == seq![','] + "CS:"@,
{
    reveal_strlit("AH:");
    reveal_strlit(",AH:");
    assert(",AH:"@ =~= seq![','] + "AH:"@);
    reveal_strlit("AM:");
    reveal_strlit(",AM:");
    assert(",AM:"@ =~= seq![','] + "AM:"@);
    reveal_strlit("AE:");
    reveal_strlit(",AE:");
    assert(",AE:"@ =~= seq![','] + "AE:"@);
    reveal_strlit("AR:");
    reveal_strlit(",AR:");
    assert(",AR:"@ =~= seq![','] + "AR:"@);
    reveal_strlit("CH:");
    reveal_strlit(",CH:");
    assert(",CH:"@ =~= seq![','] + "CH:"@);
    reveal_strlit("CM:");
    reveal_strlit(",CM:");
    assert(",CM:"@ =~= seq![','] + "CM:"@);
    reveal_strlit("CS:");
    reveal_strlit(",CS:");
    assert(",CS:"@ =~= seq![','] + "CS:"@);
}

/// The report is its parts with commas between them.
proof fn lemma_report_joined(clock: ClockState)
    ensures
        report(clock) == joined(report_parts(clock), ','),
{
    let parts = report_parts(clock);
    lemma_marked_tags();
    assert(parts.take(1) =~= seq![parts[0]]);
    assert(joined(parts.take(1), ',') == parts[0]);
    lemma_next_part(parts, 1, ",AH:"@, "AH:"@, two_digits(clock.alarm_hour as nat));
    lemma_next_part(parts, 2, ",AM:"@, "AM:"@, two_digits(clock.alarm_minute as nat));
    lemma_next_part(parts, 3, ",AE:"@, "AE:"@, flag(clock.alarm_enabled));
    lemma_next_part(parts, 4, ",AR:"@, "AR:"@, flag(clock.is_ringing));
    lemma_next_part(parts, 5, ",CH:"@, "CH:"@, two_digits(clock.hour as nat));
    lemma_next_part(parts, 6, ",CM:"@, "CM:"@, two_digits(clock.minute as nat));
    lemma_next_part(parts, 7, ",CS:"@, "CS:"@, two_digits(clock.second as nat));
    assert(parts.take(8) =~= parts);
}

/// What the first `k` parts of the report on a clock tell.
spec fn told_up_to(clock: ClockState, k: int) -> Telemetry {
    Telemetry {
        temp_tenths: if k > 0 {
            clock.temp_tenths
        } else {
            0
        },
        alarm_hour: if k > 1 {
            clock.alarm_hour
        } else {
            0
        },
        alarm_minute: if k > 2 {
            clock.alarm_minute
        } else {
            0
        },
        alarm_enabled: if k > 3 {
            clock.alarm_enabled
        } else {
            false
        },
        alarm_ringing: if k > 4 {
            clock.is_ringing
        } else {
            false
        },
        cur_hour: if k > 5 {
            clock.hour
        } else {
            0
        },
        cur_minute: if k > 6 {
            clock.minute
        } else {
            0
        },
        cur_second: if k > 7 {
            clock.second
        } else {
            0
        },
        fresh: false,
    }
}

/// Each part of the report tells its field, and has no comma in it.
proof fn lemma_report_part(clock: ClockState, k: int)
    requires
        0 <= k < 8,
    ensures
        with_part(told_up_to(clock, k), report_parts(clock)[k]) == told_up_to(clock, k + 1),
        !report_parts(clock)[k].contains(','),
{
    let t = told_up_to(clock, k);
    if k == 0 {
        lemma_temp_tenths_told(t, clock.temp_tenths);
    } else if k == 1 {
        lemma_alarm_hour_told(t, clock.alarm_hour);
    } else if k == 2 {
        lemma_alarm_minute_told(t, clock.alarm_minute);
    } else if k == 3 {
        lemma_alarm_enabled_told(t, clock.alarm_enabled);
    } else if k == 4 {
        lemma_alarm_ringing_told(t, clock.is_ringing);
    } else if k == 5 {
        lemma_cur_hour_told(t, clock.hour);
    } else if k == 6 {
        lemma_cur_minute_told(t, clock.minute);
    } else {
        lemma_cur_second_told(t, clock.second);
    }
}

/// The parts from one on tell the rest.
proof fn lemma_told_from(clock: ClockState, k: int)
    requires
        0 <= k <= 8,
    ensures
        with_parts(told_up_to(clock, k), report_parts(clock).skip(k)) == told_up_to(clock, 8),
    decreases 8 - k,
{
    if k < 8 {
        lemma_report_part(clock, k);
        lemma_told_from(clock, k + 1);
        assert(report_parts(clock).skip(k).drop_first() =~= report_parts(clock).skip(k + 1));
    }
}

/// What the network board reads in a report is what the clock board wrote: for
/// every clock, each field comes back as it was.
pub proof fn law_report_read_back(clock: ClockState)
    ensures
        told_in(report(clock)) == told_by(clock),
        ({
            let t = told_in(report(clock));
            &&& t.temp_tenths == clock.temp_tenths
            &&& t.alarm_hour == clock.alarm_hour
            &&& t.alarm_minute == clock.alarm_minute
            &&& t.alarm_enabled == clock.alarm_enabled
            &&& t.alarm_ringing == clock.is_ringing
            &&& t.cur_hour == clock.hour
            &&& t.cur_minute == clock.minute
            &&& t.cur_second == clock.second
            &&& t.fresh
        }),
{
    let parts = report_parts(clock);
    lemma_report_joined(clock);
    assert forall|k: int| 0 <= k < parts.len() implies !(#[trigger] parts[k]).contains(',') by {
        lemma_report_part(clock, k);
    }
    law_split_joined(parts, ',');
    lemma_told_from(clock, 0);
    assert(parts.skip(0) =~= parts);
}

/// Numbers and flags are printable, and short.
proof fn lemma_values_printable(temp: i16, v: u8, b: bool)
    ensures
        printable(signed_decimal(temp as int)),
        signed_decimal(temp as int).len() <= 6,
        printable(two_digits(v as nat)),
        two_digits(v as nat).len() <= 3,
        printable(flag(b)),
        flag(b).len() == 1,
{
    lemma_signed_len(temp);
    lemma_two_digits_value(v as nat);
    let n = if temp < 0 {
        (-temp) as nat
    } else {
        temp as nat
    };
    lemma_decimal_value(n);
    let d = two_digits(v as nat);
    assert forall|i: int| 0 <= i < d.len() implies ' ' <= #[trigger] d[i] <= '~' by {
        assert(is_digit(d[i]));
    }
    let m = decimal(n);
    assert forall|i: int| 0 <= i < m.len() implies ' ' <= #[trigger] m[i] <= '~' by {
        assert(is_digit(m[i]));
    }
    lemma_printable_concat(seq!['-'], m);
}

/// Printable text with a printable tag and a printable value after it.
proof fn lemma_printable_field(before: Seq<char>, tag: Seq<char>, value: Seq<char>)
    requires
        printable(before),
        printable(tag),
        printable(value),
    ensures
        printable(before + tag + value),
{
    lemma_printable_concat(before, tag);
    lemma_printable_concat(before + tag, value);
}

/// A report is printable, and fits the line that it is received in.
proof fn lemma_report_printable(clock: ClockState)
    ensures
        printable(report(clock)),
        0 < report(clock).len() < REPORT_CAPACITY,
{
    reveal_strlit("T:");
    reveal_strlit(",AH:");
    reveal_strlit(",AM:");
    reveal_strlit(",AE:");
    reveal_strlit(",AR:");
    reveal_strlit(",CH:");
    reveal_strlit(",CM:");
    reveal_strlit(",CS:");
    lemma_values_printable(clock.temp_tenths, clock.alarm_hour, clock.alarm_enabled);
    lemma_values_printable(clock.temp_tenths, clock.alarm_minute, clock.is_ringing);
    lemma_values_printable(clock.temp_tenths, clock.hour, false);
    lemma_values_printable(clock.temp_tenths, clock.minute, false);
    lemma_values_printable(clock.temp_tenths, clock.second, false);
    let s1 = "T:"@ + signed_decimal(clock.temp_tenths as int);
    lemma_printable_concat("T:"@, signed_decimal(clock.temp_tenths as int));
    lemma_printable_field(s1, ",AH:"@, two_digits(clock.alarm_hour as nat));
    let s2 = s1 + ",AH:"@ + two_digits(clock.alarm_hour as nat);
    lemma_printable_field(s2, ",AM:"@, two_digits(clock.alarm_minute as nat));
    let s3 = s2 + ",AM:"@ + two_digits(clock.alarm_minute as nat);
    lemma_printable_field(s3, ",AE:"@, flag(clock.alarm_enabled));
    let s4 = s3 + ",AE:"@ + flag(clock.alarm_enabled);
    lemma_printable_field(s4, ",AR:"@, flag(clock.is_ringing));
    let s5 = s4 + ",AR:"@ + flag(clock.is_ringing);
    lemma_printable_field(s5, ",CH:"@, two_digits(clock.hour as nat));
    let s6 = s5 + ",CH:"@ + two_digits(clock.hour as nat);
    lemma_printable_field(s6, ",CM:"@, two_digits(clock.minute as nat));
    let s7 = s6 + ",CM:"@ + two_digits(clock.minute as nat);
    lemma_printable_field(s7, ",CS:"@, two_digits(clock.second as nat));
}

/// A report that is sent with its line end arrives: whatever the network board
/// knew before, it then knows what the clock was.
pub proof fn law_report_arrives(clock: ClockState, before: Telemetry)
    ensures
        fed_all(
            Seq::empty(),
            before,
            encode_utf8(report(clock).push('\n')),
            TELEMETRY_CAPACITY as nat,
            at_line_end(),
        ) == (Seq::<char>::empty(), told_by(clock)),
{
    lemma_report_printable(clock);
    lemma_printable(report(clock));
    law_line_arrives(before, report(clock), TELEMETRY_CAPACITY as nat, at_line_end());
    law_report_read_back(clock);
}

/// The report is eight parts with commas between them, each a tag with a value: the
/// temperature, the alarm's hour and minute, whether it is on and whether it rings, and the
/// hands.
pub proof fn law_report_parts(clock: ClockState)
    ensures
        split(report(clock), ',') == seq![
            "T:"@ + signed_decimal(clock.temp_tenths as int),
            "AH:"@ + two_digits(clock.alarm_hour as nat),
            "AM:"@ + two_digits(clock.alarm_minute as nat),
            "AE:"@ + (if clock.alarm_enabled { "1"@ } else { "0"@ }),
            "AR:"@ + (if clock.is_ringing { "1"@ } else { "0"@ }),
            "CH:"@ + two_digits(clock.hour as nat),
            "CM:"@ + two_digits(clock.minute as nat),
            "CS:"@ + two_digits(clock.second as nat),
        ],
{
    let parts = report_parts(clock);
    reveal_strlit("1");
    reveal_strlit("0");
    assert("1"@ =~= seq!['1'] && "0"@ =~= seq!['0']);
    lemma_report_joined(clock);
    assert forall|k: int| 0 <= k < parts.len() implies !(#[trigger] parts[k]).contains(',') by {
        lemma_report_part(clock, k);
    }
    law_split_joined(parts, ',');
}

/// One part more, at the end of a line.
proof fn lemma_split_push(line: Seq<char>, part: Seq<char>)
    requires
        !part.contains(','),
    ensures
        split(line.push(',') + part, ',') == split(line, ',').push(part),
    decreases line.len(),
{
    let n = until(line, set![',']);
    law_until(line, set![',']);
    let head = line.take(n as int);
    assert forall|i: int| 0 <= i < head.len() implies #[trigger] head[i] != ',' by {
        assert(!set![','].contains(line[i]));
    }
    lemma_split_part(part, ',', Seq::empty());
    if n < line.len() {
        let rest = line.skip(n as int + 1);
        assert(line =~= head.push(',') + rest);
        assert(line.push(',') + part =~= head.push(',') + (rest.push(',') + part));
        lemma_split_part(head, ',', rest.push(',') + part);
        lemma_split_part(head, ',', rest);
        lemma_split_push(rest, part);
        assert(seq![head] + split(rest, ',').push(part) =~= (seq![head] + split(rest, ',')).push(
            part,
        ));
    } else {
        assert(head =~= line);
        lemma_split_part(line, ',', part);
        assert(seq![line] + seq![part] =~= seq![line].push(part));
    }
}

/// The last of several parts tells last.
proof fn lemma_parts_push(t: Telemetry, parts: Seq<Seq<char>>, part: Seq<char>)
    ensures
        with_parts(t, parts.push(part)) == with_part(with_parts(t, parts), part),
    decreases parts.len(),
{
    if parts.len() == 0 {
        assert(parts.push(part).drop_first() =~= Seq::<Seq<char>>::empty());
        assert(with_parts(with_part(t, part), Seq::empty()) == with_part(t, part));
    } else {
        assert(parts.push(part).drop_first() =~= parts.drop_first().push(part));
        lemma_parts_push(with_part(t, parts[0]), parts.drop_first(), part);
    }
}

/// The parts of a line tell one after the other: a line of one part tells what the part
/// does and else nothing, and a part more changes what it tells and nothing else.
pub proof fn law_told_in_turn(line: Seq<char>, part: Seq<char>)
    requires
        !part.contains(','),
    ensures
        told_in(part) == with_part(
            Telemetry {
                temp_tenths: 0,
                alarm_hour: 0,
                alarm_minute: 0,
                alarm_enabled: false,
                alarm_ringing: false,
                cur_hour: 0,
                cur_minute: 0,
                cur_second: 0,
                fresh: true,
            },
            part,
        ),
        told_in(line.push(',') + part) == with_part(told_in(line), part),
        told_in(line).fresh,
{
    lemma_split_part(part, ',', Seq::empty());
    lemma_split_push(line, part);
    lemma_parts_push(no_report(), split(line, ','), part);
    lemma_parts_push(no_report(), Seq::empty(), part);
    assert(Seq::<Seq<char>>::empty().push(part) =~= seq![part]);
    assert(with_parts(no_report(), Seq::empty()) == no_report());
}

/// What a tag with a value tells, for each tag, whatever the value is: it is taken for the
/// tag's own field, and no other field changes.
pub proof fn law_part_tells(t: Telemetry, value: Seq<char>)
    ensures
        with_part(t, "T:"@ + value) == (Telemetry { temp_tenths: temperature_in(value), ..t }),
        with_part(t, "AH:"@ + value) == (Telemetry { alarm_hour: byte_in(value), ..t }),
        with_part(t, "AM:"@ + value) == (Telemetry { alarm_minute: byte_in(value), ..t }),
        with_part(t, "AE:"@ + value) == (Telemetry { alarm_enabled: flag_in(value), ..t }),
        with_part(t, "AR:"@ + value) == (Telemetry { alarm_ringing: flag_in(value), ..t }),
        with_part(t, "CH:"@ + value) == (Telemetry { cur_hour: byte_in(value), ..t }),
        with_part(t, "CM:"@ + value) == (Telemetry { cur_minute: byte_in(value), ..t }),
        with_part(t, "CS:"@ + value) == (Telemetry { cur_second: byte_in(value), ..t }),
{
    lemma_temp_tenths_taken(t, value);
    lemma_alarm_hour_taken(t, value);
    lemma_alarm_minute_taken(t, value);
    lemma_alarm_enabled_taken(t, value);
    lemma_alarm_ringing_taken(t, value);
    lemma_cur_hour_taken(t, value);
    lemma_cur_minute_taken(t, value);
    lemma_cur_second_taken(t, value);
}

/// The part with the tag `T:`.
proof fn lemma_temp_tenths_taken(t: Telemetry, value: Seq<char>)
    ensures
        with_part(t, "T:"@ + value) == (Telemetry { temp_tenths: temperature_in(value), ..t }),
{
    reveal_strlit("T:");
    lemma_tagged("T:"@, value);
    lemma_tag_chars("T:"@ + value);
}

/// The part with the tag `AH:`.
proof fn lemma_alarm_hour_taken(t: Telemetry, value: Seq<char>)
    ensures
        with_part(t, "AH:"@ + value) == (Telemetry { alarm_hour: byte_in(value), ..t }),
{
    reveal_strlit("AH:");
    lemma_tagged("AH:"@, value);
    lemma_tag_chars("AH:"@ + value);
}

/// The part with the tag `AM:`.
proof fn lemma_alarm_minute_taken(t: Telemetry, value: Seq<char>)
    ensures
        with_part(t, "AM:"@ + value) == (Telemetry { alarm_minute: byte_in(value), ..t }),
{
    reveal_strlit("AM:");
    lemma_tagged("AM:"@, value);
    lemma_tag_chars("AM:"@ + value);
}

/// The part with the tag `AE:`.
proof fn lemma_alarm_enabled_taken(t: Telemetry, value: Seq<char>)
    ensures
        with_part(t, "AE:"@ + value) == (Telemetry { alarm_enabled: flag_in(value), ..t }),
{
    reveal_strlit("AE:");
    lemma_tagged("AE:"@, value);
    lemma_tag_chars("AE:"@ + value);
}

/// The part with the tag `AR:`.
proof fn lemma_alarm_ringing_taken(t: Telemetry, value: Seq<char>)
    ensures
        with_part(t, "AR:"@ + value) == (Telemetry { alarm_ringing: flag_in(value), ..t }),
{
    reveal_strlit("AR:");
    lemma_tagged("AR:"@, value);
    lemma_tag_chars("AR:"@ + value);
}

/// The part with the tag `CH:`.
proof fn lemma_cur_hour_taken(t: Telemetry, value: Seq<char>)
    ensures
        with_part(t, "CH:"@ + value) == (Telemetry { cur_hour: byte_in(value), ..t }),
{
    reveal_strlit("CH:");
    lemma_tagged("CH:"@, value);
    lemma_tag_chars("CH:"@ + value);
}

/// The part with the tag `CM:`.
proof fn lemma_cur_minute_taken(t: Telemetry, value: Seq<char>)
    ensures
        with_part(t, "CM:"@ + value) == (Telemetry { cur_minute: byte_in(value), ..t }),
{
    reveal_strlit("CM:");
    lemma_tagged("CM:"@, value);
    lemma_tag_chars("CM:"@ + value);
}

/// The part with the tag `CS:`.
proof fn lemma_cur_second_taken(t: Telemetry, value: Seq<char>)
    ensures
        with_part(t, "CS:"@ + value) == (Telemetry { cur_second: byte_in(value), ..t }),
{
    reveal_strlit("CS:");
    lemma_tagged("CS:"@, value);
    lemma_tag_chars("CS:"@ + value);
}

/// A part that starts with none of the tags tells nothing.
pub proof fn law_unknown_part(t: Telemetry, part: Seq<char>)
    requires
        part.len() >= 2 ==> part.take(2) != "T:"@,
        part.len() >= 3 ==> part.take(3) != "AH:"@ && part.take(3) != "AM:"@,
        part.len() >= 3 ==> part.take(3) != "AE:"@ && part.take(3) != "AR:"@,
        part.len() >= 3 ==> part.take(3) != "CH:"@ && part.take(3) != "CM:"@,
        part.len() >= 3 ==> part.take(3) != "CS:"@,
    ensures
        with_part(t, part) == t,
{
    reveal_strlit("T:");
    reveal_strlit("AH:");
    reveal_strlit("AM:");
    reveal_strlit("AE:");
    reveal_strlit("AR:");
    reveal_strlit("CH:");
    reveal_strlit("CM:");
    reveal_strlit("CS:");
    if part.len() >= 2 {
        assert(part.take(2) =~= part.subrange(0, 2));
    }
    if part.len() >= 3 {
        assert(part.take(3) =~= part.subrange(0, 3));
    }
}

/// A value of digits, with white space around it, is the number that they stand for where
/// that is in range, and zero where it is not. A plus sign in front makes no difference. A
/// minus sign is for temperatures only.
pub proof fn law_value_read(before: Seq<char>, d: Seq<char>, after: Seq<char>)
    requires
        blank(before),
        blank(after),
        all_digits(d),
    ensures
        ({
            let n = digits_value(d);
            let plain = before + d + after;
            let plus = before + (seq!['+'] + d) + after;
            let minus = before + (seq!['-'] + d) + after;
            &&& n <= 255 ==> byte_in(plain) == n && byte_in(plus) == n
            &&& n > 255 ==> byte_in(plain) == 0 && byte_in(plus) == 0
            &&& byte_in(minus) == 0
            &&& n <= 32767 ==> temperature_in(plain) == n && temperature_in(plus) == n
            &&& n > 32767 ==> temperature_in(plain) == 0 && temperature_in(plus) == 0
            &&& n <= 32768 ==> temperature_in(minus) == -n
            &&& n > 32768 ==> temperature_in(minus) == 0
        }),
{
    assert(is_digit(d[0]) && is_digit(d[d.len() - 1]));
    law_number_read(d);
    law_trimmed(before, d, after);
    assert((seq!['+'] + d).last() == d.last());
    assert((seq!['-'] + d).last() == d.last());
    law_trimmed(before, seq!['+'] + d, after);
    law_trimmed(before, seq!['-'] + d, after);
}

/// A value that stands for no number tells zero, and a flag is set by the digit one alone,
/// with white space around it or none.
pub proof fn law_other_values(before: Seq<char>, s: Seq<char>, after: Seq<char>)
    requires
        blank(before),
        blank(after),
        s.len() > 0 ==> !is_white_space(s.first()) && !is_white_space(s.last()),
    ensures
        number_in(s, false) is None ==> byte_in(before + s + after) == 0,
        number_in(s, true) is None ==> temperature_in(before + s + after) == 0,
        flag_in(before + s + after) <==> s.len() == 1 && s[0] == '1',
{
    reveal_strlit("1");
    assert("1"@ =~= seq!['1']);
    law_trimmed(before, s, after);
    if s.len() == 1 && s[0] == '1' {
        assert(s =~= seq!['1']);
    }
}

/// Of a report the network board sees the first 128 characters, carriage returns left out,
/// once the line has ended. It then knows what they tell, or what it knew before where the
/// line was empty.
pub proof fn law_report_room(before: Telemetry, sent: Seq<char>)
    requires
        is_ascii_chars(sent),
        !sent.contains('\n'),
    ensures
        ({
            let line = cut(without_returns(sent), 128);
            fed_all(
                Seq::empty(),
                before,
                encode_utf8(sent.push('\n')),
                TELEMETRY_CAPACITY as nat,
                at_line_end(),
            ) == (
                Seq::<char>::empty(),
                if line.len() == 0 {
                    before
                } else {
                    told_in(line)
                },
            )
        }),
{
    let bytes = encode_utf8(sent.push('\n'));
    law_line_cut(before, sent, Seq::empty(), TELEMETRY_CAPACITY as nat, at_line_end());
    assert(bytes + Seq::<u8>::empty() =~= bytes);
}

/// The end of a line makes the telemetry what the line tells, and an empty line leaves it as
/// it was.
pub proof fn law_report_line_done(before: Telemetry, line: Seq<char>)
    ensures
        line.len() > 0 ==> at_line_end()(before, line) == told_in(line),
        line.len() == 0 ==> at_line_end()(before, line) == before,
{
}

} // verus!
