//! Commands that the network board sends to the clock board, one per line.

use crate::clock::ClockState;
use crate::decimal::{
    all_digits, digits_value, field_value, is_digit, lemma_digits_read, parse_u8,
};
use crate::line::{cut, fed, fed_all, law_line_cut, without_returns, LineBuffer, NEWLINE};
use crate::scan::{
    blank, is_white_space, law_three_parts, law_trimmed, lemma_trimmed_same, lemma_until, position,
    same_text, split3, strip_prefix, three_parts, trim, trimmed, until,
};
use vstd::prelude::*;
use vstd::utf8::{encode_utf8, is_ascii_chars};

verus! {

/// The bytes that a command line may take.
pub const COMMAND_CAPACITY: usize = 32;

/// What the clock can be told to do.
#[derive(Debug, Clone, Copy, PartialEq, Eq, Structural)]
pub enum NetworkCommand {
    SetAlarm { hour: u8, minute: u8 },
    DisableAlarm,
    SnoozeAlarm,
    SyncTime { hour: u8, minute: u8, second: u8 },
}

/// The alarm time in `fields`: two fields with a colon between them.
pub open spec fn alarm_in(fields: Seq<char>) -> Option<NetworkCommand> {
    let n = until(fields, set![':']);
    if n == fields.len() {
        None
    } else {
        match (field_value(fields.take(n as int)), field_value(fields.skip(n as int + 1))) {
            (Some(hour), Some(minute)) => Some(NetworkCommand::SetAlarm { hour, minute }),
            _ => None,
        }
    }
}

/// The time in `fields`: three fields with colons between them.
pub open spec fn time_in(fields: Seq<char>) -> Option<NetworkCommand> {
    let parts = three_parts(fields, ':');
    match (field_value(parts[0]), field_value(parts[1]), field_value(parts[2])) {
        (Some(hour), Some(minute), Some(second)) => Some(
            NetworkCommand::SyncTime { hour, minute, second },
        ),
        _ => None,
    }
}

/// The command that a line gives, white space at its ends left out. Any other
/// line gives none.
pub open spec fn command_in(line: Seq<char>) -> Option<NetworkCommand> {
    let c = trimmed(line);
    if "SA:"@.is_prefix_of(c) {
        alarm_in(c.skip(3))
    } else if c == "SN"@ {
        Some(NetworkCommand::SnoozeAlarm)
    } else if c == "DA"@ {
        Some(NetworkCommand::DisableAlarm)
    } else if "ST:"@.is_prefix_of(c) {
        time_in(c.skip(3))
    } else {
        None
    }
}

/// The line is not blank, and no command starts as it does.
pub open spec fn unknown(line: Seq<char>) -> bool {
    let c = trimmed(line);
    &&& c.len() > 0
    &&& c != "SN"@ && c != "DA"@
    &&& !"SA:"@.is_prefix_of(c) && !"ST:"@.is_prefix_of(c)
}

/// The clock after a line: what the line's command makes of it, or the clock
/// itself where the line gives none.
pub open spec fn clock_after_line(clock: ClockState, line: Seq<char>) -> ClockState {
    match command_in(line) {
        Some(command) => clock.commanded(command),
        None => clock,
    }
}

/// What the end of a line does to the clock.
pub open spec fn at_line_end() -> spec_fn(ClockState, Seq<char>) -> ClockState {
    |clock: ClockState, line: Seq<char>| clock_after_line(clock, line)
}

/// Reads the command that a line gives.
pub fn parse_command(cmd: &str) -> (command: Option<NetworkCommand>)
    ensures
        command == command_in(cmd@),
{
    proof {
        reveal_strlit("SA:");
        reveal_strlit("SN");
        reveal_strlit("DA");
        reveal_strlit("ST:");
    }
    let cmd = trim(cmd);
    if cmd.is_empty() {
        return None;
    }
    if let Some(parts) = strip_prefix(cmd, "SA:") {
        let colon: usize = position(parts, ':');
        let len: usize = parts.unicode_len();
        if colon == len {
            return None;
        }
        let h_str = parts.substring_char(0, colon);
        let m_str = parts.substring_char(colon + 1, len);
        assert(h_str@ =~= parts@.take(colon as int));
        assert(m_str@ =~= parts@.skip(colon as int + 1));
        match (parse_u8(h_str), parse_u8(m_str)) {
            (Ok(hour), Ok(minute)) => Some(NetworkCommand::SetAlarm { hour, minute }),
            _ => None,
        }
    } else if same_text(cmd, "SN") {
        Some(NetworkCommand::SnoozeAlarm)
    } else if same_text(cmd, "DA") {
        Some(NetworkCommand::DisableAlarm)
    } else if let Some(parts) = strip_prefix(cmd, "ST:") {
        let segs = split3(parts, ':');
        match (parse_u8(segs[0]), parse_u8(segs[1]), parse_u8(segs[2])) {
            (Ok(hour), Ok(minute), Ok(second)) => Some(
                NetworkCommand::SyncTime { hour, minute, second },
            ),
            _ => None,
        }
    } else {
        None
    }
}

/// Whether a line is not blank, and no command starts as it does.
pub fn is_unknown(cmd: &str) -> (result: bool)
    ensures
        result == unknown(cmd@),
{
    let cmd = trim(cmd);
    !cmd.is_empty() && !same_text(cmd, "SN") && !same_text(cmd, "DA") && strip_prefix(
        cmd,
        "SA:",
    ).is_none() && strip_prefix(cmd, "ST:").is_none()
}

/// Does what a line says, and gives the command that it was taken for.
pub fn process_command(clock: &mut ClockState, cmd: &str) -> (command: Option<NetworkCommand>)
    requires
        command_in(cmd@) == Some(NetworkCommand::SnoozeAlarm) ==> old(clock).snooze_fits(),
    ensures
        *final(clock) == clock_after_line(*old(clock), cmd@),
        command == command_in(cmd@),
        old(clock).wf() ==> final(clock).wf(),
{
    let command = parse_command(cmd);
    if let Some(found) = command {
        clock.apply(found);
    }
    command
}

/// Whether the clock can take in the next byte: a line end that completes a
/// snooze must leave the alarm hour within its byte.
pub fn can_receive(
    line: &LineBuffer<COMMAND_CAPACITY>,
    clock: &ClockState,
    byte: u8,
) -> (result: bool)
    ensures
        result == (byte == NEWLINE && command_in(line@) == Some(NetworkCommand::SnoozeAlarm)
            ==> clock.snooze_fits()),
{
    if byte == NEWLINE {
        match parse_command(line.as_str()) {
            Some(NetworkCommand::SnoozeAlarm) => clock.can_snooze(),
            _ => true,
        }
    } else {
        true
    }
}

/// Takes in one byte of the serial link. At the end of a line it does what the
/// line says, and gives the command that it was taken for.
pub fn receive_byte(
    line: &mut LineBuffer<COMMAND_CAPACITY>,
    clock: &mut ClockState,
    byte: u8,
) -> (command: Option<NetworkCommand>)
    requires
        byte == NEWLINE && command_in(old(line)@) == Some(NetworkCommand::SnoozeAlarm) ==> old(
            clock,
        ).snooze_fits(),
    ensures
        (final(line)@, *final(clock)) == fed(
            old(line)@,
            *old(clock),
            byte,
            COMMAND_CAPACITY as nat,
            at_line_end(),
        ),
        command == (if byte == NEWLINE {
            command_in(old(line)@)
        } else {
            None
        }),
        old(line).wf() ==> final(line).wf(),
        old(clock).wf() ==> final(clock).wf(),
{
    if line.accept(byte) {
        let command = process_command(clock, line.as_str());
        line.clear();
        command
    } else {
        None
    }
}

/// Two runs of digits with a colon between them, after the word for it, set the
/// alarm: each run counts modulo 256.
pub proof fn law_set_alarm_line(h: Seq<char>, m: Seq<char>)
    requires
        all_digits(h),
        all_digits(m),
    ensures
        command_in("SA:"@ + h + ":"@ + m) == Some(
            NetworkCommand::SetAlarm {
                hour: (digits_value(h) % 256) as u8,
                minute: (digits_value(m) % 256) as u8,
            },
        ),
{
    reveal_strlit("SA:");
    reveal_strlit(":");
    let line = "SA:"@ + h + ":"@ + m;
    let fields = h + ":"@ + m;
    lemma_digits_read(h);
    lemma_digits_read(m);
    assert(line.first() == 'S');
    assert(line.last() == m.last());
    assert(trimmed(m).len() > 0 && is_digit(m.last()));
    lemma_trimmed_same(line);
    assert("SA:"@ =~= line.subrange(0, 3));
    assert(line.skip(3) =~= fields);
    lemma_first_field(h, m);
}

/// Three runs of digits with colons between them, after the word for it, set the
/// hands: each run counts modulo 256.
pub proof fn law_sync_time_line(h: Seq<char>, m: Seq<char>, s: Seq<char>)
    requires
        all_digits(h),
        all_digits(m),
        all_digits(s),
    ensures
        command_in("ST:"@ + h + ":"@ + m + ":"@ + s) == Some(
            NetworkCommand::SyncTime {
                hour: (digits_value(h) % 256) as u8,
                minute: (digits_value(m) % 256) as u8,
                second: (digits_value(s) % 256) as u8,
            },
        ),
{
    reveal_strlit("SA:");
    reveal_strlit("SN");
    reveal_strlit("DA");
    reveal_strlit("ST:");
    reveal_strlit(":");
    let line = "ST:"@ + h + ":"@ + m + ":"@ + s;
    let fields = h + ":"@ + (m + ":"@ + s);
    lemma_digits_read(h);
    lemma_digits_read(m);
    lemma_digits_read(s);
    assert(line.first() == 'S');
    assert(line[1] == 'T');
    assert(line.last() == s.last());
    assert(is_digit(s.last()));
    lemma_trimmed_same(line);
    assert("SA:"@[1] == 'A' && line.subrange(0, 3)[1] == 'T');
    assert("ST:"@ =~= line.subrange(0, 3));
    assert(line.skip(3) =~= fields);
    lemma_first_field(h, m + ":"@ + s);
    lemma_first_field(m, s);
}

/// A line that is unknown gives no command, and leaves the clock as it is.
pub proof fn law_unknown_ignored(clock: ClockState, line: Seq<char>)
    requires
        unknown(line),
    ensures
        command_in(line) is None,
        clock_after_line(clock, line) == clock,
{
}

/// The one-word commands.
pub proof fn lemma_words()
    ensures
        command_in("SN"@) == Some(NetworkCommand::SnoozeAlarm),
        command_in("DA"@) == Some(NetworkCommand::DisableAlarm),
{
    reveal_strlit("SA:");
    reveal_strlit("SN");
    reveal_strlit("DA");
    reveal_strlit("ST:");
    assert("SN"@[0] == 'S' && "SN"@[1] == 'N');
    assert("DA"@[0] == 'D' && "DA"@[1] == 'A');
    lemma_trimmed_same("SN"@);
    lemma_trimmed_same("DA"@);
}

/// Digits end at the colon that follows them.
proof fn lemma_first_field(digits: Seq<char>, rest: Seq<char>)
    requires
        all_digits(digits),
    ensures
        until(digits + ":"@ + rest, set![':']) == digits.len(),
        (digits + ":"@ + rest).take(digits.len() as int) == digits,
        (digits + ":"@ + rest).skip(digits.len() as int + 1) == rest,
{
    reveal_strlit(":");
    let s = digits + ":"@ + rest;
    assert forall|i: int| 0 <= i < digits.len() implies !set![':'].contains(#[trigger] s[i]) by {
        assert(is_digit(digits[i]));
        assert(s[i] == digits[i]);
    }
    assert(s[digits.len() as int] == ':');
    lemma_until(s, set![':'], digits.len() as int);
    assert(s.take(digits.len() as int) =~= digits);
    assert(s.skip(digits.len() as int + 1) =~= rest);
}

/// A line that sets the alarm: what stands before the first colon behind the word is the
/// hour, and all that stands behind that colon is the minute. White space around the line
/// makes no difference. Where one of the two is no field, or there is no colon, the line
/// gives no command.
pub proof fn law_alarm_line(before: Seq<char>, a: Seq<char>, b: Seq<char>, after: Seq<char>)
    requires
        blank(before),
        blank(after),
        !a.contains(':'),
        b.len() > 0 ==> !is_white_space(b.last()),
    ensures
        command_in(before + ("SA:"@ + a + ":"@ + b) + after) == (match (
            field_value(a),
            field_value(b),
        ) {
            (Some(hour), Some(minute)) => Some(NetworkCommand::SetAlarm { hour, minute }),
            _ => None,
        }),
        a.len() == 0 || !is_white_space(a.last()) ==> command_in(before + ("SA:"@ + a) + after)
            is None,
{
    reveal_strlit("SA:");
    reveal_strlit(":");
    let s = "SA:"@ + a + ":"@ + b;
    assert(s.first() == 'S');
    assert(s.last() == if b.len() > 0 {
        b.last()
    } else {
        ':'
    });
    law_trimmed(before, s, after);
    assert("SA:"@ =~= s.subrange(0, 3));
    assert(s.skip(3) =~= a + ":"@ + b);
    lemma_field_ends(a, b);
    let short = "SA:"@ + a;
    if a.len() == 0 || !is_white_space(a.last()) {
        assert(short.last() == if a.len() > 0 {
            a.last()
        } else {
            ':'
        });
        law_trimmed(before, short, after);
        assert("SA:"@ =~= short.subrange(0, 3));
        assert(short.skip(3) =~= a);
    }
}

/// A field ends at the first colon, or with the text.
proof fn lemma_field_ends(a: Seq<char>, b: Seq<char>)
    requires
        !a.contains(':'),
    ensures
        until(a, set![':']) == a.len(),
        until(a + ":"@ + b, set![':']) == a.len(),
        (a + ":"@ + b).take(a.len() as int) == a,
        (a + ":"@ + b).skip(a.len() as int + 1) == b,
{
    reveal_strlit(":");
    let s = a + ":"@ + b;
    assert forall|i: int| 0 <= i < a.len() implies !set![':'].contains(#[trigger] a[i]) by {
        assert(a.contains(a[i]));
    }
    lemma_until(a, set![':'], a.len() as int);
    assert forall|i: int| 0 <= i < a.len() implies !set![':'].contains(#[trigger] s[i]) by {
        assert(s[i] == a[i]);
        assert(a.contains(a[i]));
    }
    assert(s[a.len() as int] == ':');
    lemma_until(s, set![':'], a.len() as int);
    assert(s.take(a.len() as int) =~= a);
    assert(s.skip(a.len() as int + 1) =~= b);
}

/// A line that sets the hands: the hour ends at the first colon behind the word, the minute
/// at the second, and all that follows is the second. White space around the line makes no
/// difference. Where one of the three is no field the line gives no command.
pub proof fn law_time_line(
    before: Seq<char>,
    a: Seq<char>,
    b: Seq<char>,
    c: Seq<char>,
    after: Seq<char>,
)
    requires
        blank(before),
        blank(after),
        !a.contains(':'),
        !b.contains(':'),
        c.len() > 0 ==> !is_white_space(c.last()),
    ensures
        command_in(before + ("ST:"@ + a + ":"@ + b + ":"@ + c) + after) == (match (
            field_value(a),
            field_value(b),
            field_value(c),
        ) {
            (Some(hour), Some(minute), Some(second)) => Some(
                NetworkCommand::SyncTime { hour, minute, second },
            ),
            _ => None,
        }),
{
    reveal_strlit("SA:");
    reveal_strlit("SN");
    reveal_strlit("DA");
    reveal_strlit("ST:");
    reveal_strlit(":");
    let s = "ST:"@ + a + ":"@ + b + ":"@ + c;
    assert(s.first() == 'S' && s[1] == 'T');
    assert(s.last() == if c.len() > 0 {
        c.last()
    } else {
        ':'
    });
    law_trimmed(before, s, after);
    assert("SA:"@[1] == 'A' && s.subrange(0, 3)[1] == 'T');
    assert("ST:"@ =~= s.subrange(0, 3));
    assert(s.skip(3) =~= a.push(':') + b.push(':') + c);
    law_three_parts(a, b, c, ':');
}

/// A line that would set the hands and has fewer than two colons behind the word gives no
/// command.
pub proof fn law_short_time_line(before: Seq<char>, a: Seq<char>, b: Seq<char>, after: Seq<char>)
    requires
        blank(before),
        blank(after),
        !a.contains(':'),
        !b.contains(':'),
    ensures
        b.len() > 0 ==> !is_white_space(b.last()) ==> command_in(
            before + ("ST:"@ + a + ":"@ + b) + after,
        ) is None,
        a.len() > 0 ==> !is_white_space(a.last()) ==> command_in(before + ("ST:"@ + a) + after)
            is None,
        command_in(before + "ST:"@ + after) is None,
        command_in(before + ("ST:"@ + a + ":"@) + after) is None,
{
    reveal_strlit("ST:");
    reveal_strlit(":");
    let two = "ST:"@ + a + ":"@ + b;
    if b.len() > 0 && !is_white_space(b.last()) {
        assert(two.last() == b.last());
        assert(two.skip(3) =~= a.push(':') + b);
        lemma_short_fields(a, b);
        lemma_time_word(before, two, after);
    }
    let one = "ST:"@ + a;
    if a.len() > 0 && !is_white_space(a.last()) {
        assert(one.last() == a.last());
        assert(one.skip(3) =~= a);
        lemma_short_fields(a, b);
        lemma_time_word(before, one, after);
    }
    assert("ST:"@.last() == ':');
    assert("ST:"@.skip(3) =~= Seq::<char>::empty());
    lemma_short_fields(Seq::empty(), b);
    lemma_time_word(before, "ST:"@, after);
    let open = "ST:"@ + a + ":"@;
    assert(open.last() == ':');
    assert(open.skip(3) =~= a.push(':') + Seq::<char>::empty());
    lemma_short_fields(a, Seq::empty());
    lemma_time_word(before, open, after);
}

/// One field, or two, are no time.
proof fn lemma_short_fields(a: Seq<char>, b: Seq<char>)
    requires
        !a.contains(':'),
        !b.contains(':'),
    ensures
        time_in(a) is None,
        time_in(a.push(':') + b) is None,
{
    law_three_parts(a, b, Seq::empty(), ':');
    lemma_empty_field();
}

/// Nothing is no field.
proof fn lemma_empty_field()
    ensures
        field_value(Seq::empty()) is None,
{
    lemma_trimmed_same(Seq::empty());
}

/// A line that starts with the word for the hands is read as one.
proof fn lemma_time_word(before: Seq<char>, s: Seq<char>, after: Seq<char>)
    requires
        blank(before),
        blank(after),
        s.len() >= 3,
        s[0] == 'S' && s[1] == 'T' && s[2] == ':',
        !is_white_space(s.last()),
    ensures
        command_in(before + s + after) == time_in(s.skip(3)),
{
    reveal_strlit("SA:");
    reveal_strlit("SN");
    reveal_strlit("DA");
    reveal_strlit("ST:");
    law_trimmed(before, s, after);
    assert("SA:"@[1] == 'A' && s.subrange(0, 3)[1] == 'T');
    assert("ST:"@ =~= s.subrange(0, 3));
}

/// The words for a snooze and for turning the alarm off, with white space around them, give
/// those commands. Blank lines give none, and no line that differs from the two words and
/// starts with neither of the others does: such a line is unknown where it is not blank.
pub proof fn law_word_line(before: Seq<char>, s: Seq<char>, after: Seq<char>)
    requires
        blank(before),
        blank(after),
        s.len() > 0 ==> !is_white_space(s.first()) && !is_white_space(s.last()),
    ensures
        ({
            let line = before + s + after;
            let alarm = s.len() >= 3 && s.take(3) == "SA:"@;
            let time = s.len() >= 3 && s.take(3) == "ST:"@;
            &&& s == "SN"@ ==> command_in(line) == Some(NetworkCommand::SnoozeAlarm)
            &&& s == "DA"@ ==> command_in(line) == Some(NetworkCommand::DisableAlarm)
            &&& s != "SN"@ && s != "DA"@ && !alarm && !time ==> command_in(line) is None
            &&& unknown(line) <==> s.len() > 0 && s != "SN"@ && s != "DA"@ && !alarm && !time
        }),
{
    reveal_strlit("SA:");
    reveal_strlit("SN");
    reveal_strlit("DA");
    reveal_strlit("ST:");
    law_trimmed(before, s, after);
    if s.len() >= 3 {
        assert(s.take(3) =~= s.subrange(0, 3));
    }
}

/// What a line does to the clock is what its command does, and nothing where it gives none.
pub proof fn law_line_done(clock: ClockState, line: Seq<char>)
    ensures
        at_line_end()(clock, line) == clock_after_line(clock, line),
        command_in(line) is None ==> clock_after_line(clock, line) == clock,
        command_in(line) is Some ==> clock_after_line(clock, line) == clock.commanded(
            command_in(line)->0,
        ),
{
}

/// A line with an hour and a minute sets the alarm to them, on and silent, and touches
/// neither the hands nor the temperature.
pub proof fn law_alarm_set_by_line(clock: ClockState, h: Seq<char>, m: Seq<char>)
    requires
        all_digits(h),
        all_digits(m),
    ensures
        ({
            let after = clock_after_line(clock, "SA:"@ + h + ":"@ + m);
            &&& after.alarm_hour == digits_value(h) % 256
            &&& after.alarm_minute == digits_value(m) % 256
            &&& after.alarm_enabled
            &&& !after.is_ringing
            &&& after.ringing_seconds == 0
            &&& after.hour == clock.hour
            &&& after.minute == clock.minute
            &&& after.second == clock.second
            &&& after.temp_tenths == clock.temp_tenths
        }),
{
    law_set_alarm_line(h, m);
}

/// A line with an hour, a minute and a second sets the hands to them, and touches neither
/// the alarm nor the temperature.
pub proof fn law_hands_set_by_line(clock: ClockState, h: Seq<char>, m: Seq<char>, s: Seq<char>)
    requires
        all_digits(h),
        all_digits(m),
        all_digits(s),
    ensures
        ({
            let after = clock_after_line(clock, "ST:"@ + h + ":"@ + m + ":"@ + s);
            &&& after.hour == digits_value(h) % 256
            &&& after.minute == digits_value(m) % 256
            &&& after.second == digits_value(s) % 256
            &&& after.alarm_hour == clock.alarm_hour
            &&& after.alarm_minute == clock.alarm_minute
            &&& after.alarm_enabled == clock.alarm_enabled
            &&& after.is_ringing == clock.is_ringing
            &&& after.ringing_seconds == clock.ringing_seconds
            &&& after.temp_tenths == clock.temp_tenths
        }),
{
    law_sync_time_line(h, m, s);
}

/// Of a command line the clock sees the first 32 characters, carriage returns left out, and
/// it sees them once the line has ended.
pub proof fn law_command_room(clock: ClockState, sent: Seq<char>)
    requires
        is_ascii_chars(sent),
        !sent.contains('\n'),
    ensures
        fed_all(
            Seq::empty(),
            clock,
            encode_utf8(sent.push('\n')),
            COMMAND_CAPACITY as nat,
            at_line_end(),
        ) == (Seq::<char>::empty(), clock_after_line(clock, cut(without_returns(sent), 32))),
{
    let bytes = encode_utf8(sent.push('\n'));
    law_line_cut(clock, sent, Seq::empty(), COMMAND_CAPACITY as nat, at_line_end());
    assert(bytes + Seq::<u8>::empty() =~= bytes);
}

} // verus!
