//! The clock: the time of day, the alarm, and what a second, a button and a
//! command do to them.

use crate::command::NetworkCommand;
use vstd::prelude::*;

verus! {

/// The ringing time at which an alarm turns itself off. The second in which it
/// starts counts as the first, so it is off one second less than that later.
pub const RING_SECONDS: u32 = 300;

/// By how many minutes a snooze moves the alarm.
pub const SNOOZE_MINUTES: u16 = 5;

/// The time of day, the alarm and the temperature.
///
/// A command may set the hands and the alarm to any numbers. `time_in_range` and
/// `alarm_in_range` say that they are those of a time of day.
#[derive(Debug, Clone, Copy, PartialEq, Eq, Structural)]
pub struct ClockState {
    pub hour: u8,
    pub minute: u8,
    pub second: u8,
    pub alarm_hour: u8,
    pub alarm_minute: u8,
    pub alarm_enabled: bool,
    pub is_ringing: bool,
    pub ringing_seconds: u32,
    pub temp_tenths: i16,
}

/// What a second brought about.
#[derive(Debug, Clone, Copy, PartialEq, Eq, Structural)]
pub enum TickEvent {
    /// The time went on, and the alarm is as it was.
    Quiet,
    /// The alarm started to ring.
    Triggered,
    /// The alarm rang for as long as it may, and turned itself off.
    AutoCancelled,
}

impl ClockState {
    /// What every operation keeps: an alarm rings only where it is enabled, it
    /// has rung for less than the time that it may, and one that does not ring
    /// has no ringing time.
    pub open spec fn wf(self) -> bool {
        &&& self.is_ringing ==> self.alarm_enabled && 0 < self.ringing_seconds < RING_SECONDS
        &&& !self.is_ringing ==> self.ringing_seconds == 0
    }

    /// The hands show a time of day.
    pub open spec fn time_in_range(self) -> bool {
        self.hour < 24 && self.minute < 60 && self.second < 60
    }

    /// The alarm is set to a time of day.
    pub open spec fn alarm_in_range(self) -> bool {
        self.alarm_hour < 24 && self.alarm_minute < 60
    }

    /// The seconds since midnight.
    pub open spec fn seconds_of_day(self) -> int {
        self.hour * 3600 + self.minute * 60 + self.second
    }

    /// The seconds from midnight to the alarm.
    pub open spec fn alarm_seconds(self) -> int {
        self.alarm_hour * 3600 + self.alarm_minute * 60
    }

    /// The hands can take one more second, and so can the ringing time.
    pub open spec fn tick_fits(self) -> bool {
        &&& self.second < 255
        &&& self.second >= 59 ==> self.minute < 255
        &&& self.second >= 59 && self.minute >= 59 ==> self.hour < 255
        &&& self.is_ringing ==> self.ringing_seconds < u32::MAX
    }

    /// The hands one second on.
    pub open spec fn hands_on(self) -> ClockState {
        if self.second < 59 {
            ClockState { second: (self.second + 1) as u8, ..self }
        } else if self.minute < 59 {
            ClockState { second: 0, minute: (self.minute + 1) as u8, ..self }
        } else if self.hour < 23 {
            ClockState { second: 0, minute: 0, hour: (self.hour + 1) as u8, ..self }
        } else {
            ClockState { second: 0, minute: 0, hour: 0, ..self }
        }
    }

    /// The hands stand at the first second of the alarm's minute.
    pub open spec fn at_alarm(self) -> bool {
        self.hour == self.alarm_hour && self.minute == self.alarm_minute && self.second == 0
    }

    /// The next second starts the alarm.
    pub open spec fn tick_triggers(self) -> bool {
        self.alarm_enabled && !self.is_ringing && self.hands_on().at_alarm()
    }

    /// The next second ends the alarm's ringing.
    pub open spec fn tick_cancels(self) -> bool {
        self.is_ringing && self.ringing_seconds + 1 >= RING_SECONDS
    }

    /// The clock one second on.
    pub open spec fn ticked(self) -> ClockState {
        let next = self.hands_on();
        if self.tick_triggers() {
            ClockState { is_ringing: true, ringing_seconds: 1, ..next }
        } else if self.tick_cancels() {
            ClockState { is_ringing: false, alarm_enabled: false, ringing_seconds: 0, ..next }
        } else if self.is_ringing {
            ClockState { ringing_seconds: (self.ringing_seconds + 1) as u32, ..next }
        } else {
            next
        }
    }

    /// The clock `n` seconds on.
    pub open spec fn ticked_by(self, n: nat) -> ClockState
        decreases n,
    {
        if n == 0 {
            self
        } else {
            self.ticked_by((n - 1) as nat).ticked()
        }
    }

    /// The alarm hour can take one more hour where a snooze needs it.
    pub open spec fn snooze_fits(self) -> bool {
        self.is_ringing && self.alarm_minute + SNOOZE_MINUTES >= 60 ==> self.alarm_hour < 255
    }

    /// The clock after a snooze: an alarm that rings falls silent, and rings
    /// again some minutes after the time that it was set to.
    pub open spec fn snoozed(self) -> ClockState {
        let total = self.alarm_minute + SNOOZE_MINUTES;
        if !self.is_ringing {
            self
        } else {
            ClockState {
                is_ringing: false,
                ringing_seconds: 0,
                alarm_minute: (total % 60) as u8,
                alarm_hour: if total >= 60 {
                    ((self.alarm_hour + 1) % 24) as u8
                } else {
                    self.alarm_hour
                },
                ..self
            }
        }
    }

    /// The clock with its alarm off.
    pub open spec fn disabled(self) -> ClockState {
        ClockState { alarm_enabled: false, is_ringing: false, ringing_seconds: 0, ..self }
    }

    /// The clock after the cancel button: its alarm is off. Where there was no
    /// alarm nothing changes.
    pub open spec fn cancelled(self) -> ClockState {
        if self.is_ringing || self.alarm_enabled {
            self.disabled()
        } else {
            self
        }
    }

    /// The clock with its alarm set to a time, on, and silent.
    pub open spec fn with_alarm(self, hour: u8, minute: u8) -> ClockState {
        ClockState {
            alarm_hour: hour,
            alarm_minute: minute,
            alarm_enabled: true,
            is_ringing: false,
            ringing_seconds: 0,
            ..self
        }
    }

    /// The clock with its hands set to a time.
    pub open spec fn with_time(self, hour: u8, minute: u8, second: u8) -> ClockState {
        ClockState { hour, minute, second, ..self }
    }

    /// The clock with a temperature that was measured.
    pub open spec fn with_temperature(self, tenths: i16) -> ClockState {
        ClockState { temp_tenths: tenths, ..self }
    }

    /// The clock after a command.
    pub open spec fn commanded(self, command: NetworkCommand) -> ClockState {
        match command {
            NetworkCommand::SetAlarm { hour, minute } => self.with_alarm(hour, minute),
            NetworkCommand::DisableAlarm => self.disabled(),
            NetworkCommand::SnoozeAlarm => self.snoozed(),
            NetworkCommand::SyncTime { hour, minute, second } => self.with_time(
                hour,
                minute,
                second,
            ),
        }
    }

    /// The clock as it starts: midnight, with an alarm at seven that is off,
    /// and a temperature of 22.5 degrees until one is measured.
    pub fn new() -> (clock: ClockState)
        ensures
            clock.seconds_of_day() == 0,
            clock.alarm_seconds() == 7 * 3600,
            !clock.alarm_enabled,
            clock.temp_tenths == 225,
            clock.time_in_range(),
            clock.alarm_in_range(),
            clock.wf(),
            clock.hour == 0 && clock.minute == 0 && clock.second == 0,
            clock.alarm_hour == 7 && clock.alarm_minute == 0,
            !clock.is_ringing && clock.ringing_seconds == 0,
    {
        ClockState {
            hour: 0,
            minute: 0,
            second: 0,
            alarm_hour: 7,
            alarm_minute: 0,
            alarm_enabled: false,
            is_ringing: false,
            ringing_seconds: 0,
            temp_tenths: 225,
        }
    }

    /// Whether the hands and the ringing time can take one more second.
    pub fn can_tick(&self) -> (result: bool)
        ensures
            result == self.tick_fits(),
    {
        self.second < 255 && (self.second < 59 || self.minute < 255) && (self.second < 59
            || self.minute < 59 || self.hour < 255) && (!self.is_ringing || self.ringing_seconds
            < u32::MAX)
    }

    /// Takes the clock one second on.
    pub fn tick(&mut self) -> (event: TickEvent)
        requires
            old(self).tick_fits(),
        ensures
            *final(self) == old(self).ticked(),
            event == (if old(self).tick_triggers() {
                TickEvent::Triggered
            } else if old(self).tick_cancels() {
                TickEvent::AutoCancelled
            } else {
                TickEvent::Quiet
            }),
            old(self).wf() ==> final(self).wf(),
            old(self).time_in_range() ==> final(self).time_in_range(),
            event is Triggered <==> !old(self).is_ringing && final(self).is_ringing,
            event is AutoCancelled <==> old(self).is_ringing && !final(self).is_ringing,
    {
        let mut event = TickEvent::Quiet;
        self.second += 1;
        if self.second >= 60 {
            self.second = 0;
            self.minute += 1;
            if self.minute >= 60 {
                self.minute = 0;
                self.hour += 1;
                if self.hour >= 24 {
                    self.hour = 0;
                }
            }
        }
        if self.alarm_enabled && !self.is_ringing {
            if self.hour == self.alarm_hour && self.minute == self.alarm_minute && self.second
                == 0 {
                self.is_ringing = true;
                self.ringing_seconds = 0;
                event = TickEvent::Triggered;
            }
        }
        if self.is_ringing {
            self.ringing_seconds += 1;
            if self.ringing_seconds >= RING_SECONDS {
                self.is_ringing = false;
                self.alarm_enabled = false;
                self.ringing_seconds = 0;
                event = TickEvent::AutoCancelled;
            }
        }
        event
    }

    /// Whether the alarm hour can take one more hour where a snooze needs it.
    pub fn can_snooze(&self) -> (result: bool)
        ensures
            result == self.snooze_fits(),
    {
        !self.is_ringing || self.alarm_minute < 55 || self.alarm_hour < 255
    }

    /// Silences an alarm that rings, and moves it on by some minutes. Says
    /// whether there was one.
    pub fn snooze(&mut self) -> (acted: bool)
        requires
            old(self).snooze_fits(),
        ensures
            *final(self) == old(self).snoozed(),
            acted == old(self).is_ringing,
            old(self).wf() ==> final(self).wf(),
            old(self).alarm_in_range() ==> final(self).alarm_in_range(),
    {
        if !self.is_ringing {
            return false;
        }
        self.is_ringing = false;
        self.ringing_seconds = 0;
        let total: u16 = self.alarm_minute as u16 + SNOOZE_MINUTES;
        self.alarm_minute = (total % 60) as u8;
        if total >= 60 {
            self.alarm_hour = (self.alarm_hour + 1) % 24;
        }
        true
    }

    /// Turns the alarm off. Says whether there was one.
    pub fn cancel(&mut self) -> (acted: bool)
        ensures
            *final(self) == old(self).cancelled(),
            acted == (old(self).is_ringing || old(self).alarm_enabled),
            old(self).wf() ==> final(self).wf(),
    {
        if self.is_ringing || self.alarm_enabled {
            self.disable();
            true
        } else {
            false
        }
    }

    /// Turns the alarm off.
    pub fn disable(&mut self)
        ensures
            *final(self) == old(self).disabled(),
            final(self).wf(),
            !final(self).alarm_enabled && !final(self).is_ringing,
    {
        self.alarm_enabled = false;
        self.is_ringing = false;
        self.ringing_seconds = 0;
    }

    /// Takes in a temperature that was measured. Nothing else changes.
    pub fn set_temperature(&mut self, tenths: i16)
        ensures
            *final(self) == old(self).with_temperature(tenths),
            old(self).wf() ==> final(self).wf(),
    {
        self.temp_tenths = tenths;
    }

    /// Does what a command says.
    pub fn apply(&mut self, command: NetworkCommand)
        requires
            command is SnoozeAlarm ==> old(self).snooze_fits(),
        ensures
            *final(self) == old(self).commanded(command),
            old(self).wf() ==> final(self).wf(),
    {
        match command {
            NetworkCommand::SetAlarm { hour, minute } => {
                self.alarm_hour = hour;
                self.alarm_minute = minute;
                self.alarm_enabled = true;
                self.is_ringing = false;
                self.ringing_seconds = 0;
            },
            NetworkCommand::DisableAlarm => {
                self.disable();
            },
            NetworkCommand::SnoozeAlarm => {
                let _ = self.snooze();
            },
            NetworkCommand::SyncTime { hour, minute, second } => {
                self.hour = hour;
                self.minute = minute;
                self.second = second;
            },
        }
    }
}

/// A clock that shows a time of day keeps time: after `n` seconds it is `n`
/// seconds later, modulo the length of a day.
pub proof fn law_keeps_time(clock: ClockState, n: nat)
    requires
        clock.time_in_range(),
    ensures
        clock.ticked_by(n).time_in_range(),
        clock.ticked_by(n).seconds_of_day() == (clock.seconds_of_day() + n) % 86400,
    decreases n,
{
    if n > 0 {
        law_keeps_time(clock, (n - 1) as nat);
    }
}

/// No number of seconds, neither button, no command and no temperature brings the
/// clock out of the states in which the alarm's fields agree.
pub proof fn law_alarm_fields_agree(
    clock: ClockState,
    n: nat,
    command: NetworkCommand,
    tenths: i16,
)
    requires
        clock.wf(),
    ensures
        clock.ticked_by(n).wf(),
        clock.snoozed().wf(),
        clock.cancelled().wf(),
        clock.commanded(command).wf(),
        clock.with_temperature(tenths).wf(),
        clock.ticked_by(n).is_ringing ==> clock.ticked_by(n).alarm_enabled && 1 <= clock.ticked_by(
            n,
        ).ringing_seconds <= 299,
        !clock.ticked_by(n).is_ringing ==> clock.ticked_by(n).ringing_seconds == 0,
    decreases n,
{
    if n > 0 {
        law_alarm_fields_agree(clock, (n - 1) as nat, command, tenths);
    }
}

/// The passing of time changes neither the temperature nor the time that the alarm
/// is set to, and turns no alarm on. An alarm that is off stays silent.
pub proof fn law_time_leaves_the_rest(clock: ClockState, n: nat)
    ensures
        clock.ticked_by(n).temp_tenths == clock.temp_tenths,
        clock.ticked_by(n).alarm_hour == clock.alarm_hour,
        clock.ticked_by(n).alarm_minute == clock.alarm_minute,
        clock.ticked_by(n).alarm_enabled ==> clock.alarm_enabled,
        !clock.alarm_enabled && !clock.is_ringing ==> !clock.ticked_by(n).is_ringing,
    decreases n,
{
    if n > 0 {
        law_time_leaves_the_rest(clock, (n - 1) as nat);
    }
}

/// The seconds until the hands next stand at the alarm, from one to a day.
pub open spec fn seconds_to_alarm(clock: ClockState) -> int {
    (clock.alarm_seconds() - clock.seconds_of_day() - 1) % 86400 + 1
}

/// An alarm that is on and silent stays so until the hands stand at its time,
/// and rings in that second.
pub proof fn law_rings_at_alarm(clock: ClockState, n: nat)
    requires
        clock.time_in_range(),
        clock.alarm_in_range(),
        clock.alarm_enabled,
        !clock.is_ringing,
        n <= seconds_to_alarm(clock),
    ensures
        clock.ticked_by(n).is_ringing == (n == seconds_to_alarm(clock)),
        clock.ticked_by(n).alarm_enabled,
        clock.ticked_by(n).alarm_hour == clock.alarm_hour,
        clock.ticked_by(n).alarm_minute == clock.alarm_minute,
        n == seconds_to_alarm(clock) ==> clock.ticked_by(n).ringing_seconds == 1,
    decreases n,
{
    if n > 0 {
        let before = clock.ticked_by((n - 1) as nat);
        law_rings_at_alarm(clock, (n - 1) as nat);
        law_keeps_time(clock, (n - 1) as nat);
        law_keeps_time(clock, n);
        lemma_at_alarm(before.hands_on());
        lemma_next_alarm(clock.seconds_of_day(), clock.alarm_seconds(), n as int);
        assert(before.hands_on().seconds_of_day() == clock.ticked_by(n).seconds_of_day());
    }
}

/// Hands and alarm that are times of day agree where their seconds do.
proof fn lemma_at_alarm(clock: ClockState)
    requires
        clock.time_in_range(),
        clock.alarm_in_range(),
    ensures
        clock.at_alarm() == (clock.seconds_of_day() == clock.alarm_seconds()),
{
}

/// Of the seconds up to the next alarm only the last is the alarm's.
proof fn lemma_next_alarm(now: int, alarm: int, n: int)
    requires
        0 <= now < 86400,
        0 <= alarm < 86400,
        1 <= n <= (alarm - now - 1) % 86400 + 1,
    ensures
        ((now + n) % 86400 == alarm) == (n == (alarm - now - 1) % 86400 + 1),
{
}

/// An alarm that starts to ring and is left alone is off `RING_SECONDS - 1`
/// seconds later: the second in which it starts counts as the first of its ringing
/// time. Until then it rings, and is on if it was. From then on it is off, and no
/// second makes it ring again. The time that it is set to stays.
pub proof fn law_ringing_ends(clock: ClockState, n: nat)
    requires
        clock.is_ringing,
        clock.ringing_seconds == 1,
    ensures
        n < RING_SECONDS - 1 ==> clock.ticked_by(n).is_ringing && clock.ticked_by(
            n,
        ).ringing_seconds == n + 1 && clock.ticked_by(n).alarm_enabled == clock.alarm_enabled,
        n >= RING_SECONDS - 1 ==> !clock.ticked_by(n).is_ringing && !clock.ticked_by(
            n,
        ).alarm_enabled && clock.ticked_by(n).ringing_seconds == 0,
        clock.ticked_by(n).alarm_hour == clock.alarm_hour,
        clock.ticked_by(n).alarm_minute == clock.alarm_minute,
    decreases n,
{
    if n > 0 {
        law_ringing_ends(clock, (n - 1) as nat);
    }
}

/// A snooze moves an alarm that rings on by `SNOOZE_MINUTES` minutes, modulo
/// the length of a day, and leaves it on and silent. The hands and the temperature
/// stay.
pub proof fn law_snooze_moves_alarm(clock: ClockState)
    requires
        clock.is_ringing,
        clock.alarm_in_range(),
        clock.wf(),
    ensures
        clock.snoozed().alarm_in_range(),
        clock.snoozed().alarm_seconds() == (clock.alarm_seconds() + SNOOZE_MINUTES * 60) % 86400,
        clock.snoozed().alarm_enabled,
        !clock.snoozed().is_ringing,
        clock.snoozed() == (ClockState {
            alarm_hour: clock.snoozed().alarm_hour,
            alarm_minute: clock.snoozed().alarm_minute,
            is_ringing: false,
            ringing_seconds: 0,
            ..clock
        }),
{
}

/// An alarm that is snoozed while it rings rings again `SNOOZE_MINUTES` minutes
/// after it started to, and not before.
pub proof fn law_snoozed_rings_again(clock: ClockState, n: nat)
    requires
        clock.is_ringing,
        clock.wf(),
        clock.time_in_range(),
        clock.alarm_in_range(),
        clock.seconds_of_day() == (clock.alarm_seconds() + clock.ringing_seconds - 1) % 86400,
        clock.ringing_seconds - 1 + n <= SNOOZE_MINUTES * 60,
    ensures
        clock.snoozed().ticked_by(n).is_ringing == (clock.ringing_seconds - 1 + n == SNOOZE_MINUTES
            * 60),
{
    law_snooze_moves_alarm(clock);
    lemma_snooze_left(clock.alarm_seconds(), clock.ringing_seconds - 1);
    assert(clock.snoozed().seconds_of_day() == clock.seconds_of_day());
    law_rings_at_alarm(clock.snoozed(), n);
}

/// What is left of a snooze that comes some seconds after the alarm.
proof fn lemma_snooze_left(alarm: int, passed: int)
    requires
        0 <= alarm < 86400,
        0 <= passed < 300,
    ensures
        ((alarm + 300) % 86400 - (alarm + passed) % 86400 - 1) % 86400 + 1 == 300 - passed,
{
    let now = (alarm + passed) % 86400;
    let next = (alarm + 300) % 86400;
    assert(now == alarm + passed || now == alarm + passed - 86400);
    assert(next == alarm + 300 || next == alarm + 300 - 86400);
}

/// A second snooze, or a snooze while no alarm rings, does nothing, and neither
/// does a second cancel.
pub proof fn law_buttons_idempotent(clock: ClockState)
    ensures
        clock.snoozed().snoozed() == clock.snoozed(),
        clock.cancelled().cancelled() == clock.cancelled(),
        !clock.cancelled().is_ringing && !clock.cancelled().alarm_enabled,
{
}

/// A clock whose fields agree, and which shows a time of day, can always take
/// one more second; one whose alarm is a time of day can always be snoozed.
pub proof fn law_range_suffices(clock: ClockState)
    ensures
        clock.wf() && clock.time_in_range() ==> clock.tick_fits(),
        clock.alarm_in_range() ==> clock.snooze_fits(),
        clock.time_in_range() <==> clock.hour <= 23 && clock.minute <= 59 && clock.second <= 59,
        clock.alarm_in_range() <==> clock.alarm_hour <= 23 && clock.alarm_minute <= 59,
{
}

/// The command that sets the alarm sets it to the hour and the minute that it
/// names, whatever they are, turns it on and silences it. The hands and the
/// temperature stay.
pub proof fn law_set_alarm(clock: ClockState, hour: u8, minute: u8)
    ensures
        ({
            let after = clock.commanded(NetworkCommand::SetAlarm { hour, minute });
            &&& after.alarm_hour == hour
            &&& after.alarm_minute == minute
            &&& after.alarm_seconds() == hour * 3600 + minute * 60
            &&& after.alarm_enabled
            &&& !after.is_ringing
            &&& after.ringing_seconds == 0
            &&& after.hour == clock.hour
            &&& after.minute == clock.minute
            &&& after.second == clock.second
            &&& after.temp_tenths == clock.temp_tenths
        }),
{
}

/// The command that sets the hands sets them to the numbers that it names, whatever
/// they are. The alarm and the temperature stay.
pub proof fn law_sync_time(clock: ClockState, hour: u8, minute: u8, second: u8)
    ensures
        ({
            let after = clock.commanded(NetworkCommand::SyncTime { hour, minute, second });
            &&& after.hour == hour
            &&& after.minute == minute
            &&& after.second == second
            &&& after.seconds_of_day() == hour * 3600 + minute * 60 + second
            &&& after.alarm_hour == clock.alarm_hour
            &&& after.alarm_minute == clock.alarm_minute
            &&& after.alarm_enabled == clock.alarm_enabled
            &&& after.is_ringing == clock.is_ringing
            &&& after.ringing_seconds == clock.ringing_seconds
            &&& after.temp_tenths == clock.temp_tenths
        }),
{
}

/// The command that disables the alarm turns it off and silences it, whether it
/// rings or not, and no number of seconds makes it ring after that. The hands, the
/// time of the alarm and the temperature stay.
pub proof fn law_disable(clock: ClockState, n: nat)
    ensures
        ({
            let after = clock.commanded(NetworkCommand::DisableAlarm);
            &&& !after.alarm_enabled
            &&& !after.is_ringing
            &&& after.ringing_seconds == 0
            &&& after.hour == clock.hour
            &&& after.minute == clock.minute
            &&& after.second == clock.second
            &&& after.alarm_hour == clock.alarm_hour
            &&& after.alarm_minute == clock.alarm_minute
            &&& after.temp_tenths == clock.temp_tenths
            &&& after == clock.disabled()
            &&& !after.ticked_by(n).is_ringing
            &&& !after.ticked_by(n).alarm_enabled
        }),
{
    law_time_leaves_the_rest(clock.commanded(NetworkCommand::DisableAlarm), n);
}

/// The cancel button leaves the alarm off and silent, and no number of seconds makes
/// it ring after that. The hands, the time of the alarm and the temperature stay.
pub proof fn law_cancel(clock: ClockState, n: nat)
    ensures
        ({
            let after = clock.cancelled();
            &&& !after.alarm_enabled
            &&& !after.is_ringing
            &&& clock.is_ringing || clock.alarm_enabled ==> after.ringing_seconds == 0
            &&& !clock.is_ringing && !clock.alarm_enabled ==> after == clock
            &&& after.hour == clock.hour
            &&& after.minute == clock.minute
            &&& after.second == clock.second
            &&& after.alarm_hour == clock.alarm_hour
            &&& after.alarm_minute == clock.alarm_minute
            &&& after.temp_tenths == clock.temp_tenths
            &&& !after.ticked_by(n).is_ringing
        }),
{
    law_time_leaves_the_rest(clock.cancelled(), n);
}

/// A snooze, by the button or by the command, silences an alarm that rings and sets
/// it five minutes on, also where it was set to no time of day. Nothing else changes,
/// and nothing at all where no alarm rings.
pub proof fn law_snooze(clock: ClockState)
    ensures
        clock.commanded(NetworkCommand::SnoozeAlarm) == clock.snoozed(),
        !clock.is_ringing ==> clock.snoozed() == clock,
        clock.is_ringing ==> {
            let after = clock.snoozed();
            &&& !after.is_ringing
            &&& after.ringing_seconds == 0
            &&& after.alarm_minute < 60
            &&& after.alarm_minute == (clock.alarm_minute + 5) % 60
            &&& clock.alarm_minute <= 54 ==> after.alarm_hour == clock.alarm_hour
            &&& clock.alarm_minute >= 55 ==> after.alarm_hour == (clock.alarm_hour + 1) % 24
            &&& after.alarm_enabled == clock.alarm_enabled
            &&& after.hour == clock.hour
            &&& after.minute == clock.minute
            &&& after.second == clock.second
            &&& after.temp_tenths == clock.temp_tenths
        },
        clock.snooze_fits() <==> !(clock.is_ringing && clock.alarm_minute >= 55 && clock.alarm_hour
            == 255),
{
}

/// A temperature that was measured becomes the clock's, and changes nothing else.
pub proof fn law_temperature_taken(clock: ClockState, tenths: i16)
    ensures
        ({
            let after = clock.with_temperature(tenths);
            &&& after.temp_tenths == tenths
            &&& after.hour == clock.hour
            &&& after.minute == clock.minute
            &&& after.second == clock.second
            &&& after.alarm_hour == clock.alarm_hour
            &&& after.alarm_minute == clock.alarm_minute
            &&& after.alarm_enabled == clock.alarm_enabled
            &&& after.is_ringing == clock.is_ringing
            &&& after.ringing_seconds == clock.ringing_seconds
        }),
{
}

/// In a second each hand goes on by one or returns to zero: a hand goes on where all
/// finer ones return to zero, and returns to zero from its last number or from any
/// beyond. This holds of hands out of range too.
pub proof fn law_hands_turn(clock: ClockState)
    ensures
        ({
            let after = clock.ticked();
            &&& after.second == 0 || after.second == clock.second + 1
            &&& after.second == 0 <==> clock.second >= 59
            &&& after.second != 0 ==> after.minute == clock.minute
            &&& after.second == 0 ==> after.minute == 0 || after.minute == clock.minute + 1
            &&& after.second == 0 ==> (after.minute == 0 <==> clock.minute >= 59)
            &&& after.second != 0 || after.minute != 0 ==> after.hour == clock.hour
            &&& after.second == 0 && after.minute == 0 ==> after.hour == 0 || after.hour
                == clock.hour + 1
            &&& after.second == 0 && after.minute == 0 ==> (after.hour == 0 <==> clock.hour >= 23)
        }),
        clock.tick_fits() <==> {
            &&& clock.second + 1 <= 255
            &&& clock.second >= 59 ==> clock.minute + 1 <= 255
            &&& clock.second >= 59 && clock.minute >= 59 ==> clock.hour + 1 <= 255
            &&& clock.is_ringing ==> clock.ringing_seconds + 1 <= 0xffff_ffff
        },
{
}

/// What a second does to the alarm. A silent one starts to ring if and only if it is
/// on and the hands come to stand at its hour and minute and at second zero. One that
/// rings goes on, second by second, until its ringing time would reach 300, and is
/// then off. Nothing else turns an alarm off, and nothing moves it.
pub proof fn law_alarm_in_a_second(clock: ClockState)
    ensures
        ({
            let after = clock.ticked();
            &&& !clock.is_ringing ==> (after.is_ringing <==> clock.alarm_enabled && after.hour
                == clock.alarm_hour && after.minute == clock.alarm_minute && after.second == 0)
            &&& clock.is_ringing ==> (after.is_ringing <==> clock.ringing_seconds < 299)
            &&& !clock.is_ringing && after.is_ringing ==> after.ringing_seconds == 1
            &&& !clock.is_ringing && !after.is_ringing ==> after.ringing_seconds
                == clock.ringing_seconds
            &&& clock.is_ringing && after.is_ringing ==> after.ringing_seconds
                == clock.ringing_seconds + 1
            &&& clock.is_ringing && !after.is_ringing ==> after.ringing_seconds == 0
                && !after.alarm_enabled
            &&& !clock.is_ringing || after.is_ringing ==> after.alarm_enabled
                == clock.alarm_enabled
            &&& after.alarm_hour == clock.alarm_hour
            &&& after.alarm_minute == clock.alarm_minute
            &&& after.temp_tenths == clock.temp_tenths
        }),
        clock.tick_triggers() <==> !clock.is_ringing && clock.ticked().is_ringing,
        clock.tick_cancels() <==> clock.is_ringing && !clock.ticked().is_ringing,
{
}

} // verus!
