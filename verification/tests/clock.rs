use sunrise_alarm::clock::{ClockState, TickEvent};
use sunrise_alarm::command::NetworkCommand;

fn at(hour: u8, minute: u8, second: u8) -> ClockState {
    let mut clock = ClockState::new();
    clock.hour = hour;
    clock.minute = minute;
    clock.second = second;
    clock
}

#[test]
fn a_new_clock() {
    let clock = ClockState::new();
    assert_eq!((clock.hour, clock.minute, clock.second), (0, 0, 0));
    assert_eq!((clock.alarm_hour, clock.alarm_minute), (7, 0));
    assert!(!clock.alarm_enabled && !clock.is_ringing);
    assert_eq!(clock.ringing_seconds, 0);
    assert_eq!(clock.temp_tenths, 225);
}

#[test]
fn seconds_carry_over() {
    let mut clock = at(10, 59, 59);
    assert_eq!(clock.tick(), TickEvent::Quiet);
    assert_eq!((clock.hour, clock.minute, clock.second), (11, 0, 0));
    let mut midnight = at(23, 59, 59);
    midnight.tick();
    assert_eq!((midnight.hour, midnight.minute, midnight.second), (0, 0, 0));
    let mut minute = at(1, 2, 59);
    minute.tick();
    assert_eq!((minute.hour, minute.minute, minute.second), (1, 3, 0));
}

#[test]
fn hands_out_of_range_come_back() {
    let mut clock = at(99, 99, 99);
    assert!(clock.can_tick());
    clock.tick();
    assert_eq!((clock.hour, clock.minute, clock.second), (0, 0, 0));
}

#[test]
fn a_day_has_86400_seconds() {
    let mut clock = at(12, 34, 56);
    let start = clock;
    for _ in 0..86400 {
        assert!(clock.can_tick());
        clock.tick();
    }
    assert_eq!(clock, start);
}

#[test]
fn ticks_that_do_not_fit_are_known() {
    assert!(!at(0, 0, 255).can_tick());
    assert!(!at(0, 255, 59).can_tick());
    assert!(!at(255, 59, 59).can_tick());
    assert!(at(255, 255, 58).can_tick());
    assert!(at(255, 58, 59).can_tick());
    let mut ringing = at(0, 0, 0);
    ringing.is_ringing = true;
    ringing.ringing_seconds = u32::MAX;
    assert!(!ringing.can_tick());
}

#[test]
fn the_alarm_rings_at_its_time_and_not_before() {
    let mut clock = at(6, 58, 30);
    clock.alarm_enabled = true;
    for _ in 0..89 {
        assert_eq!(clock.tick(), TickEvent::Quiet);
        assert!(!clock.is_ringing);
    }
    assert_eq!(clock.tick(), TickEvent::Triggered);
    assert!(clock.is_ringing);
    assert_eq!(clock.ringing_seconds, 1);
    assert_eq!((clock.hour, clock.minute, clock.second), (7, 0, 0));
}

#[test]
fn an_alarm_that_is_off_does_not_ring() {
    let mut clock = at(6, 59, 59);
    assert_eq!(clock.tick(), TickEvent::Quiet);
    assert!(!clock.is_ringing);
}

#[test]
fn an_alarm_that_is_left_alone_ends_after_five_minutes() {
    let mut clock = at(6, 59, 59);
    clock.alarm_enabled = true;
    assert_eq!(clock.tick(), TickEvent::Triggered);
    for i in 2..300 {
        assert_eq!(clock.tick(), TickEvent::Quiet);
        assert!(clock.is_ringing);
        assert_eq!(clock.ringing_seconds, i);
    }
    assert_eq!(clock.tick(), TickEvent::AutoCancelled);
    assert!(!clock.is_ringing && !clock.alarm_enabled);
    assert_eq!(clock.ringing_seconds, 0);
    assert_eq!((clock.hour, clock.minute, clock.second), (7, 4, 59));
    for _ in 0..86400 {
        assert_eq!(clock.tick(), TickEvent::Quiet);
        assert!(!clock.is_ringing && !clock.alarm_enabled);
    }
    assert_eq!((clock.alarm_hour, clock.alarm_minute), (7, 0));
}

#[test]
fn a_snooze_moves_the_alarm_by_five_minutes() {
    let mut clock = at(7, 0, 10);
    clock.alarm_enabled = true;
    clock.is_ringing = true;
    clock.ringing_seconds = 11;
    assert!(clock.can_snooze());
    assert!(clock.snooze());
    assert!(!clock.is_ringing && clock.alarm_enabled);
    assert_eq!(clock.ringing_seconds, 0);
    assert_eq!((clock.alarm_hour, clock.alarm_minute), (7, 5));
    let once = clock;
    assert!(!clock.snooze());
    assert_eq!(clock, once);
}

#[test]
fn a_snooze_over_midnight() {
    let mut clock = at(23, 57, 0);
    clock.alarm_hour = 23;
    clock.alarm_minute = 57;
    clock.alarm_enabled = true;
    clock.is_ringing = true;
    clock.ringing_seconds = 1;
    assert!(clock.snooze());
    assert_eq!((clock.alarm_hour, clock.alarm_minute), (0, 2));
}

#[test]
fn a_snoozed_alarm_rings_again() {
    let mut clock = at(6, 59, 59);
    clock.alarm_enabled = true;
    clock.tick();
    clock.snooze();
    for _ in 0..299 {
        assert_eq!(clock.tick(), TickEvent::Quiet);
    }
    assert_eq!(clock.tick(), TickEvent::Triggered);
    assert_eq!((clock.hour, clock.minute, clock.second), (7, 5, 0));
}

#[test]
fn a_snooze_that_does_not_fit_is_known() {
    let mut clock = at(0, 0, 0);
    clock.alarm_hour = 255;
    clock.alarm_minute = 55;
    assert!(clock.can_snooze());
    clock.is_ringing = true;
    assert!(!clock.can_snooze());
    clock.alarm_minute = 54;
    assert!(clock.can_snooze());
}

#[test]
fn cancelling() {
    let mut clock = at(7, 0, 10);
    assert!(!clock.cancel());
    clock.alarm_enabled = true;
    assert!(clock.cancel());
    assert!(!clock.alarm_enabled);
    clock.alarm_enabled = true;
    clock.is_ringing = true;
    clock.ringing_seconds = 20;
    assert!(clock.cancel());
    assert!(!clock.alarm_enabled && !clock.is_ringing);
    assert_eq!(clock.ringing_seconds, 0);
}

#[test]
fn a_measured_temperature_changes_nothing_else() {
    let mut clock = at(6, 59, 59);
    clock.apply(NetworkCommand::SetAlarm { hour: 7, minute: 0 });
    assert_eq!(clock.tick(), TickEvent::Triggered);
    let before = clock;
    clock.set_temperature(-37);
    assert_eq!(clock.temp_tenths, -37);
    clock.temp_tenths = before.temp_tenths;
    assert_eq!(clock, before);
}

#[test]
fn commands_are_applied() {
    let mut clock = at(7, 0, 10);
    clock.apply(NetworkCommand::SetAlarm { hour: 6, minute: 45 });
    assert_eq!((clock.alarm_hour, clock.alarm_minute), (6, 45));
    assert!(clock.alarm_enabled && !clock.is_ringing);
    clock.apply(NetworkCommand::SyncTime { hour: 1, minute: 2, second: 3 });
    assert_eq!((clock.hour, clock.minute, clock.second), (1, 2, 3));
    clock.is_ringing = true;
    clock.ringing_seconds = 5;
    clock.apply(NetworkCommand::SnoozeAlarm);
    assert_eq!((clock.alarm_hour, clock.alarm_minute), (6, 50));
    assert!(clock.alarm_enabled && !clock.is_ringing);
    clock.apply(NetworkCommand::DisableAlarm);
    assert!(!clock.alarm_enabled);
}
