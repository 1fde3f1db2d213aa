use sunrise_alarm::clock::ClockState;
use sunrise_alarm::command::{
    can_receive, is_unknown, parse_command, process_command, receive_byte, NetworkCommand, COMMAND_CAPACITY,
};
use sunrise_alarm::line::LineBuffer;
use sunrise_alarm::telemetry::{parse_telemetry, telemetry_line, Telemetry, TELEMETRY_CAPACITY};

#[test]
fn commands_are_read() {
    assert_eq!(parse_command("SA:07:30"), Some(NetworkCommand::SetAlarm { hour: 7, minute: 30 }));
    assert_eq!(parse_command("  SA: 7 : 5 \t"), Some(NetworkCommand::SetAlarm { hour: 7, minute: 5 }));
    assert_eq!(parse_command("SA:300:61"), Some(NetworkCommand::SetAlarm { hour: 44, minute: 61 }));
    assert_eq!(parse_command("SN"), Some(NetworkCommand::SnoozeAlarm));
    assert_eq!(parse_command(" DA "), Some(NetworkCommand::DisableAlarm));
    assert_eq!(
        parse_command("ST:23:59:58"),
        Some(NetworkCommand::SyncTime { hour: 23, minute: 59, second: 58 })
    );
}

#[test]
fn other_lines_are_no_commands() {
    for line in [
        "", "   ", "SA", "SA:", "SA:7", "SA:7:", "SA::7", "SA:7:3x", "SA:7:30:00", "sn", "SNX", "SN:", "DA1",
        "ST:", "ST:1", "ST:1:2", "ST:1:2:", "ST:1:2:3:4", "XX",
    ] {
        assert_eq!(parse_command(line), None, "{}", line);
    }
}

#[test]
fn unknown_lines_are_told_from_broken_ones() {
    for line in ["SA", "sn", "SNX", "SN:", "DA1", "ST", "XX", "x SN"] {
        assert!(is_unknown(line), "{}", line);
        assert_eq!(parse_command(line), None);
    }
    for line in ["", " \t", "SN", " DA ", "SA:", "SA:7:3x", " ST:1", "ST:1:2:3"] {
        assert!(!is_unknown(line), "{}", line);
    }
}

#[test]
fn a_line_is_done() {
    let mut clock = ClockState::new();
    assert_eq!(
        process_command(&mut clock, "SA:06:15"),
        Some(NetworkCommand::SetAlarm { hour: 6, minute: 15 })
    );
    assert_eq!((clock.alarm_hour, clock.alarm_minute, clock.alarm_enabled), (6, 15, true));
    let before = clock;
    assert_eq!(process_command(&mut clock, "nonsense"), None);
    assert_eq!(clock, before);
    assert_eq!(process_command(&mut clock, "SN"), Some(NetworkCommand::SnoozeAlarm));
    assert_eq!(clock, before);
}

fn send(line: &mut LineBuffer<COMMAND_CAPACITY>, clock: &mut ClockState, bytes: &[u8]) -> Vec<NetworkCommand> {
    let mut commands = Vec::new();
    for &b in bytes {
        assert!(can_receive(line, clock, b));
        if let Some(command) = receive_byte(line, clock, b) {
            commands.push(command);
        }
    }
    commands
}

#[test]
fn lines_come_in_byte_by_byte() {
    let mut line = LineBuffer::new();
    let mut clock = ClockState::new();
    let commands = send(&mut line, &mut clock, b"SA:8:00\r\nST:1:2:3\n\nDA\nSA:9");
    assert_eq!(
        commands,
        vec![
            NetworkCommand::SetAlarm { hour: 8, minute: 0 },
            NetworkCommand::SyncTime { hour: 1, minute: 2, second: 3 },
            NetworkCommand::DisableAlarm,
        ]
    );
    assert_eq!(line.as_str(), "SA:9");
    assert_eq!((clock.hour, clock.minute, clock.second), (1, 2, 3));
    assert_eq!((clock.alarm_hour, clock.alarm_minute, clock.alarm_enabled), (8, 0, false));
    assert_eq!(
        send(&mut line, &mut clock, b":30\n"),
        vec![NetworkCommand::SetAlarm { hour: 9, minute: 30 }]
    );
}

#[test]
fn what_does_not_fit_a_line_is_left_out() {
    let mut line: LineBuffer<COMMAND_CAPACITY> = LineBuffer::new();
    for _ in 0..31 {
        assert!(!line.accept(b'x'));
    }
    // Two bytes of UTF-8 do not fit the one that is left, one does.
    assert!(!line.accept(0xe9));
    assert_eq!(line.as_str().len(), 31);
    assert!(!line.accept(b'y'));
    assert!(!line.accept(b'z'));
    assert_eq!(line.as_str(), "xxxxxxxxxxxxxxxxxxxxxxxxxxxxxxxy");
    assert!(line.accept(b'\n'));
    assert_eq!(line.as_str().len(), 32);
    line.clear();
    assert_eq!(line.as_str(), "");
    assert!(!line.accept(0xe9));
    assert_eq!(line.as_str(), "\u{e9}");
}

#[test]
fn a_long_line_is_cut_and_the_next_is_whole() {
    let mut line = LineBuffer::new();
    let mut clock = ClockState::new();
    // The capacity is 32: the fields end before the digits that are cut off.
    let long = b"SA:6:000000000000000000000000007000DA\nST:1:2:3\n";
    assert_eq!(
        send(&mut line, &mut clock, long),
        vec![
            NetworkCommand::SetAlarm { hour: 6, minute: 7 },
            NetworkCommand::SyncTime { hour: 1, minute: 2, second: 3 },
        ]
    );
    assert_eq!(line.as_str(), "");
    assert!(clock.alarm_enabled);
    // Carriage returns take no room.
    let returns = b"SA\r:8:\r000000000000000\r000000000009\r000\r\nDA\n";
    assert_eq!(
        send(&mut line, &mut clock, returns),
        vec![NetworkCommand::SetAlarm { hour: 8, minute: 9 }, NetworkCommand::DisableAlarm]
    );
}

#[test]
fn nothing_happens_before_a_line_ends() {
    let mut line = LineBuffer::new();
    let mut clock = ClockState::new();
    assert_eq!(send(&mut line, &mut clock, b"SA:8:15\rSN\xe9DA"), vec![]);
    assert_eq!(clock, ClockState::new());
}

#[test]
fn bytes_may_come_in_runs() {
    let bytes = b"SA:5:45\r\nST:9:8:7\nSA:1";
    let mut line = LineBuffer::new();
    let mut clock = ClockState::new();
    send(&mut line, &mut clock, bytes);
    for n in 0..=bytes.len() {
        let mut line_in_runs = LineBuffer::new();
        let mut clock_in_runs = ClockState::new();
        send(&mut line_in_runs, &mut clock_in_runs, &bytes[..n]);
        send(&mut line_in_runs, &mut clock_in_runs, &bytes[n..]);
        assert_eq!(clock_in_runs, clock);
        assert_eq!(line_in_runs.as_str(), line.as_str());
    }
}

#[test]
fn a_snooze_that_does_not_fit_is_seen_before_its_line_ends() {
    let mut line = LineBuffer::new();
    let mut clock = ClockState::new();
    clock.alarm_hour = 255;
    clock.alarm_minute = 59;
    clock.is_ringing = true;
    send(&mut line, &mut clock, b"SN");
    assert!(can_receive(&line, &clock, b'x'));
    assert!(!can_receive(&line, &clock, b'\n'));
    clock.alarm_hour = 254;
    assert!(can_receive(&line, &clock, b'\n'));
}

#[test]
fn a_report_in_full() {
    let mut clock = ClockState::new();
    assert_eq!(
        telemetry_line(&clock).as_str(),
        "T:225,AH:07,AM:00,AE:0,AR:0,CH:00,CM:00,CS:00\n"
    );
    clock.temp_tenths = -32768;
    clock.alarm_hour = 255;
    clock.alarm_minute = 100;
    clock.alarm_enabled = true;
    clock.is_ringing = true;
    clock.hour = 255;
    clock.minute = 99;
    clock.second = 200;
    assert_eq!(
        telemetry_line(&clock).as_str(),
        "T:-32768,AH:255,AM:100,AE:1,AR:1,CH:255,CM:99,CS:200\n"
    );
}

#[test]
fn telemetry_is_read() {
    let t = parse_telemetry("T:-5,AH:06,AM:30,AE:1,AR:0,CH:12,CM:34,CS:56");
    assert_eq!(t.temp_tenths, -5);
    assert_eq!((t.alarm_hour, t.alarm_minute), (6, 30));
    assert_eq!((t.alarm_enabled, t.alarm_ringing), (true, false));
    assert_eq!((t.cur_hour, t.cur_minute, t.cur_second), (12, 34, 56));
    assert!(t.fresh);
}

#[test]
fn telemetry_that_is_missing_or_broken_is_zero() {
    let t = parse_telemetry("AH:256,AM:x,AE:2,AR:true,CH:-1, CM:9,XX:1,CS: 8 ");
    assert_eq!(t.temp_tenths, 0);
    assert_eq!((t.alarm_hour, t.alarm_minute), (0, 0));
    assert_eq!((t.alarm_enabled, t.alarm_ringing), (false, false));
    assert_eq!((t.cur_hour, t.cur_minute, t.cur_second), (0, 0, 8));
    assert!(t.fresh);
    let nothing = parse_telemetry("");
    assert!(nothing.fresh);
    assert_eq!(nothing.temp_tenths, 0);
}

#[test]
fn the_last_word_on_a_field_counts() {
    let t = parse_telemetry("T:1,T:2,AE: 1 ,AH:+4");
    assert_eq!(t.temp_tenths, 2);
    assert!(t.alarm_enabled);
    assert_eq!(t.alarm_hour, 4);
}

#[test]
fn a_report_is_received_as_it_was_sent() {
    let mut clock = ClockState::new();
    clock.apply(NetworkCommand::SetAlarm { hour: 199, minute: 8 });
    clock.apply(NetworkCommand::SyncTime { hour: 23, minute: 9, second: 201 });
    clock.temp_tenths = -123;
    let mut line: LineBuffer<TELEMETRY_CAPACITY> = LineBuffer::new();
    let mut t = Telemetry::new();
    assert!(!t.fresh);
    assert!(!t.receive_byte(&mut line, b'\n'));
    assert!(!t.fresh);
    let report = telemetry_line(&clock);
    let bytes = report.as_str().as_bytes();
    for (i, &b) in bytes.iter().enumerate() {
        assert_eq!(t.receive_byte(&mut line, b), i + 1 == bytes.len());
    }
    assert_eq!(line.as_str(), "");
    assert!(t.fresh);
    assert_eq!(t.temp_tenths, -123);
    assert_eq!((t.alarm_hour, t.alarm_minute, t.alarm_enabled, t.alarm_ringing), (199, 8, true, false));
    assert_eq!((t.cur_hour, t.cur_minute, t.cur_second), (23, 9, 201));
}
