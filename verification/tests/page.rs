use sunrise_alarm::clock::ClockState;
use sunrise_alarm::command::{receive_byte, COMMAND_CAPACITY};
use sunrise_alarm::display::{alarm_status, alarm_text, temperature_text, time_text, AlarmStatus};
use sunrise_alarm::line::LineBuffer;
use sunrise_alarm::telemetry::{telemetry_line, Telemetry, TELEMETRY_CAPACITY};
use sunrise_alarm::web::{
    command_for, extract_param, handle_request, page, page_parts, status_html, ClockMessage, HTML_HEAD, HTML_TAIL,
};

#[test]
fn parameters_of_a_request() {
    let request = "GET /set_alarm?h=07&m=30 HTTP/1.1\r\nHost: 192.168.4.1\r\n\r\n";
    assert_eq!(extract_param(request, "h="), Some("07"));
    assert_eq!(extract_param(request, "m="), Some("30"));
    assert_eq!(extract_param(request, "s="), None);
    assert_eq!(extract_param("x=1\r\n", "x="), Some("1"));
    assert_eq!(extract_param("x=1\n2", "x="), Some("1"));
    assert_eq!(extract_param("x=", "x="), Some(""));
    assert_eq!(extract_param("x=\u{e9}\u{e8}", "x="), Some("\u{e9}\u{e8}"));
    assert_eq!(extract_param("a b", ""), Some("a"));
}

#[test]
fn requests_become_messages() {
    assert_eq!(command_for("GET /snooze HTTP/1.1").as_bytes(), b"SN\n");
    assert_eq!(command_for("GET /disable HTTP/1.1").as_bytes(), b"DA\n");
    assert_eq!(command_for("GET /set_alarm?h=07&m=30 HTTP/1.1").as_bytes(), b"SA:07:30\n");
    assert_eq!(command_for("GET /sync_time?h=1&m=2&s=3 HTTP/1.1").as_bytes(), b"ST:1:2:3\n");
    assert_eq!(command_for("GET / HTTP/1.1").as_bytes(), b"");
    assert_eq!(command_for("POST /snooze HTTP/1.1").as_bytes(), b"");
    assert_eq!(command_for("GET /set_alarm?h=07 HTTP/1.1").as_bytes(), b"");
    assert_eq!(command_for("GET /sync_time?h=1&m=2 HTTP/1.1").as_bytes(), b"");
    assert!(matches!(command_for("GET /favicon.ico"), ClockMessage::Nothing));
    assert!(matches!(command_for("GET /set_alarm?h=1&m=2"), ClockMessage::SetAlarm(_)));
    assert!(matches!(command_for("GET /sync_time?h=1&m=2&s=3"), ClockMessage::SyncTime(_)));
}

#[test]
fn messages_that_do_not_fit_are_cut_at_a_piece() {
    assert_eq!(command_for("GET /set_alarm?h=12345&m=123456 ").as_str(), "SA:12345:123456\n");
    assert_eq!(command_for("GET /set_alarm?h=12345&m=1234567 ").as_str(), "SA:12345:1234567");
    assert_eq!(command_for("GET /set_alarm?h=12345&m=12345678 ").as_str(), "SA:12345:");
    assert_eq!(command_for("GET /set_alarm?h=12345678901234&m=1 ").as_str(), "SA:");
    assert_eq!(command_for("GET /set_alarm?h=1234567890123&m=1 ").as_str(), "SA:1234567890123");
    assert_eq!(command_for("GET /set_alarm?h=\u{e9}\u{e9}\u{e9}\u{e9}\u{e9}\u{e9}&m=1 ").as_str(), "SA:\u{e9}\u{e9}\u{e9}\u{e9}\u{e9}\u{e9}:");
    assert_eq!(command_for("GET /sync_time?h=12345&m=12345&s=1234 ").as_str(), "ST:12345:12345:1234\n");
    assert_eq!(command_for("GET /sync_time?h=12345&m=12345&s=123456 ").as_str(), "ST:12345:12345:");
}

#[test]
fn bytes_of_a_request() {
    assert_eq!(handle_request(b"GET /snooze HTTP/1.1\r\n").as_str(), "SN\n");
    assert_eq!(handle_request(b"GET /snooze \xff").as_str(), "");
    assert_eq!(handle_request(b"").as_str(), "");
}

fn told(clock: &mut ClockState, request: &str) {
    let message = handle_request(request.as_bytes());
    let mut line: LineBuffer<COMMAND_CAPACITY> = LineBuffer::new();
    for &b in message.as_bytes() {
        receive_byte(&mut line, clock, b);
    }
    assert_eq!(line.as_str(), "");
}

#[test]
fn the_buttons_do_what_they_say() {
    let mut clock = ClockState::new();
    told(&mut clock, "GET /set_alarm?h=06&m=58 HTTP/1.1\r\n\r\n");
    assert_eq!((clock.alarm_hour, clock.alarm_minute, clock.alarm_enabled), (6, 58, true));
    told(&mut clock, "GET /sync_time?h=06&m=57&s=59 HTTP/1.1\r\n\r\n");
    assert_eq!((clock.hour, clock.minute, clock.second), (6, 57, 59));
    clock.tick();
    assert!(clock.is_ringing);
    told(&mut clock, "GET /snooze HTTP/1.1\r\n\r\n");
    assert!(!clock.is_ringing);
    assert_eq!((clock.alarm_hour, clock.alarm_minute), (7, 3));
    told(&mut clock, "GET /disable HTTP/1.1\r\n\r\n");
    assert!(!clock.alarm_enabled);
}

#[test]
fn other_requests_leave_the_clock_alone() {
    let mut clock = ClockState::new();
    told(&mut clock, "GET /set_alarm?h=06&m=58 HTTP/1.1\r\n\r\n");
    let before = clock;
    for request in ["GET / HTTP/1.1\r\n", "POST /disable", " GET /disable", "GET /Disable", ""] {
        told(&mut clock, request);
        assert_eq!(clock, before);
    }
}

#[test]
fn the_status_of_the_page() {
    let mut t = Telemetry::new();
    assert_eq!(
        status_html(&t).as_str(),
        "<p class='wait'>&#9201; Waiting for STM32 telemetry...</p>"
    );
    t.fresh = true;
    t.cur_hour = 7;
    t.cur_minute = 5;
    t.cur_second = 9;
    t.alarm_hour = 6;
    t.alarm_minute = 30;
    t.temp_tenths = -5;
    assert_eq!(
        status_html(&t).as_str(),
        "<p>&#128336; <b>Time:</b> 07:05:09</p><p>&#9200; <b>Alarm:</b> 06:30 &mdash; OFF</p>\
         <p>&#127777; <b>Temp:</b> 0.5&#176;C</p>"
    );
    t.alarm_enabled = true;
    t.alarm_ringing = true;
    t.temp_tenths = -32768;
    t.cur_hour = 255;
    assert_eq!(
        status_html(&t).as_str(),
        "<p>&#128336; <b>Time:</b> 255:05:09</p><p>&#9200; <b>Alarm:</b> 06:30 &mdash; ON &#9989;</p>\
         <p>&#127777; <b>Temp:</b> -3276.8&#176;C</p><p><b>&#128276; ALARM RINGING!</b></p>"
    );
}

#[test]
fn the_page_follows_the_clock() {
    let mut clock = ClockState::new();
    told(&mut clock, "GET /set_alarm?h=06&m=58 HTTP/1.1\r\n\r\n");
    told(&mut clock, "GET /sync_time?h=21&m=05&s=09 HTTP/1.1\r\n\r\n");
    let mut t = Telemetry::new();
    let mut line: LineBuffer<TELEMETRY_CAPACITY> = LineBuffer::new();
    for &b in telemetry_line(&clock).as_bytes() {
        t.receive_byte(&mut line, b);
    }
    assert_eq!(
        status_html(&t).as_str(),
        "<p>&#128336; <b>Time:</b> 21:05:09</p><p>&#9200; <b>Alarm:</b> 06:58 &mdash; ON &#9989;</p>\
         <p>&#127777; <b>Temp:</b> 22.5&#176;C</p>"
    );
}

#[test]
fn messages_are_short() {
    let long = "9".repeat(400);
    for path in ["set_alarm", "sync_time", "snooze", "disable"] {
        for value in ["", "7", long.as_str(), "\u{20ac}\u{20ac}\u{20ac}\u{20ac}\u{20ac}\u{20ac}"] {
            let request = format!("GET /{}?h={}&m={}&s={} HTTP/1.1", path, value, value, value);
            assert!(command_for(&request).as_bytes().len() <= 20);
        }
    }
}

#[test]
fn the_parts_of_the_page() {
    let mut t = Telemetry::new();
    assert_eq!(page_parts(&t, "status"), [HTML_HEAD, "'", ">", "status", HTML_TAIL]);
    t.alarm_ringing = true;
    assert_eq!(page_parts(&t, "status")[1], "ringing'");
    assert!(HTML_HEAD.starts_with("HTTP/1.1 200 OK\r\nContent-Type: text/html\r\nConnection: close\r\n\r\n<!DOCTYPE html>"));
    assert!(HTML_HEAD.ends_with("<h1>&#127749; Sunrise Alarm</h1><div class='status "));
    assert!(HTML_TAIL.starts_with("</div><hr><h3>Alarm Settings</h3>"));
    assert!(HTML_TAIL.ends_with("</script></body></html>"));
}

#[test]
fn the_page_shows_the_telemetry() {
    let mut status = status_html(&Telemetry::new());
    let mut t = Telemetry::new();
    t.fresh = true;
    t.alarm_ringing = true;
    t.alarm_enabled = true;
    t.alarm_hour = 7;
    t.cur_hour = 7;
    t.cur_second = 3;
    t.temp_tenths = 215;
    let shown = "<p>&#128336; <b>Time:</b> 07:00:03</p><p>&#9200; <b>Alarm:</b> 07:00 &mdash; ON &#9989;</p>\
                 <p>&#127777; <b>Temp:</b> 21.5&#176;C</p><p><b>&#128276; ALARM RINGING!</b></p>";
    assert_eq!(page(&t, &mut status), [HTML_HEAD, "ringing'", ">", shown, HTML_TAIL]);
    assert_eq!(status.as_str(), shown);
    let waiting = "<p class='wait'>&#9201; Waiting for STM32 telemetry...</p>";
    assert_eq!(page(&Telemetry::new(), &mut status), [HTML_HEAD, "'", ">", waiting, HTML_TAIL]);
}

#[test]
fn the_lines_of_the_display() {
    let mut clock = ClockState::new();
    assert_eq!(time_text(&clock).as_str(), "00:00:00");
    assert_eq!(alarm_text(&clock).as_str(), "07:00");
    assert_eq!(temperature_text(&clock).as_str(), "22.5 C  ");
    clock.hour = 255;
    clock.minute = 100;
    clock.second = 10;
    clock.alarm_hour = 100;
    clock.alarm_minute = 255;
    clock.temp_tenths = -3276;
    assert_eq!(time_text(&clock).as_str(), "255:100:10");
    assert_eq!(alarm_text(&clock).as_str(), "100:255");
    assert_eq!(temperature_text(&clock).as_str(), "-327.6 C  ");
    clock.temp_tenths = -7;
    assert_eq!(temperature_text(&clock).as_str(), "0.7 C  ");
}

#[test]
fn the_alarm_on_the_display() {
    let mut clock = ClockState::new();
    assert_eq!(alarm_status(&clock), AlarmStatus::Off);
    clock.alarm_enabled = true;
    assert_eq!(alarm_status(&clock), AlarmStatus::Armed);
    clock.is_ringing = true;
    assert_eq!(alarm_status(&clock), AlarmStatus::Ringing);
    assert_eq!(AlarmStatus::Ringing.label(), "RING!");
    assert_eq!(AlarmStatus::Armed.label(), "SET  ");
    assert_eq!(AlarmStatus::Off.label(), "OFF  ");
}
