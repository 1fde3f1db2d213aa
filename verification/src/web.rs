//! The web page of the network board: what a request asks of the clock, and the
//! page that it is answered with.

use crate::clock::ClockState;
use crate::command::{
    at_line_end, clock_after_line, law_set_alarm_line, law_sync_time_line, lemma_words,
    COMMAND_CAPACITY,
};
use crate::decimal::{all_digits, digits_value, is_digit};
use crate::display::{alarm_shown, append_alarm, append_degrees, append_time, degrees, time_shown};
use crate::line::{fed_all, law_line_arrives};
use crate::scan::{
    find, find_from, law_found, lemma_find_from, lemma_until, occurs_at, starts_with, until,
};
use crate::telemetry::{self, law_report_arrives, report, Telemetry, TELEMETRY_CAPACITY};
use crate::text::{
    append, byte_len, law_written, lemma_ascii_bytes, lemma_printable, lemma_printable_concat,
    lemma_written_whole, printable, text, views, write_pieces, written,
};
use vstd::prelude::*;
use vstd::seq_lib::lemma_flatten_concat;
use vstd::utf8::{
    decode_utf8, encode_utf8, encode_utf8_decode_utf8, encode_utf8_valid_utf8, is_ascii_chars,
    valid_utf8,
};

verus! {

/// The bytes that a message with an alarm time may take.
pub const SET_ALARM_CAPACITY: usize = 16;

/// The bytes that a message with a time may take.
pub const SYNC_TIME_CAPACITY: usize = 20;

/// The bytes that the status in the page may take.
pub const STATUS_CAPACITY: usize = 512;

/// The page up to the class of the status.
pub const HTML_HEAD: &'static str = "HTTP/1.1 200 OK\r\nContent-Type: text/html\r\nConnection: close\r\n\r\n\
<!DOCTYPE html><html><head>\
<meta charset='UTF-8'><meta name='viewport' content='width=device-width,initial-scale=1.0'>\
<meta http-equiv='refresh' content='5'><title>Sunrise Alarm</title>\
<style>\
body{font-family:sans-serif;text-align:center;margin-top:50px;background:#f4f4f9;color:#333}\
.card{background:white;padding:30px;border-radius:10px;display:inline-block;\
box-shadow:0 4px 8px rgba(0,0,0,.1);min-width:320px}\
.status{background:#e8f5e9;padding:15px;border-radius:8px;margin:15px 0;text-align:left}\
.status p{margin:6px 0;font-size:15px}\
.ringing{background:#ffebee;animation:pulse 1s infinite}\
@keyframes pulse{0%{opacity:1}50%{opacity:.5}100%{opacity:1}}\
.wait{color:#aaa;font-style:italic}\
button{padding:10px 20px;font-size:16px;margin:8px;border-radius:5px;\
border:none;cursor:pointer;color:white;transition:.2s}\
button:hover{opacity:.8}\
.gs{background:#4CAF50}.sn{background:#ff9800}.ds{background:#f44336}.sy{background:#2196F3}\
input[type=time]{font-size:20px;padding:5px;margin:10px;\
border:1px solid #ccc;border-radius:5px}\
hr{border:0;border-top:1px solid #eee;margin:20px 0}\
.note{font-size:11px;color:#bbb;margin-top:10px}\
.ap{background:#fff3cd;border:1px solid #ffc107;padding:8px;\
border-radius:6px;font-size:12px;margin-bottom:10px}\
</style></head><body><div class='card'>\
<div class='ap'>Wi-Fi AP: SunriseAlarm &bull; http://192.168.4.1</div>\
<h1>&#127749; Sunrise Alarm</h1><div class='status ";

/// The page after the status.
pub const HTML_TAIL: &'static str = "</div>\
<hr><h3>Alarm Settings</h3>\
<input type='time' id='t'><br>\
<button class='gs' onclick='setAlarm()'>Set Alarm</button>\
<button class='ds' onclick=\"fetch('/disable').then(()=>location.reload())\">Disable</button>\
<hr><h3>Actions</h3>\
<button class='sn' onclick=\"fetch('/snooze').then(()=>location.reload())\">Snooze 5min</button>\
<button class='sy' onclick='syncTime()'>Sync Time</button>\
<p class='note'>Auto-refreshes every 5s</p></div>\
<script>\
function pad(n){return n.toString().padStart(2,'0');}\
function setAlarm(){\
  let t=document.getElementById('t').value;\
  if(t){let p=t.split(':');fetch('/set_alarm?h='+p[0]+'&m='+p[1]).then(()=>{alert('Alarm set for '+t);location.reload();});}\
  else alert('Please select a time first!');}\
function syncTime(){\
  let d=new Date(),h=pad(d.getHours()),m=pad(d.getMinutes()),s=pad(d.getSeconds());\
  fetch('/sync_time?h='+h+'&m='+m+'&s='+s).then(()=>alert('Time synced to '+h+':'+m+':'+s));}\
</script></body></html>";

/// The characters that end the value of a parameter.
pub open spec fn param_stops() -> Set<char> {
    set!['&', ' ', '\r', '\n']
}

/// The value of a parameter: what follows the first occurrence of `key`, up to
/// the end of the value.
pub open spec fn param_in(req: Seq<char>, key: Seq<char>) -> Option<Seq<char>> {
    match find_from(req, key, 0) {
        Some(at) => {
            let after = req.skip(at as int + key.len());
            Some(after.take(until(after, param_stops()) as int))
        },
        None => None,
    }
}

/// The message that sets the alarm, as far as it fits.
pub open spec fn set_alarm_message(h: Seq<char>, m: Seq<char>) -> Seq<char> {
    written(SET_ALARM_CAPACITY as nat, Seq::empty(), seq!["SA:"@, h, ":"@, m, "\n"@])
}

/// The message that sets the hands, as far as it fits.
pub open spec fn sync_time_message(h: Seq<char>, m: Seq<char>, s: Seq<char>) -> Seq<char> {
    written(SYNC_TIME_CAPACITY as nat, Seq::empty(), seq!["ST:"@, h, ":"@, m, ":"@, s, "\n"@])
}

/// What a request has sent to the clock: nothing, where it asks for nothing but
/// the page, or where a parameter is missing.
pub open spec fn message_for(request: Seq<char>) -> Seq<char> {
    if "GET /snooze"@.is_prefix_of(request) {
        "SN\n"@
    } else if "GET /disable"@.is_prefix_of(request) {
        "DA\n"@
    } else if "GET /set_alarm"@.is_prefix_of(request) {
        match (param_in(request, "h="@), param_in(request, "m="@)) {
            (Some(h), Some(m)) => set_alarm_message(h, m),
            _ => Seq::empty(),
        }
    } else if "GET /sync_time"@.is_prefix_of(request) {
        match (
            param_in(request, "h="@),
            param_in(request, "m="@),
            param_in(request, "s="@),
        ) {
            (Some(h), Some(m), Some(s)) => sync_time_message(h, m, s),
            _ => Seq::empty(),
        }
    } else {
        Seq::empty()
    }
}

/// The text of a request: that of its bytes, or none where they are not UTF-8.
pub open spec fn request_text(bytes: Seq<u8>) -> Seq<char> {
    if valid_utf8(bytes) {
        decode_utf8(bytes)
    } else {
        Seq::empty()
    }
}

/// The class of the status, with the quote that ends it.
pub open spec fn ringing_class(ringing: bool) -> Seq<char> {
    if ringing {
        "ringing'"@
    } else {
        "'"@
    }
}

/// The status that the page shows: time, alarm, temperature, and whether the
/// alarm rings; or that none of it is known.
pub open spec fn status_text(t: Telemetry) -> Seq<char> {
    if t.fresh {
        "<p>&#128336; <b>Time:</b> "@ + time_shown(
            t.cur_hour as nat,
            t.cur_minute as nat,
            t.cur_second as nat,
        ) + "</p><p>&#9200; <b>Alarm:</b> "@ + alarm_shown(
            t.alarm_hour as nat,
            t.alarm_minute as nat,
        ) + " &mdash; "@ + (if t.alarm_enabled {
            "ON &#9989;"@
        } else {
            "OFF"@
        }) + "</p><p>&#127777; <b>Temp:</b> "@ + degrees(t.temp_tenths as int) + "&#176;C</p>"@ + (
        if t.alarm_ringing {
            "<p><b>&#128276; ALARM RINGING!</b></p>"@
        } else {
            ""@
        })
    } else {
        "<p class='wait'>&#9201; Waiting for STM32 telemetry...</p>"@
    }
}

/// The page with a status of some class, in the order in which its parts are sent.
pub open spec fn page_with(ringing: bool, status: Seq<char>) -> Seq<Seq<char>> {
    seq![HTML_HEAD@, ringing_class(ringing), ">"@, status, HTML_TAIL@]
}

/// The page that shows the telemetry.
pub open spec fn page_shown(t: Telemetry) -> Seq<Seq<char>> {
    page_with(t.alarm_ringing, status_text(t))
}

/// What a request has sent to the clock.
pub enum ClockMessage {
    Nothing,
    Snooze,
    Disable,
    SetAlarm(heapless::String<SET_ALARM_CAPACITY>),
    SyncTime(heapless::String<SYNC_TIME_CAPACITY>),
}

impl View for ClockMessage {
    type V = Seq<char>;

    open spec fn view(&self) -> Seq<char> {
        match *self {
            ClockMessage::Nothing => Seq::empty(),
            ClockMessage::Snooze => "SN\n"@,
            ClockMessage::Disable => "DA\n"@,
            ClockMessage::SetAlarm(message) => text(message),
            ClockMessage::SyncTime(message) => text(message),
        }
    }
}

impl ClockMessage {
    /// The characters of the message.
    pub fn as_str(&self) -> (message: &str)
        ensures
            message@ == self@,
    {
        match self {
            ClockMessage::Nothing => {
                proof {
                    reveal_strlit("");
                }
                assert(""@ =~= Seq::<char>::empty());
                ""
            },
            ClockMessage::Snooze => "SN\n",
            ClockMessage::Disable => "DA\n",
            ClockMessage::SetAlarm(message) => message.as_str(),
            ClockMessage::SyncTime(message) => message.as_str(),
        }
    }

    /// The bytes to send.
    pub fn as_bytes(&self) -> (bytes: &[u8])
        ensures
            bytes@ == encode_utf8(self@),
    {
        self.as_str().as_bytes()
    }
}

/// `core::str::from_utf8`: the string of the bytes where they are UTF-8, and
/// nothing else where they are not.
#[verifier::external_body]
fn text_of_bytes(bytes: &[u8]) -> (result: Option<&str>)
    ensures
        result is Some <==> valid_utf8(bytes@),
        result matches Some(s) ==> encode_utf8(s@) == bytes@,
{
    core::str::from_utf8(bytes).ok()
}

/// The value of a parameter of a request: what follows the first occurrence of
/// `key`, up to a space, an ampersand or a line end.
pub fn extract_param<'a>(req: &'a str, key: &str) -> (value: Option<&'a str>)
    ensures
        value is Some <==> param_in(req@, key@) is Some,
        value matches Some(v) ==> param_in(req@, key@) == Some(v@),
{
    let pos: usize = match find(req, key) {
        Some(pos) => pos,
        None => {
            return None;
        },
    };
    let len: usize = req.unicode_len();
    let after = req.substring_char(pos + key.unicode_len(), len);
    assert(after@ =~= req@.skip(pos + key@.len()));
    let after_len: usize = after.unicode_len();
    let mut end: usize = 0;
    while end < after_len
        invariant_except_break
            forall|i: int| 0 <= i < end ==> !param_stops().contains(#[trigger] after@[i]),
        invariant
            end <= after_len,
            after_len == after@.len(),
        ensures
            forall|i: int| 0 <= i < end ==> !param_stops().contains(#[trigger] after@[i]),
            end == after_len || param_stops().contains(after@[end as int]),
        decreases after_len - end,
    {
        let c: char = after.get_char(end);
        if c == '&' || c == ' ' || c == '\r' || c == '\n' {
            break;
        }
        end += 1;
    }
    proof {
        lemma_until(after@, param_stops(), end as int);
    }
    let value = after.substring_char(0, end);
    assert(value@ =~= after@.take(end as int));
    Some(value)
}

/// What a request has sent to the clock.
pub fn command_for(request: &str) -> (message: ClockMessage)
    ensures
        message@ == message_for(request@),
{
    if starts_with(request, "GET /snooze") {
        ClockMessage::Snooze
    } else if starts_with(request, "GET /disable") {
        ClockMessage::Disable
    } else if starts_with(request, "GET /set_alarm") {
        match (extract_param(request, "h="), extract_param(request, "m=")) {
            (Some(h), Some(m)) => {
                let mut msg: heapless::String<SET_ALARM_CAPACITY> = heapless::String::new();
                let pieces = ["SA:", h, ":", m, "\n"];
                write_pieces(&mut msg, &pieces);
                assert(views(pieces@) =~= seq!["SA:"@, h@, ":"@, m@, "\n"@]);
                ClockMessage::SetAlarm(msg)
            },
            _ => ClockMessage::Nothing,
        }
    } else if starts_with(request, "GET /sync_time") {
        match (
            extract_param(request, "h="),
            extract_param(request, "m="),
            extract_param(request, "s="),
        ) {
            (Some(h), Some(m), Some(s)) => {
                let mut msg: heapless::String<SYNC_TIME_CAPACITY> = heapless::String::new();
                let pieces = ["ST:", h, ":", m, ":", s, "\n"];
                write_pieces(&mut msg, &pieces);
                assert(views(pieces@) =~= seq!["ST:"@, h@, ":"@, m@, ":"@, s@, "\n"@]);
                ClockMessage::SyncTime(msg)
            },
            _ => ClockMessage::Nothing,
        }
    } else {
        ClockMessage::Nothing
    }
}

/// What the bytes of a request have sent to the clock.
pub fn handle_request(bytes: &[u8]) -> (message: ClockMessage)
    ensures
        message@ == message_for(request_text(bytes@)),
{
    match text_of_bytes(bytes) {
        Some(request) => {
            proof {
                encode_utf8_decode_utf8(request@);
            }
            command_for(request)
        },
        None => {
            proof {
                reveal_strlit("");
                assert(""@ =~= Seq::<char>::empty());
            }
            command_for("")
        },
    }
}

/// The status that the page shows. All of it fits.
pub fn status_html(t: &Telemetry) -> (status: heapless::String<STATUS_CAPACITY>)
    ensures
        text(status) == status_text(*t),
{
    let mut s: heapless::String<STATUS_CAPACITY> = heapless::String::new();
    proof {
        reveal_strlit("<p>&#128336; <b>Time:</b> ");
        reveal_strlit("</p><p>&#9200; <b>Alarm:</b> ");
        reveal_strlit(" &mdash; ");
        reveal_strlit("ON &#9989;");
        reveal_strlit("OFF");
        reveal_strlit("</p><p>&#127777; <b>Temp:</b> ");
        reveal_strlit("&#176;C</p>");
        reveal_strlit("<p><b>&#128276; ALARM RINGING!</b></p>");
        reveal_strlit("");
        reveal_strlit("<p class='wait'>&#9201; Waiting for STM32 telemetry...</p>");
    }
    if t.fresh {
        append(&mut s, "<p>&#128336; <b>Time:</b> ");
        assert(text(s) =~= "<p>&#128336; <b>Time:</b> "@);
        append_time(&mut s, t.cur_hour, t.cur_minute, t.cur_second);
        append(&mut s, "</p><p>&#9200; <b>Alarm:</b> ");
        append_alarm(&mut s, t.alarm_hour, t.alarm_minute);
        append(&mut s, " &mdash; ");
        append(
            &mut s,
            if t.alarm_enabled {
                "ON &#9989;"
            } else {
                "OFF"
            },
        );
        append(&mut s, "</p><p>&#127777; <b>Temp:</b> ");
        append_degrees(&mut s, t.temp_tenths);
        append(&mut s, "&#176;C</p>");
        append(
            &mut s,
            if t.alarm_ringing {
                "<p><b>&#128276; ALARM RINGING!</b></p>"
            } else {
                ""
            },
        );
    } else {
        append(&mut s, "<p class='wait'>&#9201; Waiting for STM32 telemetry...</p>");
        assert(text(s) =~= "<p class='wait'>&#9201; Waiting for STM32 telemetry...</p>"@);
    }
    s
}

/// The page with a status text, in the order in which its parts are sent.
pub fn page_parts<'a>(t: &Telemetry, status: &'a str) -> (parts: [&'a str; 5])
    ensures
        views(parts@) == page_with(t.alarm_ringing, status@),
{
    let class: &'static str = if t.alarm_ringing {
        "ringing'"
    } else {
        "'"
    };
    let parts = [HTML_HEAD, class, ">", status, HTML_TAIL];
    assert(views(parts@) =~= page_with(t.alarm_ringing, status@));
    parts
}

/// The page that shows the telemetry, in the order in which its parts are sent.
/// Its status is written to `status`, whatever was there.
pub fn page<'a>(t: &Telemetry, status: &'a mut heapless::String<STATUS_CAPACITY>) -> (parts:
    [&'a str; 5])
    ensures
        views(parts@) == page_shown(*t),
        text(*final(status)) == status_text(*t),
{
    *status = status_html(t);
    page_parts(t, status.as_str())
}

/// What the clock board makes of a message that the network board sends it.
pub open spec fn clock_told(clock: ClockState, message: Seq<char>) -> (Seq<char>, ClockState) {
    fed_all(
        Seq::empty(),
        clock,
        encode_utf8(message),
        COMMAND_CAPACITY as nat,
        at_line_end(),
    )
}

/// A parameter that no earlier key hides has the digits behind it as its value.
proof fn lemma_param(req: Seq<char>, name: char, at: int, value: Seq<char>)
    requires
        0 <= at,
        at + 2 + value.len() < req.len(),
        req[at] == name,
        req[at + 1] == '=',
        forall|i: int| 0 <= i < at ==> req[i] != name || #[trigger] req[i + 1] != '=',
        req.subrange(at + 2, at + 2 + value.len()) == value,
        all_digits(value),
        req[at + 2 + value.len()] == '&' || req[at + 2 + value.len()] == ' ',
    ensures
        param_in(req, seq![name, '=']) == Some(value),
{
    let key = seq![name, '='];
    assert(req.subrange(at, at + 2) =~= key);
    assert forall|i: int| 0 <= i < at implies !#[trigger] occurs_at(req, key, i) by {
        if occurs_at(req, key, i) {
            assert(req.subrange(i, i + 2)[0] == req[i]);
            assert(req.subrange(i, i + 2)[1] == req[i + 1]);
        }
    }
    lemma_find_from(req, key, 0, at as nat);
    let after = req.skip(at + 2);
    assert forall|i: int| 0 <= i < value.len() implies !param_stops().contains(
        #[trigger] after[i],
    ) by {
        assert(after[i] == req.subrange(at + 2, at + 2 + value.len())[i]);
        assert(is_digit(value[i]));
    }
    assert(after[value.len() as int] == req[at + 2 + value.len()]);
    lemma_until(after, param_stops(), value.len() as int);
    assert(after.take(value.len() as int) =~= value);
}

/// A line that is printable reaches the clock, which does what it says.
proof fn lemma_message_done(clock: ClockState, line: Seq<char>)
    requires
        printable(line),
        line.len() <= COMMAND_CAPACITY,
    ensures
        clock_told(clock, line.push('\n')) == (Seq::<char>::empty(), clock_after_line(clock, line)),
{
    lemma_printable(line);
    law_line_arrives(clock, line, COMMAND_CAPACITY as nat, at_line_end());
}

/// Digits are printable.
proof fn lemma_digits_printable(s: Seq<char>)
    requires
        all_digits(s),
    ensures
        printable(s),
{
    assert forall|i: int| 0 <= i < s.len() implies ' ' <= #[trigger] s[i] <= '~' by {
        assert(is_digit(s[i]));
    }
}

/// What is written to a string fits it.
proof fn lemma_written_fits(capacity: nat, before: Seq<char>, pieces: Seq<Seq<char>>)
    requires
        byte_len(before) <= capacity,
    ensures
        byte_len(written(capacity, before, pieces)) <= capacity,
    decreases pieces.len(),
{
    if pieces.len() > 0 && byte_len(before + pieces[0]) <= capacity {
        lemma_written_fits(capacity, before + pieces[0], pieces.drop_first());
    }
}

/// Text that fits in UTF-8 has beginnings that fit.
proof fn lemma_beginning_fits(a: Seq<char>, b: Seq<char>)
    ensures
        byte_len(a) <= byte_len(a + b),
    decreases a.len(),
{
    if a.len() > 0 {
        assert((a + b).drop_first() =~= a.drop_first() + b);
        lemma_beginning_fits(a.drop_first(), b);
    }
}

/// Pieces that fit together are all written.
proof fn lemma_written_fitting(capacity: nat, pieces: Seq<Seq<char>>)
    requires
        byte_len(pieces.flatten()) <= capacity,
    ensures
        written(capacity, Seq::empty(), pieces) == pieces.flatten(),
{
    let none = Seq::<char>::empty();
    assert forall|i: int| 0 < i <= pieces.len() implies byte_len(
        none + #[trigger] pieces.take(i).flatten(),
    ) <= capacity by {
        assert(pieces =~= pieces.take(i) + pieces.skip(i));
        lemma_flatten_concat(pieces.take(i), pieces.skip(i));
        lemma_beginning_fits(pieces.take(i).flatten(), pieces.skip(i).flatten());
        assert(none + pieces.take(i).flatten() =~= pieces.take(i).flatten());
    }
    law_written(capacity, none, pieces, pieces.len());
    assert(pieces.take(pieces.len() as int) =~= pieces);
    assert(none + pieces.flatten() =~= pieces.flatten());
}

/// No request has more sent to the clock than the longest message may take.
pub proof fn law_messages_are_short(request: Seq<char>)
    ensures
        byte_len(message_for(request)) <= SYNC_TIME_CAPACITY,
        byte_len(message_for(request)) <= 20,
{
    reveal_strlit("SN\n");
    reveal_strlit("DA\n");
    lemma_ascii_bytes("SN\n"@);
    lemma_ascii_bytes("DA\n"@);
    lemma_ascii_bytes(Seq::empty());
    match (param_in(request, "h="@), param_in(request, "m="@), param_in(request, "s="@)) {
        (Some(h), Some(m), Some(s)) => {
            lemma_written_fits(
                SYNC_TIME_CAPACITY as nat,
                Seq::empty(),
                seq!["ST:"@, h, ":"@, m, ":"@, s, "\n"@],
            );
        },
        _ => {},
    }
    match (param_in(request, "h="@), param_in(request, "m="@)) {
        (Some(h), Some(m)) => {
            lemma_written_fits(
                SET_ALARM_CAPACITY as nat,
                Seq::empty(),
                seq!["SA:"@, h, ":"@, m, "\n"@],
            );
        },
        _ => {},
    }
}

/// A request that is not UTF-8, or that starts as none of the buttons' requests
/// does, has nothing sent to the clock, which stays as it is.
pub proof fn law_other_requests_ignored(clock: ClockState, bytes: Seq<u8>)
    requires
        valid_utf8(bytes) ==> {
            let request = decode_utf8(bytes);
            &&& !"GET /snooze"@.is_prefix_of(request)
            &&& !"GET /disable"@.is_prefix_of(request)
            &&& !"GET /set_alarm"@.is_prefix_of(request)
            &&& !"GET /sync_time"@.is_prefix_of(request)
        },
    ensures
        message_for(request_text(bytes)) == Seq::<char>::empty(),
        clock_told(clock, message_for(request_text(bytes))) == (Seq::<char>::empty(), clock),
{
    reveal_strlit("GET /snooze");
    reveal_strlit("GET /disable");
    reveal_strlit("GET /set_alarm");
    reveal_strlit("GET /sync_time");
    lemma_ascii_bytes(Seq::empty());
}

/// Once a report on a clock has arrived, the page shows that clock, whatever it
/// showed before.
pub proof fn law_page_follows_clock(clock: ClockState, before: Telemetry)
    ensures
        page_shown(
            fed_all(
                Seq::empty(),
                before,
                encode_utf8(report(clock).push('\n')),
                TELEMETRY_CAPACITY as nat,
                telemetry::at_line_end(),
            ).1,
        ) == page_with(
            clock.is_ringing,
            "<p>&#128336; <b>Time:</b> "@ + time_shown(
                clock.hour as nat,
                clock.minute as nat,
                clock.second as nat,
            ) + "</p><p>&#9200; <b>Alarm:</b> "@ + alarm_shown(
                clock.alarm_hour as nat,
                clock.alarm_minute as nat,
            ) + " &mdash; "@ + (if clock.alarm_enabled {
                "ON &#9989;"@
            } else {
                "OFF"@
            }) + "</p><p>&#127777; <b>Temp:</b> "@ + degrees(clock.temp_tenths as int)
                + "&#176;C</p>"@ + (if clock.is_ringing {
                "<p><b>&#128276; ALARM RINGING!</b></p>"@
            } else {
                ""@
            }),
        ),
{
    law_report_arrives(clock, before);
}

/// The button that snoozes does so, whatever else its request holds.
pub proof fn law_snooze_button(clock: ClockState, rest: Seq<char>)
    requires
        clock.snooze_fits(),
    ensures
        clock_told(clock, message_for("GET /snooze"@ + rest)) == (
            Seq::<char>::empty(),
            clock.snoozed(),
        ),
        message_for("GET /snooze"@ + rest) == "SN\n"@,
        ({
            let after = clock_told(clock, message_for("GET /snooze"@ + rest)).1;
            &&& !after.is_ringing
            &&& !clock.is_ringing ==> after == clock
            &&& clock.is_ringing ==> after.alarm_minute == (clock.alarm_minute + 5) % 60
            &&& after.alarm_enabled == clock.alarm_enabled
            &&& after.hour == clock.hour && after.minute == clock.minute && after.second
                == clock.second
        }),
{
    let request = "GET /snooze"@ + rest;
    reveal_strlit("GET /snooze");
    reveal_strlit("SN\n");
    reveal_strlit("SN");
    assert("GET /snooze"@ =~= request.subrange(0, "GET /snooze"@.len() as int));
    assert("SN\n"@ =~= "SN"@.push('\n'));
    lemma_words();
    lemma_message_done(clock, "SN"@);
}

/// The button that disables the alarm does so, whatever else its request holds.
pub proof fn law_disable_button(clock: ClockState, rest: Seq<char>)
    ensures
        clock_told(clock, message_for("GET /disable"@ + rest)) == (
            Seq::<char>::empty(),
            clock.disabled(),
        ),
        message_for("GET /disable"@ + rest) == "DA\n"@,
        ({
            let after = clock_told(clock, message_for("GET /disable"@ + rest)).1;
            &&& !after.alarm_enabled && !after.is_ringing && after.ringing_seconds == 0
            &&& after.alarm_hour == clock.alarm_hour && after.alarm_minute == clock.alarm_minute
            &&& after.hour == clock.hour && after.minute == clock.minute && after.second
                == clock.second
            &&& after.temp_tenths == clock.temp_tenths
        }),
{
    let request = "GET /disable"@ + rest;
    reveal_strlit("GET /snooze");
    reveal_strlit("GET /disable");
    reveal_strlit("DA\n");
    reveal_strlit("DA");
    assert("GET /disable"@ =~= request.subrange(0, "GET /disable"@.len() as int));
    assert(request.subrange(0, "GET /snooze"@.len() as int)[5] == 'd');
    assert("DA\n"@ =~= "DA"@.push('\n'));
    lemma_words();
    lemma_message_done(clock, "DA"@);
}

/// The button that sets the alarm does so, where its message fits: the clock's
/// alarm is then at that hour and minute, on, and silent.
pub proof fn law_set_alarm_button(clock: ClockState, h: Seq<char>, m: Seq<char>, rest: Seq<char>)
    requires
        all_digits(h),
        all_digits(m),
        h.len() + m.len() + 5 <= SET_ALARM_CAPACITY,
    ensures
        clock_told(
            clock,
            message_for("GET /set_alarm?h="@ + h + "&m="@ + m + " "@ + rest),
        ) == (
            Seq::<char>::empty(),
            clock.with_alarm((digits_value(h) % 256) as u8, (digits_value(m) % 256) as u8),
        ),
        ({
            let after = clock_told(
                clock,
                message_for("GET /set_alarm?h="@ + h + "&m="@ + m + " "@ + rest),
            ).1;
            &&& after.alarm_hour == digits_value(h) % 256
            &&& after.alarm_minute == digits_value(m) % 256
            &&& after.alarm_enabled && !after.is_ringing && after.ringing_seconds == 0
            &&& after.hour == clock.hour && after.minute == clock.minute && after.second
                == clock.second
            &&& after.temp_tenths == clock.temp_tenths
        }),
{
    let head = "GET /set_alarm?h="@;
    let request = head + h + "&m="@ + m + " "@ + rest;
    let line = "SA:"@ + h + ":"@ + m;
    lemma_set_alarm_request(h, m, rest);
    lemma_set_alarm_message(h, m);
    law_set_alarm_line(h, m);
    lemma_message_done(clock, line);
}

/// A message that sets the alarm, where it fits.
proof fn lemma_set_alarm_message(h: Seq<char>, m: Seq<char>)
    requires
        all_digits(h),
        all_digits(m),
        h.len() + m.len() + 5 <= SET_ALARM_CAPACITY,
    ensures
        set_alarm_message(h, m) == ("SA:"@ + h + ":"@ + m).push('\n'),
        printable("SA:"@ + h + ":"@ + m),
        ("SA:"@ + h + ":"@ + m).len() == h.len() + m.len() + 4,
{
    reveal_strlit("SA:");
    reveal_strlit(":");
    reveal_strlit("\n");
    let line = "SA:"@ + h + ":"@ + m;
    lemma_digits_printable(h);
    lemma_digits_printable(m);
    lemma_printable_concat("SA:"@, h);
    lemma_printable_concat("SA:"@ + h, ":"@);
    lemma_printable_concat("SA:"@ + h + ":"@, m);
    lemma_printable(line);
    let pieces = seq!["SA:"@, h, ":"@, m, "\n"@];
    assert(pieces.flatten() =~= line.push('\n')) by {
        lemma_flatten_five("SA:"@, h, ":"@, m, "\n"@);
    }
    assert(Seq::<char>::empty() + pieces.flatten() =~= line.push('\n'));
    assert(is_ascii_chars(line.push('\n')));
    lemma_written_whole(SET_ALARM_CAPACITY as nat, Seq::empty(), pieces);
}

/// Five pieces in a row.
proof fn lemma_flatten_five(
    a: Seq<char>,
    b: Seq<char>,
    c: Seq<char>,
    d: Seq<char>,
    e: Seq<char>,
)
    ensures
        seq![a, b, c, d, e].flatten() == a + b + c + d + e,
{
    let all = seq![a, b, c, d, e];
    reveal_with_fuel(Seq::flatten, 6);
    assert(all.drop_first() =~= seq![b, c, d, e]);
    assert(all.drop_first().drop_first() =~= seq![c, d, e]);
    assert(all.drop_first().drop_first().drop_first() =~= seq![d, e]);
    assert(all.drop_first().drop_first().drop_first().drop_first() =~= seq![e]);
    assert(seq![e].drop_first() =~= Seq::<Seq<char>>::empty());
    assert(all.flatten() =~= a + b + c + d + e);
}

/// What a request to set the alarm has sent.
proof fn lemma_set_alarm_request(h: Seq<char>, m: Seq<char>, rest: Seq<char>)
    requires
        all_digits(h),
        all_digits(m),
    ensures
        message_for("GET /set_alarm?h="@ + h + "&m="@ + m + " "@ + rest) == set_alarm_message(h, m),
{
    reveal_strlit("GET /snooze");
    reveal_strlit("GET /disable");
    reveal_strlit("GET /set_alarm");
    reveal_strlit("GET /set_alarm?h=");
    reveal_strlit("&m=");
    reveal_strlit(" ");
    reveal_strlit("h=");
    reveal_strlit("m=");
    let head = "GET /set_alarm?h="@;
    let request = head + h + "&m="@ + m + " "@ + rest;
    let second = head.len() as int + h.len() + 1;
    assert forall|i: int| 0 <= i < head.len() implies #[trigger] request[i] == head[i] by {}
    assert forall|i: int| 0 <= i < h.len() implies #[trigger] request[head.len() as int + i] == h[i] by {}
    assert forall|i: int| 0 < i <= second && #[trigger] request[i] == '=' implies i == 16 by {
        if head.len() <= i < head.len() + h.len() {
            assert(request[head.len() as int + (i - head.len())] == h[i - head.len()]);
            assert(is_digit(h[i - head.len()]));
        }
    }
    assert(request[second] == 'm' && request[second + 1] == '=');
    assert(request.subrange(17, 17int + h.len()) =~= h);
    assert(request.subrange(second + 2, second + 2 + m.len()) =~= m);
    lemma_param(request, 'h', 15, h);
    lemma_param(request, 'm', second, m);
    assert("h="@ =~= seq!['h', '=']);
    assert("m="@ =~= seq!['m', '=']);
    assert(request.subrange(0, "GET /snooze"@.len() as int)[6] == 'e');
    assert(request.subrange(0, "GET /disable"@.len() as int)[5] == 's');
    assert("GET /set_alarm"@ =~= request.subrange(0, "GET /set_alarm"@.len() as int));
}

/// The button that sets the hands does so, where its message fits.
pub proof fn law_sync_time_button(
    clock: ClockState,
    h: Seq<char>,
    m: Seq<char>,
    s: Seq<char>,
    rest: Seq<char>,
)
    requires
        all_digits(h),
        all_digits(m),
        all_digits(s),
        h.len() + m.len() + s.len() + 6 <= SYNC_TIME_CAPACITY,
    ensures
        clock_told(
            clock,
            message_for("GET /sync_time?h="@ + h + "&m="@ + m + "&s="@ + s + " "@ + rest),
        ) == (
            Seq::<char>::empty(),
            clock.with_time(
                (digits_value(h) % 256) as u8,
                (digits_value(m) % 256) as u8,
                (digits_value(s) % 256) as u8,
            ),
        ),
        ({
            let after = clock_told(
                clock,
                message_for("GET /sync_time?h="@ + h + "&m="@ + m + "&s="@ + s + " "@ + rest),
            ).1;
            &&& after.hour == digits_value(h) % 256
            &&& after.minute == digits_value(m) % 256
            &&& after.second == digits_value(s) % 256
            &&& after.alarm_hour == clock.alarm_hour && after.alarm_minute == clock.alarm_minute
            &&& after.alarm_enabled == clock.alarm_enabled && after.is_ringing == clock.is_ringing
            &&& after.ringing_seconds == clock.ringing_seconds
            &&& after.temp_tenths == clock.temp_tenths
        }),
{
    let line = "ST:"@ + h + ":"@ + m + ":"@ + s;
    lemma_sync_time_request(h, m, s, rest);
    lemma_sync_time_message(h, m, s);
    lemma_sync_time_printable(h, m, s);
    law_sync_time_line(h, m, s);
    lemma_message_done(clock, line);
}

/// Seven pieces in a row.
proof fn lemma_flatten_seven(
    a: Seq<char>,
    b: Seq<char>,
    c: Seq<char>,
    d: Seq<char>,
    e: Seq<char>,
    f: Seq<char>,
    g: Seq<char>,
)
    ensures
        seq![a, b, c, d, e, f, g].flatten() == a + b + c + d + e + f + g,
{
    let all = seq![a, b, c, d, e, f, g];
    let last = seq![c, d, e, f, g];
    lemma_flatten_five(c, d, e, f, g);
    assert(all.drop_first().drop_first() =~= last);
    assert(all.flatten() == a + all.drop_first().flatten());
    assert(all.drop_first().flatten() == b + last.flatten());
    assert(all.flatten() =~= a + b + c + d + e + f + g);
}

/// A line that sets the hands is printable.
proof fn lemma_sync_time_printable(h: Seq<char>, m: Seq<char>, s: Seq<char>)
    requires
        all_digits(h),
        all_digits(m),
        all_digits(s),
    ensures
        printable("ST:"@ + h + ":"@ + m + ":"@ + s),
        ("ST:"@ + h + ":"@ + m + ":"@ + s).len() == h.len() + m.len() + s.len() + 5,
{
    reveal_strlit("ST:");
    reveal_strlit(":");
    lemma_digits_printable(h);
    lemma_digits_printable(m);
    lemma_digits_printable(s);
    lemma_printable_concat("ST:"@, h);
    lemma_printable_concat("ST:"@ + h, ":"@);
    lemma_printable_concat("ST:"@ + h + ":"@, m);
    lemma_printable_concat("ST:"@ + h + ":"@ + m, ":"@);
    lemma_printable_concat("ST:"@ + h + ":"@ + m + ":"@, s);
}

/// A message that sets the hands, where it fits.
proof fn lemma_sync_time_message(h: Seq<char>, m: Seq<char>, s: Seq<char>)
    requires
        all_digits(h),
        all_digits(m),
        all_digits(s),
        h.len() + m.len() + s.len() + 6 <= SYNC_TIME_CAPACITY,
    ensures
        sync_time_message(h, m, s) == ("ST:"@ + h + ":"@ + m + ":"@ + s).push('\n'),
{
    reveal_strlit("\n");
    let line = "ST:"@ + h + ":"@ + m + ":"@ + s;
    let pieces = seq!["ST:"@, h, ":"@, m, ":"@, s, "\n"@];
    lemma_sync_time_printable(h, m, s);
    lemma_printable(line);
    lemma_flatten_seven("ST:"@, h, ":"@, m, ":"@, s, "\n"@);
    assert(line + "\n"@ =~= line.push('\n'));
    assert(Seq::<char>::empty() + pieces.flatten() =~= line.push('\n'));
    assert(is_ascii_chars(line.push('\n')));
    lemma_written_whole(SYNC_TIME_CAPACITY as nat, Seq::empty(), pieces);
}

/// What a request to set the hands has sent.
proof fn lemma_sync_time_request(h: Seq<char>, m: Seq<char>, s: Seq<char>, rest: Seq<char>)
    requires
        all_digits(h),
        all_digits(m),
        all_digits(s),
    ensures
        message_for("GET /sync_time?h="@ + h + "&m="@ + m + "&s="@ + s + " "@ + rest)
            == sync_time_message(h, m, s),
{
    reveal_strlit("GET /snooze");
    reveal_strlit("GET /disable");
    reveal_strlit("GET /set_alarm");
    reveal_strlit("GET /sync_time");
    reveal_strlit("GET /sync_time?h=");
    reveal_strlit("&m=");
    reveal_strlit("&s=");
    reveal_strlit(" ");
    reveal_strlit("h=");
    reveal_strlit("m=");
    reveal_strlit("s=");
    let head = "GET /sync_time?h="@;
    let request = head + h + "&m="@ + m + "&s="@ + s + " "@ + rest;
    let second = head.len() as int + h.len() + 1;
    let third = second + 2 + m.len() + 1;
    assert forall|i: int| 0 <= i < head.len() implies #[trigger] request[i] == head[i] by {}
    assert forall|i: int| 0 <= i < h.len() implies #[trigger] request[17 + i] == h[i] by {}
    assert forall|i: int| 0 <= i < m.len() implies #[trigger] request[second + 2 + i] == m[i] by {}
    assert(request[second] == 'm' && request[second + 1] == '=');
    assert(request[third] == 's' && request[third + 1] == '=');
    assert forall|i: int| 0 < i <= third && #[trigger] request[i] == '=' implies i == 16 || i
        == second + 1 by {
        if 17 <= i < 17 + h.len() {
            assert(request[17 + (i - 17)] == h[i - 17]);
            assert(is_digit(h[i - 17]));
        }
        if second + 2 <= i < second + 2 + m.len() {
            assert(request[second + 2 + (i - second - 2)] == m[i - second - 2]);
            assert(is_digit(m[i - second - 2]));
        }
    }
    assert(request.subrange(17, 17int + h.len()) =~= h);
    assert(request.subrange(second + 2, second + 2 + m.len()) =~= m);
    assert(request.subrange(third + 2, third + 2 + s.len()) =~= s);
    lemma_param(request, 'h', 15, h);
    lemma_param(request, 'm', second, m);
    lemma_param(request, 's', third, s);
    assert("h="@ =~= seq!['h', '=']);
    assert("m="@ =~= seq!['m', '=']);
    assert("s="@ =~= seq!['s', '=']);
    assert(request.subrange(0, "GET /snooze"@.len() as int)[6] == 'y');
    assert(request.subrange(0, "GET /disable"@.len() as int)[5] == 's');
    assert(request.subrange(0, "GET /set_alarm"@.len() as int)[6] == 'y');
    assert("GET /sync_time"@ =~= request.subrange(0, "GET /sync_time"@.len() as int));
}

/// The value of a parameter is what stands between the first occurrence of its key and the
/// next ampersand, space, carriage return or line feed, or the end of the request.
pub proof fn law_param(before: Seq<char>, key: Seq<char>, value: Seq<char>, rest: Seq<char>)
    requires
        ({
            let request = before + key + value + rest;
            forall|i: int|
                0 <= i < before.len() ==> #[trigger] request.subrange(i, i + key.len()) != key
        }),
        !value.contains('&') && !value.contains(' '),
        !value.contains('\r') && !value.contains('\n'),
        rest.len() == 0 || rest[0] == '&' || rest[0] == ' ' || rest[0] == '\r' || rest[0] == '\n',
    ensures
        param_in(before + key + value + rest, key) == Some(value),
{
    let request = before + key + value + rest;
    let at = before.len();
    assert(request.subrange(at as int, at as int + key.len()) =~= key);
    lemma_find_from(request, key, 0, at);
    let after = request.skip(at as int + key.len());
    assert(after =~= value + rest);
    assert forall|i: int| 0 <= i < value.len() implies !param_stops().contains(
        #[trigger] after[i],
    ) by {
        assert(after[i] == value[i]);
        assert(value.contains(value[i]));
    }
    if rest.len() > 0 {
        assert(after[value.len() as int] == rest[0]);
    }
    lemma_until(after, param_stops(), value.len() as int);
    assert(after.take(value.len() as int) =~= value);
}

/// A parameter has no value if and only if its key stands nowhere in the request.
pub proof fn law_param_missing(request: Seq<char>, key: Seq<char>)
    ensures
        param_in(request, key) is None <==> forall|i: int|
            0 <= i <= request.len() - key.len() ==> #[trigger] request.subrange(i, i + key.len())
                != key,
{
    law_found(request, key);
    if let Some(at) = find_from(request, key, 0) {
        assert(request.subrange(at as int, at as int + key.len()) =~= key);
    }
}

/// A request to set the alarm has an hour and a minute sent, in this order, and nothing where
/// one of them is missing.
pub proof fn law_set_alarm_sent(request: Seq<char>)
    requires
        request.len() >= 14 && request.take(14) == "GET /set_alarm"@,
    ensures
        match (param_in(request, "h="@), param_in(request, "m="@)) {
            (Some(h), Some(m)) => byte_len("SA:"@ + h + ":"@ + m + "\n"@) <= 16 ==> message_for(
                request,
            ) == "SA:"@ + h + ":"@ + m + "\n"@,
            _ => message_for(request).len() == 0,
        },
        param_in(request, "h="@) is Some && param_in(request, "m="@) is Some ==> message_for(
            request,
        ) == written(
            16,
            Seq::empty(),
            seq!["SA:"@, param_in(request, "h="@)->0, ":"@, param_in(request, "m="@)->0, "\n"@],
        ),
{
    reveal_strlit("GET /snooze");
    reveal_strlit("GET /disable");
    reveal_strlit("GET /set_alarm");
    assert(request.take(14)[5] == 's' && request.take(14)[6] == 'e');
    if request.len() >= 11 {
        assert(request.subrange(0, 11)[6] == request.take(14)[6]);
    }
    if request.len() >= 12 {
        assert(request.subrange(0, 12)[5] == request.take(14)[5]);
    }
    assert(request.subrange(0, 14) =~= request.take(14));
    match (param_in(request, "h="@), param_in(request, "m="@)) {
        (Some(h), Some(m)) => {
            if byte_len("SA:"@ + h + ":"@ + m + "\n"@) <= 16 {
                lemma_flatten_five("SA:"@, h, ":"@, m, "\n"@);
                lemma_written_fitting(16, seq!["SA:"@, h, ":"@, m, "\n"@]);
            }
        },
        _ => {},
    }
}

/// A request to set the hands has an hour, a minute and a second sent, in this order, and
/// nothing where one of them is missing.
pub proof fn law_sync_time_sent(request: Seq<char>)
    requires
        request.len() >= 14 && request.take(14) == "GET /sync_time"@,
    ensures
        match (
            param_in(request, "h="@),
            param_in(request, "m="@),
            param_in(request, "s="@),
        ) {
            (Some(h), Some(m), Some(s)) => byte_len("ST:"@ + h + ":"@ + m + ":"@ + s + "\n"@) <= 20
                ==> message_for(request) == "ST:"@ + h + ":"@ + m + ":"@ + s + "\n"@,
            _ => message_for(request).len() == 0,
        },
        param_in(request, "h="@) is Some && param_in(request, "m="@) is Some && param_in(
            request,
            "s="@,
        ) is Some ==> message_for(request) == written(
            20,
            Seq::empty(),
            seq![
                "ST:"@,
                param_in(request, "h="@)->0,
                ":"@,
                param_in(request, "m="@)->0,
                ":"@,
                param_in(request, "s="@)->0,
                "\n"@,
            ],
        ),
{
    reveal_strlit("GET /snooze");
    reveal_strlit("GET /disable");
    reveal_strlit("GET /set_alarm");
    reveal_strlit("GET /sync_time");
    assert(request.take(14)[5] == 's' && request.take(14)[6] == 'y');
    assert(request.subrange(0, 11)[6] == request.take(14)[6]);
    assert(request.subrange(0, 12)[5] == request.take(14)[5]);
    assert(request.subrange(0, 14) =~= request.take(14));
    match (param_in(request, "h="@), param_in(request, "m="@), param_in(request, "s="@)) {
        (Some(h), Some(m), Some(s)) => {
            if byte_len("ST:"@ + h + ":"@ + m + ":"@ + s + "\n"@) <= 20 {
                lemma_flatten_seven("ST:"@, h, ":"@, m, ":"@, s, "\n"@);
                lemma_written_fitting(20, seq!["ST:"@, h, ":"@, m, ":"@, s, "\n"@]);
            }
        },
        _ => {},
    }
}

/// The request that is read is the one that was sent, where its bytes are UTF-8, and else an
/// empty one.
pub proof fn law_request_text(bytes: Seq<u8>, request: Seq<char>)
    ensures
        bytes == encode_utf8(request) ==> request_text(bytes) == request,
        !valid_utf8(bytes) ==> request_text(bytes).len() == 0,
{
    encode_utf8_decode_utf8(request);
    encode_utf8_valid_utf8(request);
}

/// Before any report the page says that it waits for one, whatever else the telemetry holds.
pub proof fn law_page_waits(t: Telemetry)
    requires
        !t.fresh,
    ensures
        page_shown(t)[3] == "<p class='wait'>&#9201; Waiting for STM32 telemetry...</p>"@,
{
}

/// The page is its head, the class of the status, the end of the tag, the status and its
/// tail. The class tells an alarm that rings from one that does not.
pub proof fn law_page_order(ringing: bool, status: Seq<char>)
    ensures
        page_with(ringing, status).len() == 5,
        page_with(ringing, status)[0] == HTML_HEAD@,
        ringing ==> page_with(ringing, status)[1] == "ringing'"@,
        !ringing ==> page_with(ringing, status)[1] == "'"@,
        page_with(ringing, status)[2] == ">"@,
        page_with(ringing, status)[3] == status,
        page_with(ringing, status)[4] == HTML_TAIL@,
{
}

/// The buttons of the page ask for what they say: the one that disables the alarm and the one
/// that snoozes have their requests with them, and the scripts of the others put the hour
/// behind `h=`, the minute behind `m=` and the second behind `s=`.
pub proof fn law_buttons_ask()
    ensures
        exists|i: int| occurs_at(HTML_TAIL@, "<button class='gs' onclick='setAlarm()'>Set Alarm</button>"@, i),
        exists|i: int| occurs_at(HTML_TAIL@, "<button class='ds' onclick=\"fetch('/disable').then(()=>location.reload())\">Disable</button>"@, i),
        exists|i: int| occurs_at(HTML_TAIL@, "<button class='sn' onclick=\"fetch('/snooze').then(()=>location.reload())\">Snooze 5min</button>"@, i),
        exists|i: int| occurs_at(HTML_TAIL@, "<button class='sy' onclick='syncTime()'>Sync Time</button>"@, i),
        exists|i: int| occurs_at(HTML_TAIL@, "function pad(n){return n.toString().padStart(2,'0');}"@, i),
        exists|i: int| occurs_at(HTML_TAIL@, "function setAlarm(){let t=document.getElementById('t').value;if(t){let p=t.split(':');fetch('/set_alarm?h='+p[0]+'&m='+p[1])"@, i),
        exists|i: int| occurs_at(HTML_TAIL@, "function syncTime(){let d=new Date(),h=pad(d.getHours()),m=pad(d.getMinutes()),s=pad(d.getSeconds());fetch('/sync_time?h='+h+'&m='+m+'&s='+s)"@, i),
{
    reveal_strlit("</div>\
<hr><h3>Alarm Settings</h3>\
<input type='time' id='t'><br>\
<button class='gs' onclick='setAlarm()'>Set Alarm</button>\
<button class='ds' onclick=\"fetch('/disable').then(()=>location.reload())\">Disable</button>\
<hr><h3>Actions</h3>\
<button class='sn' onclick=\"fetch('/snooze').then(()=>location.reload())\">Snooze 5min</button>\
<button class='sy' onclick='syncTime()'>Sync Time</button>\
<p class='note'>Auto-refreshes every 5s</p></div>\
<script>\
function pad(n){return n.toString().padStart(2,'0');}\
function setAlarm(){\
  let t=document.getElementById('t').value;\
  if(t){let p=t.split(':');fetch('/set_alarm?h='+p[0]+'&m='+p[1]).then(()=>{alert('Alarm set for '+t);location.reload();});}\
  else alert('Please select a time first!');}\
function syncTime(){\
  let d=new Date(),h=pad(d.getHours()),m=pad(d.getMinutes()),s=pad(d.getSeconds());\
  fetch('/sync_time?h='+h+'&m='+m+'&s='+s).then(()=>alert('Time synced to '+h+':'+m+':'+s));}\
</script></body></html>");
    reveal_strlit("<button class='gs' onclick='setAlarm()'>Set Alarm</button>");
    assert(HTML_TAIL@.subrange(63, 121) =~= "<button class='gs' onclick='setAlarm()'>Set Alarm</button>"@);
    assert(occurs_at(HTML_TAIL@, "<button class='gs' onclick='setAlarm()'>Set Alarm</button>"@, 63));
    reveal_strlit("<button class='ds' onclick=\"fetch('/disable').then(()=>location.reload())\">Disable</button>");
    assert(HTML_TAIL@.subrange(121, 212) =~= "<button class='ds' onclick=\"fetch('/disable').then(()=>location.reload())\">Disable</button>"@);
    assert(occurs_at(HTML_TAIL@, "<button class='ds' onclick=\"fetch('/disable').then(()=>location.reload())\">Disable</button>"@, 121));
    reveal_strlit("<button class='sn' onclick=\"fetch('/snooze').then(()=>location.reload())\">Snooze 5min</button>");
    assert(HTML_TAIL@.subrange(232, 326) =~= "<button class='sn' onclick=\"fetch('/snooze').then(()=>location.reload())\">Snooze 5min</button>"@);
    assert(occurs_at(HTML_TAIL@, "<button class='sn' onclick=\"fetch('/snooze').then(()=>location.reload())\">Snooze 5min</button>"@, 232));
    reveal_strlit("<button class='sy' onclick='syncTime()'>Sync Time</button>");
    assert(HTML_TAIL@.subrange(326, 384) =~= "<button class='sy' onclick='syncTime()'>Sync Time</button>"@);
    assert(occurs_at(HTML_TAIL@, "<button class='sy' onclick='syncTime()'>Sync Time</button>"@, 326));
    reveal_strlit("function pad(n){return n.toString().padStart(2,'0');}");
    assert(HTML_TAIL@.subrange(441, 494) =~= "function pad(n){return n.toString().padStart(2,'0');}"@);
    assert(occurs_at(HTML_TAIL@, "function pad(n){return n.toString().padStart(2,'0');}"@, 441));
    reveal_strlit("function setAlarm(){let t=document.getElementById('t').value;if(t){let p=t.split(':');fetch('/set_alarm?h='+p[0]+'&m='+p[1])");
    assert(HTML_TAIL@.subrange(494, 618) =~= "function setAlarm(){let t=document.getElementById('t').value;if(t){let p=t.split(':');fetch('/set_alarm?h='+p[0]+'&m='+p[1])"@);
    assert(occurs_at(HTML_TAIL@, "function setAlarm(){let t=document.getElementById('t').value;if(t){let p=t.split(':');fetch('/set_alarm?h='+p[0]+'&m='+p[1])"@, 494));
    reveal_strlit("function syncTime(){let d=new Date(),h=pad(d.getHours()),m=pad(d.getMinutes()),s=pad(d.getSeconds());fetch('/sync_time?h='+h+'&m='+m+'&s='+s)");
    assert(HTML_TAIL@.subrange(720, 861) =~= "function syncTime(){let d=new Date(),h=pad(d.getHours()),m=pad(d.getMinutes()),s=pad(d.getSeconds());fetch('/sync_time?h='+h+'&m='+m+'&s='+s)"@);
    assert(occurs_at(HTML_TAIL@, "function syncTime(){let d=new Date(),h=pad(d.getHours()),m=pad(d.getMinutes()),s=pad(d.getSeconds());fetch('/sync_time?h='+h+'&m='+m+'&s='+s)"@, 720));
}

/// The page is sent as HTML, is fetched again every five seconds, and shows a status that
/// pulses where it is that of an alarm that rings.
pub proof fn law_page_refreshes()
    ensures
        exists|i: int| occurs_at(HTML_HEAD@, "HTTP/1.1 200 OK\r\nContent-Type: text/html\r\nConnection: close\r\n\r\n<!DOCTYPE html>"@, i),
        exists|i: int| occurs_at(HTML_HEAD@, "<meta http-equiv='refresh' content='5'>"@, i),
        exists|i: int| occurs_at(HTML_HEAD@, ".ringing{background:#ffebee;animation:pulse 1s infinite}"@, i),
        exists|i: int| occurs_at(HTML_HEAD@, "</style></head><body><div class='card'>"@, i),
        exists|i: int| occurs_at(HTML_HEAD@, "<div class='status "@, i),
{
    reveal_strlit("HTTP/1.1 200 OK\r\nContent-Type: text/html\r\nConnection: close\r\n\r\n\
<!DOCTYPE html><html><head>\
<meta charset='UTF-8'><meta name='viewport' content='width=device-width,initial-scale=1.0'>\
<meta http-equiv='refresh' content='5'><title>Sunrise Alarm</title>\
<style>\
body{font-family:sans-serif;text-align:center;margin-top:50px;background:#f4f4f9;color:#333}\
.card{background:white;padding:30px;border-radius:10px;display:inline-block;\
box-shadow:0 4px 8px rgba(0,0,0,.1);min-width:320px}\
.status{background:#e8f5e9;padding:15px;border-radius:8px;margin:15px 0;text-align:left}\
.status p{margin:6px 0;font-size:15px}\
.ringing{background:#ffebee;animation:pulse 1s infinite}\
@keyframes pulse{0%{opacity:1}50%{opacity:.5}100%{opacity:1}}\
.wait{color:#aaa;font-style:italic}\
button{padding:10px 20px;font-size:16px;margin:8px;border-radius:5px;\
border:none;cursor:pointer;color:white;transition:.2s}\
button:hover{opacity:.8}\
.gs{background:#4CAF50}.sn{background:#ff9800}.ds{background:#f44336}.sy{background:#2196F3}\
input[type=time]{font-size:20px;padding:5px;margin:10px;\
border:1px solid #ccc;border-radius:5px}\
hr{border:0;border-top:1px solid #eee;margin:20px 0}\
.note{font-size:11px;color:#bbb;margin-top:10px}\
.ap{background:#fff3cd;border:1px solid #ffc107;padding:8px;\
border-radius:6px;font-size:12px;margin-bottom:10px}\
</style></head><body><div class='card'>\
<div class='ap'>Wi-Fi AP: SunriseAlarm &bull; http://192.168.4.1</div>\
<h1>&#127749; Sunrise Alarm</h1><div class='status ");
    reveal_strlit("HTTP/1.1 200 OK\r\nContent-Type: text/html\r\nConnection: close\r\n\r\n<!DOCTYPE html>");
    assert(HTML_HEAD@.subrange(0, 78) =~= "HTTP/1.1 200 OK\r\nContent-Type: text/html\r\nConnection: close\r\n\r\n<!DOCTYPE html>"@);
    assert(occurs_at(HTML_HEAD@, "HTTP/1.1 200 OK\r\nContent-Type: text/html\r\nConnection: close\r\n\r\n<!DOCTYPE html>"@, 0));
    reveal_strlit("<meta http-equiv='refresh' content='5'>");
    assert(HTML_HEAD@.subrange(181, 220) =~= "<meta http-equiv='refresh' content='5'>"@);
    assert(occurs_at(HTML_HEAD@, "<meta http-equiv='refresh' content='5'>"@, 181));
    reveal_strlit(".ringing{background:#ffebee;animation:pulse 1s infinite}");
    assert(HTML_HEAD@.subrange(601, 657) =~= ".ringing{background:#ffebee;animation:pulse 1s infinite}"@);
    assert(occurs_at(HTML_HEAD@, ".ringing{background:#ffebee;animation:pulse 1s infinite}"@, 601));
    reveal_strlit("</style></head><body><div class='card'>");
    assert(HTML_HEAD@.subrange(1300, 1339) =~= "</style></head><body><div class='card'>"@);
    assert(occurs_at(HTML_HEAD@, "</style></head><body><div class='card'>"@, 1300));
    reveal_strlit("<div class='status ");
    assert(HTML_HEAD@.subrange(1441, 1460) =~= "<div class='status "@);
    assert(occurs_at(HTML_HEAD@, "<div class='status "@, 1441));
}

} // verus!
