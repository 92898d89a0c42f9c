//! Turning the lines that Frida prints into trace events.
//!
//! The injected script sends packets as `send("tracer::" + JSON.stringify(packet))`,
//! which Frida prints as `message: {'type': 'send', 'payload': 'tracer::{...}'} data: None`.
//! Agents of earlier versions marked their packets `ZenTracer:::`; those are read too.
use crate::json::{
    field, json_document, json_field, json_items, json_str, json_u64, parse_json, JsonValue,
};
use crate::models::{opt_text, opt_texts, text_or, texts, TraceEvent, TraceEventView};
use crate::text::{
    chars_of, contains_text, find_text, first_occurrence, head_chars, is_digit, is_whitespace, is_ws,
    lemma_first_occurrence_unique, occurs_at, starts_with, string_of, strip_prefixes,
    strip_prefixes_exec, tail_chars,
};
use vstd::prelude::*;

verus! {

/// A line carries a tracer packet marker: `tracer::`, or `ZenTracer:::` as
/// earlier versions of the agent wrote it.
pub open spec fn has_marker(line: Seq<char>) -> bool {
    contains_text(line, "tracer::"@) || contains_text(line, "ZenTracer:::"@)
}

/// A payload with its markers removed: every leading `ZenTracer:::`, then
/// every leading `tracer::`.
pub open spec fn strip_markers(body: Seq<char>) -> Seq<char> {
    strip_prefixes(strip_prefixes(body, "ZenTracer:::"@), "tracer::"@)
}

/// The text between `'payload': '` and the next `'}` of a Frida line that
/// carries a tracer packet, with its leading markers removed.
pub open spec fn payload_text(line: Seq<char>) -> Option<Seq<char>> {
    if !has_marker(line) || !contains_text(line, "'payload': '"@) {
        None
    } else {
        let start = first_occurrence(line, "'payload': '"@).unwrap();
        let after = line.skip(start + "'payload': '"@.len());
        match first_occurrence(after, "'}"@) {
            Some(end) => Some(strip_markers(after.take(end))),
            None => None,
        }
    }
}

/// The JSON text of the tracer packet that a Frida output line carries.
pub fn payload_json(line: &str) -> (r: Option<String>)
    ensures
        opt_text(r) == payload_text(line@),
{
    let cs = chars_of(line);
    let marker = chars_of("tracer::");
    let legacy = chars_of("ZenTracer:::");
    let key = chars_of("'payload': '");
    let close = chars_of("'}");
    let found_marker = match find_text(&cs, &marker) {
        Some(_) => true,
        None => find_text(&cs, &legacy).is_some(),
    };
    let found_key = find_text(&cs, &key);
    match (found_marker, found_key) {
        (true, Some(start)) => {
            assert(occurs_at(cs@, key@, start as int));
            assert(start + key@.len() <= cs.len());
            let after = start + key.len();
            let rest = tail_chars(&cs, after);
            match find_text(&rest, &close) {
                Some(end) => {
                    let body = head_chars(&rest, end);
                    let skip = strip_prefixes_exec(&body, &legacy);
                    let unprefixed = tail_chars(&body, skip);
                    let skip2 = strip_prefixes_exec(&unprefixed, &marker);
                    let payload = tail_chars(&unprefixed, skip2);
                    Some(string_of(&payload))
                },
                None => None,
            }
        },
        _ => None,
    }
}

/// The command of a packet: its `cmd` member when that is a string, else `log`.
pub open spec fn packet_command(packet: JsonValue) -> Seq<char> {
    match json_str(json_field(packet, "cmd"@)) {
        Some(c) => c,
        None => "log"@,
    }
}

/// The elements of a packet's `data` member when it is an array, else none.
pub open spec fn data_items(packet: JsonValue) -> Seq<JsonValue> {
    match json_items(json_field(packet, "data"@)) {
        Some(a) => a,
        None => Seq::empty(),
    }
}

/// The string at position `i` of `items`, if there is one.
pub open spec fn item_str(items: Seq<JsonValue>, i: int) -> Option<Seq<char>> {
    if 0 <= i < items.len() {
        json_str(items[i])
    } else {
        None
    }
}

/// The thread id at position `i` of `items`: an unsigned number, cut to
/// 32 bits.
pub open spec fn item_thread_id(items: Seq<JsonValue>, i: int) -> Option<u32> {
    if 0 <= i < items.len() {
        match json_u64(items[i]) {
            Some(n) => Some(n as u32),
            None => None,
        }
    } else {
        None
    }
}

/// A value as an argument text: the string it holds, empty for any other value.
pub open spec fn arg_text(v: JsonValue) -> Seq<char> {
    match json_str(v) {
        Some(s) => s,
        None => Seq::empty(),
    }
}

/// The argument list at position `i` of `items`, if it is an array.
pub open spec fn item_args(items: Seq<JsonValue>, i: int) -> Option<Seq<Seq<char>>> {
    if 0 <= i < items.len() {
        match json_items(items[i]) {
            Some(a) => Some(a.map_values(|v: JsonValue| arg_text(v))),
            None => None,
        }
    } else {
        None
    }
}

/// A log event carrying `message`.
pub open spec fn log_event_view(id: Seq<char>, ts: Seq<char>, message: Seq<char>) -> TraceEventView {
    TraceEventView {
        id: id,
        timestamp: ts,
        event_type: "log"@,
        thread_id: None,
        thread_name: None,
        class_name: None,
        method_name: None,
        args: None,
        return_value: None,
        message: message,
    }
}

/// The event a packet describes, under the given id and timestamp:
/// `log` carries the `data` string; `enter` carries thread id, thread name,
/// class, method and arguments from the `data` array; `exit` carries thread
/// id and return value; any other command becomes a log event naming it.
pub open spec fn packet_event(packet: JsonValue, id: Seq<char>, ts: Seq<char>) -> TraceEventView {
    let cmd = packet_command(packet);
    let items = data_items(packet);
    if cmd == "log"@ {
        log_event_view(id, ts, text_or(json_str(json_field(packet, "data"@)), Seq::empty()))
    } else if cmd == "enter"@ {
        TraceEventView {
            id: id,
            timestamp: ts,
            event_type: "enter"@,
            thread_id: item_thread_id(items, 0),
            thread_name: item_str(items, 1),
            class_name: item_str(items, 2),
            method_name: item_str(items, 3),
            args: item_args(items, 4),
            return_value: None,
            message: "Method enter: "@ + text_or(item_str(items, 3), "unknown"@),
        }
    } else if cmd == "exit"@ {
        TraceEventView {
            id: id,
            timestamp: ts,
            event_type: "exit"@,
            thread_id: item_thread_id(items, 0),
            thread_name: None,
            class_name: None,
            method_name: None,
            args: None,
            return_value: item_str(items, 1),
            message: "Method exit: "@ + text_or(item_str(items, 1), "void"@),
        }
    } else {
        log_event_view(id, ts, "Unknown command: "@ + cmd)
    }
}

/// The element at position `i` of an optional array.
fn item<'a>(items: Option<&'a Vec<JsonValue>>, i: usize) -> (r: Option<&'a JsonValue>)
    ensures
        r matches Some(x) ==> items matches Some(a) && i < a@.len() && *x == a@[i as int],
        r is None ==> items is None || i >= items.unwrap()@.len(),
{
    match items {
        Some(a) => {
            if i < a.len() {
                Some(&a[i])
            } else {
                None
            }
        },
        None => None,
    }
}

/// The items of an optional array, as a sequence.
pub open spec fn opt_items(items: Option<&Vec<JsonValue>>) -> Seq<JsonValue> {
    match items {
        Some(a) => a@,
        None => Seq::empty(),
    }
}

/// The string at position `i` of an optional array.
fn item_string(items: Option<&Vec<JsonValue>>, i: usize) -> (r: Option<String>)
    ensures
        opt_text(r) == item_str(opt_items(items), i as int),
{
    match item(items, i) {
        Some(JsonValue::Str(s)) => Some(s.clone()),
        _ => None,
    }
}

/// The thread id at position `i` of an optional array.
fn item_tid(items: Option<&Vec<JsonValue>>, i: usize) -> (r: Option<u32>)
    ensures
        r == item_thread_id(opt_items(items), i as int),
{
    match item(items, i) {
        Some(JsonValue::Number(Some(n))) => Some(*n as u32),
        _ => None,
    }
}

/// The argument list at position `i` of an optional array.
fn item_arguments(items: Option<&Vec<JsonValue>>, i: usize) -> (r: Option<Vec<String>>)
    ensures
        opt_texts(r) == item_args(opt_items(items), i as int),
{
    match item(items, i) {
        Some(JsonValue::Array(a)) => {
            let mut out: Vec<String> = Vec::new();
            let n = a.len();
            let mut k: usize = 0;
            while k < n
                invariant
                    n == a@.len(),
                    k <= n,
                    texts(out@) == a@.take(k as int).map_values(|v: JsonValue| arg_text(v)),
                decreases n - k,
            {
                let s = match &a[k] {
                    JsonValue::Str(s) => s.clone(),
                    _ => String::new(),
                };
                let ghost before = out@;
                out.push(s);
                assert(texts(out@) =~= texts(before).push(arg_text(a@[k as int])));
                assert(a@.take(k + 1).map_values(|v: JsonValue| arg_text(v)) =~= a@.take(
                    k as int,
                ).map_values(|v: JsonValue| arg_text(v)).push(arg_text(a@[k as int])));
                k = k + 1;
            }
            assert(a@.take(n as int) =~= a@);
            Some(out)
        },
        _ => None,
    }
}

/// `prefix` followed by `o`, or by `default` where `o` is `None`.
fn message_with(prefix: &str, o: &Option<String>, default: &str) -> (r: String)
    ensures
        r@ == prefix@ + text_or(opt_text(*o), default@),
{
    let mut m = String::from_str(prefix);
    match o {
        Some(s) => m.append(s.as_str()),
        None => m.append(default),
    }
    m
}

/// A log event carrying `message`.
pub fn log_event(id: String, timestamp: String, message: String) -> (r: TraceEvent)
    ensures
        r@ == log_event_view(id@, timestamp@, message@),
{
    TraceEvent {
        id,
        timestamp,
        event_type: String::from_str("log"),
        thread_id: None,
        thread_name: None,
        class_name: None,
        method_name: None,
        args: None,
        return_value: None,
        message,
    }
}

/// The event that `packet` describes, under the given id and timestamp.
pub fn event_from_packet(packet: &JsonValue, id: String, timestamp: String) -> (r: TraceEvent)
    ensures
        r@ == packet_event(*packet, id@, timestamp@),
{
    let cmd: String = match field(packet, "cmd") {
        Some(JsonValue::Str(s)) => s.clone(),
        _ => String::from_str("log"),
    };
    let data = field(packet, "data");
    let items: Option<&Vec<JsonValue>> = match data {
        Some(JsonValue::Array(a)) => Some(a),
        _ => None,
    };
    assert(opt_items(items) == data_items(*packet));
    if cmd == String::from_str("log") {
        let message = match data {
            Some(JsonValue::Str(s)) => s.clone(),
            _ => String::new(),
        };
        log_event(id, timestamp, message)
    } else if cmd == String::from_str("enter") {
        let method_name = item_string(items, 3);
        let message = message_with("Method enter: ", &method_name, "unknown");
        TraceEvent {
            id,
            timestamp,
            event_type: String::from_str("enter"),
            thread_id: item_tid(items, 0),
            thread_name: item_string(items, 1),
            class_name: item_string(items, 2),
            method_name,
            args: item_arguments(items, 4),
            return_value: None,
            message,
        }
    } else if cmd == String::from_str("exit") {
        let return_value = item_string(items, 1);
        let message = message_with("Method exit: ", &return_value, "void");
        TraceEvent {
            id,
            timestamp,
            event_type: String::from_str("exit"),
            thread_id: item_tid(items, 0),
            thread_name: None,
            class_name: None,
            method_name: None,
            args: None,
            return_value,
            message,
        }
    } else {
        let mut message = String::from_str("Unknown command: ");
        message.append(cmd.as_str());
        log_event(id, timestamp, message)
    }
}

/// A lowercase hexadecimal digit.
pub open spec fn is_lower_hex(c: char) -> bool {
    ('0' <= c <= '9') || ('a' <= c <= 'f')
}

/// The text of a version-4 UUID in hyphenated lowercase form: 36 characters,
/// hyphens at positions 8, 13, 18 and 23, hexadecimal digits elsewhere, the
/// version digit `4` at position 14.
pub open spec fn is_event_id(s: Seq<char>) -> bool {
    &&& s.len() == 36
    &&& forall|i: int|
        0 <= i < 36 ==> if i == 8 || i == 13 || i == 18 || i == 23 {
            #[trigger] s[i] == '-'
        } else {
            is_lower_hex(s[i])
        }
    &&& s[14] == '4'
}

/// A time of day as `HH:MM:SS.mmm`: 12 characters, `:` at positions 2 and 5,
/// `.` at position 8, decimal digits elsewhere.
pub open spec fn is_clock_text(s: Seq<char>) -> bool {
    &&& s.len() == 12
    &&& forall|i: int|
        0 <= i < 12 ==> if i == 2 || i == 5 {
            #[trigger] s[i] == ':'
        } else if i == 8 {
            s[i] == '.'
        } else {
            is_digit(s[i])
        }
}

/// A fresh identifier for an event: `uuid::Uuid::new_v4`, written out by its
/// `Display`.  Claimed, as `uuid`'s source writes it (`format_hyphenated`,
/// lowercase, with the version set to 4): the text has the shape of
/// `is_event_id`.  Its digits are random, and nothing more is claimed.
#[verifier::external_body]
fn new_event_id() -> (r: String)
    ensures
        is_event_id(r@),
{
    uuid::Uuid::new_v4().to_string()
}

/// The current UTC time of day: `std::time::SystemTime::now` taken into a
/// `chrono::DateTime<Utc>` by its `From` conversion, which also reads a
/// clock set before 1970, and written by `format("%H:%M:%S%.3f")`.
/// Claimed, as `chrono`'s source writes these fields (two zero-padded
/// digits each, then `.` and three digits of milliseconds): the text has the
/// shape of `is_clock_text`.  The digits depend on the clock, and nothing
/// more is claimed.  The conversion unwraps a date that `chrono` can hold:
/// a clock beyond about 262,000 years from year 0 is outside its range.
#[verifier::external_body]
fn event_timestamp() -> (r: String)
    ensures
        is_clock_text(r@),
{
    chrono::DateTime::<chrono::Utc>::from(std::time::SystemTime::now()).format("%H:%M:%S%.3f").to_string()
}

/// A log event carrying `message`, with a fresh id and the current time.
pub fn new_log_event(message: String) -> (r: TraceEvent)
    ensures
        r@ == log_event_view(r.id@, r.timestamp@, message@),
        is_event_id(r.id@),
        is_clock_text(r.timestamp@),
{
    log_event(new_event_id(), event_timestamp(), message)
}

/// Reads one line of Frida's output: the event its tracer packet describes,
/// with a fresh id and the current time, or `None` for a line without a
/// packet or with a packet that is not JSON.
pub fn parse_frida_output(line: &str) -> (r: Option<TraceEvent>)
    ensures
        r is Some <==> (payload_text(line@) matches Some(p) && json_document(p) is Some),
        r matches Some(e) ==> e@ == packet_event(
            json_document(payload_text(line@).unwrap()).unwrap(),
            e.id@,
            e.timestamp@,
        ) && is_event_id(e.id@) && is_clock_text(e.timestamp@),
{
    let payload = payload_json(line);
    match payload {
        Some(p) => {
            match parse_json(p.as_str()) {
                Some(packet) => Some(event_from_packet(&packet, new_event_id(), event_timestamp())),
                None => None,
            }
        },
        None => None,
    }
}

/// Every character of `s` is whitespace (`s.trim().is_empty()`).
pub open spec fn is_blank(s: Seq<char>) -> bool {
    forall|i: int| 0 <= i < s.len() ==> is_ws(#[trigger] s[i])
}

/// Whether every character of `s` is whitespace.
pub fn is_blank_exec(s: &[char]) -> (r: bool)
    ensures
        r == is_blank(s@),
{
    let n = s.len();
    let mut i: usize = 0;
    while i < n
        invariant
            n == s@.len(),
            i <= n,
            forall|j: int| 0 <= j < i ==> is_ws(#[trigger] s@[j]),
        decreases n - i,
    {
        if !is_whitespace(s[i]) {
            return false;
        }
        i = i + 1;
    }
    true
}

/// The error event for a line Frida wrote to standard error: a log event
/// `[-] Error: <line>`, or `None` for a blank line.
pub fn stderr_event(line: &str) -> (r: Option<TraceEvent>)
    ensures
        r is None <==> is_blank(line@),
        r matches Some(e) ==> e@ == log_event_view(e.id@, e.timestamp@, "[-] Error: "@ + line@)
            && is_event_id(e.id@) && is_clock_text(e.timestamp@),
{
    let cs = chars_of(line);
    if is_blank_exec(&cs) {
        None
    } else {
        let mut message = String::from_str("[-] Error: ");
        message.append(line);
        Some(new_log_event(message))
    }
}

/// The line Frida prints for a message that the agent sends as `text`.
pub open spec fn frida_send_line(text: Seq<char>) -> Seq<char> {
    "message: {'type': 'send', "@ + "'payload': '"@ + text + "'} data: None"@
}

/// The line Frida prints for a marker followed by a packet without `'}`
/// carries that marker followed by the packet as its payload.
proof fn lemma_payload_body(marker: Seq<char>, packet: Seq<char>)
    requires
        marker == "tracer::"@ || marker == "ZenTracer:::"@,
        !contains_text(packet, "'}"@),
    ensures
        payload_text(frida_send_line(marker + packet)) == Some(strip_markers(marker + packet)),
{
    reveal_strlit("message: {'type': 'send', ");
    reveal_strlit("'payload': '");
    reveal_strlit("tracer::");
    reveal_strlit("ZenTracer:::");
    reveal_strlit("'} data: None");
    reveal_strlit("'}");
    let pre = "message: {'type': 'send', "@;
    let key = "'payload': '"@;
    let close = "'} data: None"@;
    let end = "'}"@;
    let k: int = marker.len() as int;
    let line = frida_send_line(marker + packet);
    assert(pre.len() == 26);
    assert(key.len() == 12);
    assert(forall|i: int| 0 <= i < k ==> #[trigger] marker[i] != '\'');
    assert(line =~= pre + key + marker + packet + close);
    // the marker and the key both occur
    assert(line.subrange(38, 38 + k) =~= marker);
    assert(occurs_at(line, marker, 38));
    assert(has_marker(line));
    assert(line.subrange(26, 38) =~= key);
    assert(occurs_at(line, key, 26));
    // the key occurs first right after the prefix
    assert forall|j: int| 0 <= j < 26 implies !occurs_at(line, key, j) by {
        if occurs_at(line, key, j) {
            assert(line.subrange(j, j + 12)[0] == key[0]);
            assert(line.subrange(j, j + 12)[1] == key[1]);
            assert(line[j] == pre[j]);
            assert(line[j + 1] == '\'' || line[j + 1] == pre[j + 1]);
        }
    }
    lemma_first_occurrence_unique(line, key, 26);
    let after = line.skip(38);
    assert(after =~= marker + packet + close);
    // the closing quote and brace occur first right after the packet
    let n: int = packet.len() as int;
    assert(after.subrange(k + n, k + n + 2) =~= end);
    assert forall|j: int| 0 <= j < k + n implies !occurs_at(after, end, j) by {
        if occurs_at(after, end, j) {
            assert(after.subrange(j, j + 2)[0] == '\'');
            assert(after.subrange(j, j + 2)[1] == '}');
            if j < k {
                assert(after[j] == marker[j]);
            } else if j < k + n - 1 {
                assert(packet.subrange(j - k, j - k + 2) =~= after.subrange(j, j + 2));
                assert(occurs_at(packet, end, j - k));
            } else {
                assert(after[j + 1] == close[0]);
            }
        }
    }
    lemma_first_occurrence_unique(after, end, k + n);
    assert(after.take(k + n) =~= marker + packet);
}

/// `marker` followed by `packet` loses exactly the marker.
proof fn lemma_strip_marker(marker: Seq<char>, packet: Seq<char>)
    requires
        marker.len() > 0,
        !starts_with(packet, marker),
    ensures
        strip_prefixes(marker + packet, marker) == packet,
{
    let body = marker + packet;
    assert(body.take(marker.len() as int) =~= marker);
    assert(body.skip(marker.len() as int) =~= packet);
    assert(strip_prefixes(packet, marker) == packet);
    assert(strip_prefixes(body, marker) == strip_prefixes(body.skip(marker.len() as int), marker));
}

/// What the agent sends, the parser reads back: the line Frida prints for
/// `tracer::` followed by a packet yields that packet, whenever the packet
/// holds no `'}` and does not itself begin with `tracer::`.
pub proof fn law_payload_roundtrip(packet: Seq<char>)
    requires
        !contains_text(packet, "'}"@),
        !starts_with(packet, "tracer::"@),
    ensures
        payload_text(frida_send_line("tracer::"@ + packet)) == Some(packet),
{
    reveal_strlit("tracer::");
    reveal_strlit("ZenTracer:::");
    let marker = "tracer::"@;
    let legacy = "ZenTracer:::"@;
    lemma_payload_body(marker, packet);
    let body = marker + packet;
    assert(!starts_with(body, legacy)) by {
        if legacy.len() <= body.len() {
            assert(body.take(legacy.len() as int)[0] == body[0]);
            assert(body[0] != legacy[0]);
        }
    }
    assert(strip_prefixes(body, legacy) == body);
    lemma_strip_marker(marker, packet);
}

/// The change of marker keeps old agents readable: the line Frida prints for
/// `ZenTracer:::` followed by a packet yields that packet as well, whenever
/// the packet holds no `'}` and begins with neither marker.
pub proof fn law_legacy_payload_roundtrip(packet: Seq<char>)
    requires
        !contains_text(packet, "'}"@),
        !starts_with(packet, "tracer::"@),
        !starts_with(packet, "ZenTracer:::"@),
    ensures
        payload_text(frida_send_line("ZenTracer:::"@ + packet)) == Some(packet),
{
    reveal_strlit("ZenTracer:::");
    let legacy = "ZenTracer:::"@;
    lemma_payload_body(legacy, packet);
    lemma_strip_marker(legacy, packet);
    lemma_strip_marker_absent(packet);
}

/// A packet that does not begin with `tracer::` keeps that beginning.
proof fn lemma_strip_marker_absent(packet: Seq<char>)
    requires
        !starts_with(packet, "tracer::"@),
    ensures
        strip_prefixes(packet, "tracer::"@) == packet,
{
}

/// Every packet becomes an event of one of the three kinds the viewer knows,
/// under the id and timestamp it was given.
pub proof fn law_packet_event_kinds(packet: JsonValue, id: Seq<char>, ts: Seq<char>)
    ensures
        ({
            let e = packet_event(packet, id, ts);
            &&& e.id == id
            &&& e.timestamp == ts
            &&& e.event_type == "log"@ || e.event_type == "enter"@ || e.event_type == "exit"@
        }),
{
}

} // verus!
