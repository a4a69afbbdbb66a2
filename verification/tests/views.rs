use std::collections::BTreeMap;

use nvr_json::db;
use nvr_json::db::auth::SessionHash;
use nvr_json::db::{LockedDatabase, StreamDayKey, StreamDays};
use nvr_json::json::{Camera, Error, Session, Stream, StreamDayValue, TopLevel};
use nvr_json::value::Value;

const DAY_90K: i64 = 86_400 * 90_000;

fn num(n: i64) -> Value {
    Value::Int(n)
}

fn text(s: &str) -> Value {
    Value::Str(s.to_string())
}

fn object(members: Vec<(&str, Value)>) -> Value {
    Value::Object(members.into_iter().map(|(k, v)| (k.to_string(), v)).collect())
}

fn key(year: u16, month: u8, day: u8, start: i64) -> StreamDayKey {
    StreamDayKey::new(year, month, day, start..start + DAY_90K).unwrap()
}

fn days(entries: Vec<(StreamDayKey, i64)>) -> StreamDays {
    StreamDays::from_entries(
        entries.into_iter().map(|(k, d)| (k, db::StreamDayValue { duration: d })).collect(),
    )
    .unwrap()
}

fn stream(id: i32, retain_bytes: i64, range: Option<std::ops::Range<i64>>, days: StreamDays) -> db::Stream {
    db::Stream { id, retain_bytes, range, duration: 0, sample_file_bytes: 0, days }
}

fn camera(id: i32, uuid: &str, short_name: &str, streams: [Option<i32>; 2]) -> db::Camera {
    db::Camera {
        id,
        uuid: uuid::Uuid::parse_str(uuid).unwrap().into_bytes(),
        short_name: short_name.to_string(),
        description: "...".to_string(),
        streams,
    }
}

fn snapshot(cameras: Vec<db::Camera>, streams: Vec<db::Stream>) -> LockedDatabase {
    let mut cameras_by_id = BTreeMap::new();
    for c in cameras {
        cameras_by_id.insert(c.id, c);
    }
    let mut streams_by_id = BTreeMap::new();
    for s in streams {
        streams_by_id.insert(s.id, s);
    }
    LockedDatabase::new(cameras_by_id, streams_by_id)
}

/// The document as the `serde_json` crate holds it, to compare with text.
fn to_json(v: &Value) -> serde_json::Value {
    match v {
        Value::Bool(b) => serde_json::Value::Bool(*b),
        Value::Int(n) => serde_json::Value::from(*n),
        Value::Str(s) => serde_json::Value::String(s.clone()),
        Value::List(items) => serde_json::Value::Array(items.iter().map(to_json).collect()),
        Value::Object(members) => {
            let mut map = serde_json::Map::new();
            for (k, v) in members {
                assert!(map.insert(k.clone(), to_json(v)).is_none(), "key {} twice", k);
            }
            serde_json::Value::Object(map)
        }
    }
}

fn keys(v: &Value) -> Vec<String> {
    match v {
        Value::Object(members) => members.iter().map(|(k, _)| k.clone()).collect(),
        _ => panic!("not an object: {:?}", v),
    }
}

const FRONT: &str = "11111111-1111-1111-1111-111111111111";

fn front_snapshot() -> LockedDatabase {
    snapshot(
        vec![camera(1, FRONT, "front", [Some(10), None])],
        vec![stream(10, 1000, None, days(vec![]))],
    )
}

#[test]
fn camera_with_main_stream_only() {
    let db = front_snapshot();
    let c = db.cameras_by_id().get(&1).unwrap();
    let view = Camera::wrap(c, &db, false).unwrap();
    let doc = view.serialize();
    assert_eq!(
        doc,
        object(vec![
            ("uuid", text(FRONT)),
            ("shortName", text("front")),
            ("description", text("...")),
            (
                "streams",
                object(vec![(
                    "main",
                    object(vec![
                        ("retainBytes", num(1000)),
                        ("totalDuration90k", num(0)),
                        ("totalSampleFileBytes", num(0)),
                    ]),
                )]),
            ),
        ])
    );
    let expected: serde_json::Value = serde_json::from_str(
        "{\"uuid\":\"11111111-1111-1111-1111-111111111111\",\"shortName\":\"front\",\
         \"description\":\"...\",\"streams\":{\"main\":{\"retainBytes\":1000,\
         \"totalDuration90k\":0,\"totalSampleFileBytes\":0}}}",
    )
    .unwrap();
    assert_eq!(to_json(&doc), expected);
    let main = doc.get("streams").unwrap().get("main").unwrap();
    assert!(main.get("minStartTime90k").is_none());
    assert!(main.get("maxEndTime90k").is_none());
    assert!(main.get("days").is_none());
    assert!(doc.get("streams").unwrap().get("sub").is_none());
}

#[test]
fn only_filled_slots_are_keys() {
    let db = snapshot(
        vec![
            camera(1, FRONT, "front", [Some(10), None]),
            camera(2, FRONT, "back", [None, Some(11)]),
            camera(3, FRONT, "side", [Some(10), Some(11)]),
            camera(4, FRONT, "none", [None, None]),
        ],
        vec![stream(10, 1, None, days(vec![])), stream(11, 2, None, days(vec![]))],
    );
    let expected: [&[&str]; 4] = [&["main"], &["sub"], &["main", "sub"], &[]];
    for (id, names) in (1..=4).zip(expected.iter()) {
        let c = db.cameras_by_id().get(&id).unwrap();
        let view = Camera::wrap(c, &db, false).unwrap();
        let streams = Camera::serialize_streams(&view.streams);
        assert_eq!(keys(&streams), names.to_vec());
    }
    let c = db.cameras_by_id().get(&3).unwrap();
    let view = Camera::wrap(c, &db, false).unwrap();
    let streams = Camera::serialize_streams(&view.streams);
    assert_eq!(streams.get("main").unwrap().get("retainBytes"), Some(&num(1)));
    assert_eq!(streams.get("sub").unwrap().get("retainBytes"), Some(&num(2)));
}

#[test]
fn stream_without_range_has_no_bounds() {
    let db = snapshot(vec![], vec![stream(10, 5, None, days(vec![]))]);
    let view = Stream::wrap(&db, Some(10), true).unwrap().unwrap();
    assert_eq!(view.min_start_time_90k, None);
    assert_eq!(view.max_end_time_90k, None);
    let doc = view.serialize();
    assert_eq!(keys(&doc), vec!["retainBytes", "totalDuration90k", "totalSampleFileBytes", "days"]);
}

#[test]
fn stream_with_range_has_both_bounds() {
    let mut s = stream(10, 5, Some(100..250), days(vec![]));
    s.duration = 150;
    s.sample_file_bytes = 4096;
    let db = snapshot(vec![], vec![s]);
    let view = Stream::wrap(&db, Some(10), false).unwrap().unwrap();
    assert_eq!(
        view.serialize(),
        object(vec![
            ("retainBytes", num(5)),
            ("minStartTime90k", num(100)),
            ("maxEndTime90k", num(250)),
            ("totalDuration90k", num(150)),
            ("totalSampleFileBytes", num(4096)),
        ])
    );
}

#[test]
fn stream_wrap_without_id_is_no_view() {
    let db = front_snapshot();
    assert!(Stream::wrap(&db, None, true).unwrap().is_none());
}

#[test]
fn missing_stream_is_an_error() {
    let db = front_snapshot();
    assert_eq!(Stream::wrap(&db, Some(11), false).err(), Some(Error::MissingStream(11)));
    let c = camera(7, FRONT, "lost", [Some(10), Some(12)]);
    assert_eq!(Camera::wrap(&c, &db, false).err(), Some(Error::MissingStream(12)));
    let c = camera(7, FRONT, "lost", [Some(13), Some(12)]);
    assert_eq!(Camera::wrap(&c, &db, true).err(), Some(Error::MissingStream(13)));
}

#[test]
fn days_are_rendered_in_key_order() {
    let d = days(vec![
        (key(2018, 12, 31, 0), 10),
        (key(2019, 1, 1, DAY_90K), 20),
        (key(2019, 1, 15, 15 * DAY_90K), DAY_90K),
    ]);
    let doc = Stream::serialize_days(&Some(&d)).unwrap();
    assert_eq!(keys(&doc), vec!["2018-12-31", "2019-01-01", "2019-01-15"]);
    assert_eq!(
        doc.get("2019-01-01"),
        Some(&object(vec![
            ("startTime90k", num(DAY_90K)),
            ("endTime90k", num(2 * DAY_90K)),
            ("totalDuration90k", num(20)),
        ]))
    );
    assert_eq!(Stream::serialize_days(&None), None);
}

#[test]
fn every_day_lies_within_its_bounds() {
    let d = days(vec![(key(2019, 3, 9, 500), 0), (key(2019, 3, 10, 500 + DAY_90K), DAY_90K)]);
    let doc = Stream::serialize_days(&Some(&d)).unwrap();
    match &doc {
        Value::Object(members) => {
            assert_eq!(members.len(), 2);
            for (_, day) in members {
                let start = match day.get("startTime90k") { Some(Value::Int(n)) => *n, _ => panic!() };
                let end = match day.get("endTime90k") { Some(Value::Int(n)) => *n, _ => panic!() };
                let total = match day.get("totalDuration90k") { Some(Value::Int(n)) => *n, _ => panic!() };
                assert!(start < end);
                assert!(total <= end - start);
            }
        }
        _ => panic!("not an object"),
    }
}

#[test]
fn days_only_on_request() {
    let d = days(vec![(key(2019, 1, 15, 0), 90_000)]);
    let db = snapshot(vec![], vec![stream(10, 5, Some(0..90_000), d)]);
    let without = Stream::wrap(&db, Some(10), false).unwrap().unwrap();
    assert!(without.days.is_none());
    assert!(without.serialize().get("days").is_none());
    let with = Stream::wrap(&db, Some(10), true).unwrap().unwrap();
    assert_eq!(with.days.unwrap().len(), 1);
    assert_eq!(
        with.serialize().get("days"),
        Some(&object(vec![(
            "2019-01-15",
            object(vec![
                ("startTime90k", num(0)),
                ("endTime90k", num(DAY_90K)),
                ("totalDuration90k", num(90_000)),
            ]),
        )]))
    );
}

#[test]
fn day_view_renders_three_members() {
    let day = StreamDayValue { start_time_90k: -5, end_time_90k: 7, total_duration_90k: 3 };
    assert_eq!(
        day.serialize(),
        object(vec![("startTime90k", num(-5)), ("endTime90k", num(7)), ("totalDuration90k", num(3))])
    );
}

#[test]
fn session_csrf_is_base64_of_the_hash() {
    let session = Session { username: "alice".to_string(), csrf: SessionHash([0u8; 16]) };
    let doc = session.serialize();
    assert_eq!(keys(&doc), vec!["username", "csrf"]);
    assert_eq!(doc.get("username"), Some(&text("alice")));
    let csrf = match doc.get("csrf") {
        Some(Value::Str(s)) => s.clone(),
        other => panic!("csrf is {:?}", other),
    };
    assert_eq!(csrf, "AAAAAAAAAAAAAAAAAAAAAA");
    assert_eq!(csrf.len(), 22);
    let back = base64::Engine::decode(&base64::engine::general_purpose::STANDARD_NO_PAD, &csrf).unwrap();
    assert_eq!(back, vec![0u8; 16]);
}

#[test]
fn csrf_of_other_bytes() {
    let mut bytes = [0u8; 16];
    for (i, b) in bytes.iter_mut().enumerate() {
        *b = i as u8;
    }
    assert_eq!(Session::serialize_csrf(&SessionHash(bytes)), text("AAECAwQFBgcICQoLDA0ODw"));
    assert_eq!(Session::serialize_csrf(&SessionHash([0xff; 16])), text("/////////////////////w"));
    let mixed = [0xfb, 0xef, 0xbe, 0x00, 0x10, 0x83, 0x10, 0x51, 0x87, 0x20, 0x92, 0x8b, 0x30, 0xd3, 0x8f, 0x41];
    let v = Session::serialize_csrf(&SessionHash(mixed));
    let s = match &v { Value::Str(s) => s.clone(), _ => panic!() };
    assert_eq!(s, "++++ABCDEFGHIJKLMNOPQQ");
    let back = base64::Engine::decode(&base64::engine::general_purpose::STANDARD_NO_PAD, &s).unwrap();
    assert_eq!(back, mixed.to_vec());
}

#[test]
fn uuid_is_rendered_hyphenated_in_lower_case() {
    let id = "67e55044-10b1-426f-9247-bb680e5fe0c8";
    let c = camera(1, "67E55044-10B1-426F-9247-BB680E5FE0C8", "front", [None, None]);
    let db = snapshot(vec![], vec![]);
    let doc = Camera::wrap(&c, &db, false).unwrap().serialize();
    assert_eq!(doc.get("uuid"), Some(&text(id)));
    assert_eq!(doc.get("streams"), Some(&object(vec![])));
}

#[test]
fn uuid_digits_follow_the_bytes() {
    let c = db::Camera {
        id: 1,
        uuid: [
            0x01, 0x23, 0x45, 0x67, 0x89, 0xab, 0xcd, 0xef, 0xfe, 0xdc, 0xba, 0x98, 0x76, 0x54,
            0x32, 0x10,
        ],
        short_name: "front".to_string(),
        description: String::new(),
        streams: [None, None],
    };
    let db = snapshot(vec![], vec![]);
    let doc = Camera::wrap(&c, &db, true).unwrap().serialize();
    assert_eq!(doc.get("uuid"), Some(&text("01234567-89ab-cdef-fedc-ba9876543210")));
    assert_eq!(doc.get("description"), Some(&text("")));
}

#[test]
fn top_level_lists_cameras_in_id_order() {
    let db = snapshot(
        vec![
            camera(5, FRONT, "five", [None, None]),
            camera(2, FRONT, "two", [Some(10), None]),
            camera(9, FRONT, "nine", [None, None]),
        ],
        vec![stream(10, 1000, None, days(vec![(key(2019, 1, 15, 0), 1)]))],
    );
    let top = TopLevel { time_zone_name: "America/Los_Angeles", cameras: (&db, true), session: None };
    let doc = top.serialize().unwrap();
    assert_eq!(keys(&doc), vec!["timeZoneName", "cameras"]);
    assert_eq!(doc.get("timeZoneName"), Some(&text("America/Los_Angeles")));
    let names: Vec<&Value> = match doc.get("cameras") {
        Some(Value::List(items)) => items.iter().map(|c| c.get("shortName").unwrap()).collect(),
        other => panic!("cameras is {:?}", other),
    };
    assert_eq!(names, vec![&text("two"), &text("five"), &text("nine")]);
    let list = TopLevel::serialize_cameras(&(&db, true)).unwrap();
    assert_eq!(Some(&list), doc.get("cameras"));
    let two = match &list { Value::List(items) => &items[0], _ => panic!() };
    assert_eq!(keys(two.get("streams").unwrap().get("main").unwrap().get("days").unwrap()), vec!["2019-01-15"]);
    let without = TopLevel::serialize_cameras(&(&db, false)).unwrap();
    let two = match &without { Value::List(items) => &items[0], _ => panic!() };
    assert!(two.get("streams").unwrap().get("main").unwrap().get("days").is_none());
}

#[test]
fn top_level_session_only_when_supplied() {
    let db = snapshot(vec![], vec![]);
    let top = TopLevel {
        time_zone_name: "UTC",
        cameras: (&db, false),
        session: Some(Session { username: "alice".to_string(), csrf: SessionHash([0u8; 16]) }),
    };
    let doc = top.serialize().unwrap();
    assert_eq!(
        doc,
        object(vec![
            ("timeZoneName", text("UTC")),
            ("cameras", Value::List(vec![])),
            ("session", object(vec![("username", text("alice")), ("csrf", text("AAAAAAAAAAAAAAAAAAAAAA"))])),
        ])
    );
    let top = TopLevel { time_zone_name: "UTC", cameras: (&db, false), session: None };
    assert!(top.serialize().unwrap().get("session").is_none());
}

#[test]
fn top_level_fails_whole_on_a_missing_stream() {
    let db = snapshot(
        vec![
            camera(1, FRONT, "ok", [Some(10), None]),
            camera(2, FRONT, "second slot lost", [Some(10), Some(77)]),
            camera(3, FRONT, "first slot lost", [Some(88), None]),
        ],
        vec![stream(10, 1000, None, days(vec![]))],
    );
    let top = TopLevel { time_zone_name: "UTC", cameras: (&db, false), session: None };
    assert_eq!(top.serialize(), Err(Error::MissingStream(77)));
    assert_eq!(TopLevel::serialize_cameras(&(&db, true)), Err(Error::MissingStream(77)));
}
