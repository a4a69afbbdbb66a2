use nvr_json::json::{DecodeError, ListRecordings, Recording, SampleFileDirPath};
use nvr_json::value::Value;

fn num(n: i64) -> Value {
    Value::Int(n)
}

fn text(s: &str) -> Value {
    Value::Str(s.to_string())
}

fn object(members: Vec<(&str, Value)>) -> Value {
    Value::Object(members.into_iter().map(|(k, v)| (k.to_string(), v)).collect())
}

fn keys(v: &Value) -> Vec<String> {
    match v {
        Value::Object(members) => members.iter().map(|(k, _)| k.clone()).collect(),
        _ => panic!("not an object: {:?}", v),
    }
}

fn recording() -> Recording {
    Recording {
        start_time_90k: 130_000_000,
        end_time_90k: 130_090_000,
        sample_file_bytes: 123_456,
        video_samples: 30,
        video_sample_entry_sha1: "81710c9c51a02cc95439caa8dd3bc12b77ffe767".to_string(),
        start_id: 1,
        open_id: 4_000_000_000,
        first_uncommitted: None,
        end_id: None,
        video_sample_entry_width: 1920,
        video_sample_entry_height: 1080,
        growing: false,
    }
}

#[test]
fn recording_leaves_out_absent_fields() {
    assert_eq!(
        recording().serialize(),
        object(vec![
            ("startTime90k", num(130_000_000)),
            ("endTime90k", num(130_090_000)),
            ("sampleFileBytes", num(123_456)),
            ("videoSamples", num(30)),
            ("videoSampleEntrySha1", text("81710c9c51a02cc95439caa8dd3bc12b77ffe767")),
            ("startId", num(1)),
            ("openId", num(4_000_000_000)),
            ("videoSampleEntryWidth", num(1920)),
            ("videoSampleEntryHeight", num(1080)),
        ])
    );
}

#[test]
fn recording_with_every_field() {
    let r = Recording { first_uncommitted: Some(5), end_id: Some(-3), growing: true, ..recording() };
    let doc = r.serialize();
    assert_eq!(
        keys(&doc),
        vec![
            "startTime90k",
            "endTime90k",
            "sampleFileBytes",
            "videoSamples",
            "videoSampleEntrySha1",
            "startId",
            "openId",
            "firstUncommitted",
            "endId",
            "videoSampleEntryWidth",
            "videoSampleEntryHeight",
            "growing",
        ]
    );
    assert_eq!(doc.get("firstUncommitted"), Some(&num(5)));
    assert_eq!(doc.get("endId"), Some(&num(-3)));
    assert_eq!(doc.get("growing"), Some(&Value::Bool(true)));
}

#[test]
fn growing_is_written_only_when_true() {
    let still = Recording { growing: true, ..recording() };
    assert_eq!(still.serialize().get("growing"), Some(&Value::Bool(true)));
    let done = Recording { growing: false, end_id: Some(2), ..recording() };
    let doc = done.serialize();
    assert_eq!(doc.get("growing"), None);
    assert!(!keys(&doc).contains(&"growing".to_string()));
    assert_eq!(doc.get("endId"), Some(&num(2)));
    assert_eq!(doc.get("firstUncommitted"), None);
}

#[test]
fn list_of_recordings_keeps_their_order() {
    let list = ListRecordings {
        recordings: vec![
            Recording { start_id: 2, ..recording() },
            Recording { start_id: 1, growing: true, ..recording() },
        ],
    };
    let doc = list.serialize();
    assert_eq!(keys(&doc), vec!["recordings"]);
    match doc.get("recordings") {
        Some(Value::List(items)) => {
            assert_eq!(items.len(), 2);
            assert_eq!(items[0], Recording { start_id: 2, ..recording() }.serialize());
            assert_eq!(items[1].get("startId"), Some(&num(1)));
            assert_eq!(items[1].get("growing"), Some(&Value::Bool(true)));
        }
        other => panic!("recordings is {:?}", other),
    }
    let empty = ListRecordings { recordings: vec![] };
    assert_eq!(empty.serialize(), object(vec![("recordings", Value::List(vec![]))]));
}

/// The document that the `serde_json` crate reads from a body.
fn parse(body: &str) -> Value {
    fn convert(v: &serde_json::Value) -> Value {
        match v {
            serde_json::Value::Bool(b) => Value::Bool(*b),
            serde_json::Value::Number(n) => Value::Int(n.as_i64().unwrap()),
            serde_json::Value::String(s) => Value::Str(s.clone()),
            serde_json::Value::Array(items) => Value::List(items.iter().map(convert).collect()),
            serde_json::Value::Object(map) => {
                Value::Object(map.iter().map(|(k, v)| (k.clone(), convert(v))).collect())
            }
            serde_json::Value::Null => panic!("null in {:?}", v),
        }
    }
    convert(&serde_json::from_str::<serde_json::Value>(body).unwrap())
}

#[test]
fn path_round_trip() {
    let body = "{\"path\":\"/mnt/nvr\"}";
    let decoded = SampleFileDirPath::deserialize(&parse(body)).unwrap();
    assert_eq!(decoded.path, "/mnt/nvr");
    let encoded = decoded.serialize();
    assert_eq!(encoded, object(vec![("path", text("/mnt/nvr"))]));
    assert_eq!(encoded, parse(body));
    assert_eq!(SampleFileDirPath::deserialize(&encoded).unwrap().path, "/mnt/nvr");
}

#[test]
fn path_passes_over_other_members() {
    let v = parse("{\"a\":1,\"path\":\"/x\",\"z\":[true]}");
    assert_eq!(SampleFileDirPath::deserialize(&v).unwrap().path, "/x");
}

#[test]
fn path_decode_errors() {
    let decode = |v: Value| SampleFileDirPath::deserialize(&v).map(|p| p.path);
    assert_eq!(decode(text("/mnt/nvr")), Err(DecodeError::InvalidType));
    assert_eq!(decode(Value::List(vec![text("/mnt/nvr")])), Err(DecodeError::InvalidType));
    assert_eq!(decode(object(vec![])), Err(DecodeError::MissingField));
    assert_eq!(decode(object(vec![("Path", text("/x"))])), Err(DecodeError::MissingField));
    assert_eq!(decode(object(vec![("path", num(3))])), Err(DecodeError::InvalidType));
    assert_eq!(
        decode(object(vec![("path", text("/x")), ("path", text("/y"))])),
        Err(DecodeError::DuplicateField)
    );
    assert_eq!(
        decode(object(vec![("path", text("/x")), ("q", num(1)), ("path", num(2))])),
        Err(DecodeError::DuplicateField)
    );
    assert_eq!(
        decode(object(vec![("path", num(2)), ("path", text("/x"))])),
        Err(DecodeError::InvalidType)
    );
}

#[test]
fn value_get_finds_the_first_member() {
    let v = object(vec![("a", num(1)), ("b", num(2)), ("a", num(3))]);
    assert_eq!(v.get("a"), Some(&num(1)));
    assert_eq!(v.get("b"), Some(&num(2)));
    assert_eq!(v.get("c"), None);
    assert_eq!(num(1).get("a"), None);
    assert_eq!(Value::string("x"), text("x"));
    assert_eq!(Value::list(vec![num(1)]), Value::List(vec![num(1)]));
    assert_eq!(Value::object(vec![("k".to_string(), num(1))]), object(vec![("k", num(1))]));
}
