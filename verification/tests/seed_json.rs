use broken_antler::seed_json::{
    add_record_ids, add_song_ids, add_track_song_ids, concatenated_parts_text, join_parts, nested_list,
    parse_json_text, pretty_json_text, records_with_ids_text, tracks_with_song_ids_text, JsonValue,
};

fn model(value: serde_json::Value) -> JsonValue {
    match value {
        serde_json::Value::Null => JsonValue::Null,
        serde_json::Value::Bool(b) => JsonValue::Bool(b),
        serde_json::Value::Number(n) => JsonValue::Number(n.to_string()),
        serde_json::Value::String(s) => JsonValue::Str(s),
        serde_json::Value::Array(items) => JsonValue::Array(items.into_iter().map(model).collect()),
        serde_json::Value::Object(members) => {
            JsonValue::Object(members.into_iter().map(|(k, v)| (k, model(v))).collect())
        }
    }
}

fn plain(value: JsonValue) -> serde_json::Value {
    match value {
        JsonValue::Null => serde_json::Value::Null,
        JsonValue::Bool(b) => serde_json::Value::Bool(b),
        JsonValue::Number(n) => serde_json::Value::Number(n.parse().unwrap()),
        JsonValue::Str(s) => serde_json::Value::String(s),
        JsonValue::Array(items) => serde_json::Value::Array(items.into_iter().map(plain).collect()),
        JsonValue::Object(members) => {
            serde_json::Value::Object(members.into_iter().map(|(k, v)| (k, plain(v))).collect())
        }
    }
}

fn doc(text: &str) -> JsonValue {
    model(serde_json::from_str(text).unwrap())
}

fn value(text: &str) -> serde_json::Value {
    serde_json::from_str(text).unwrap()
}

#[test]
fn nested_list_is_taken_out() {
    let r = nested_list(doc(r#"{"songs": [1, 2], "total": 2}"#), "songs").unwrap();
    assert_eq!(plain(r), value("[1, 2]"));
    assert!(nested_list(doc(r#"{"venues": []}"#), "songs").is_none());
    assert!(nested_list(doc("[1, 2]"), "songs").is_none());
}

#[test]
fn parts_are_joined_in_order() {
    let parts = vec![doc("[1, 2]"), doc("[]"), doc(r#"[{"a": 3}]"#)];
    assert_eq!(plain(join_parts(parts).unwrap()), value(r#"[1, 2, {"a": 3}]"#));
    assert_eq!(plain(join_parts(vec![]).unwrap()), value("[]"));
    assert!(join_parts(vec![doc("[1]"), doc(r#"{"a": 1}"#)]).is_none());
}

#[test]
fn songs_take_ids_in_order() {
    let tracks = doc(
        r#"[{"title": "a", "songs": [{"slug": "x"}, {"slug": "y"}]}, {"songs": []}, {"songs": [{"slug": "z"}]}]"#,
    );
    let ids = vec!["i1".to_string(), "i2".to_string(), "i3".to_string(), "spare".to_string()];
    let r = add_song_ids(tracks, &ids).unwrap();
    assert_eq!(
        plain(r),
        value(
            r#"[{"title": "a", "songs": [{"slug": "x", "id": "i1"}, {"slug": "y", "id": "i2"}]}, {"songs": []}, {"songs": [{"slug": "z", "id": "i3"}]}]"#
        )
    );
}

#[test]
fn songs_that_cannot_take_ids() {
    let two = vec!["i1".to_string(), "i2".to_string()];
    assert!(add_song_ids(doc(r#"[{"songs": [{"id": "old"}]}]"#), &two).is_none());
    assert!(add_song_ids(doc(r#"[{"tracks": []}]"#), &two).is_none());
    assert!(add_song_ids(doc(r#"[{"songs": [1]}]"#), &two).is_none());
    assert!(add_song_ids(doc(r#"{"songs": []}"#), &two).is_none());
    assert!(add_song_ids(doc(r#"[{"songs": [{}, {}, {}]}]"#), &two).is_none());
}

#[test]
fn fresh_random_ids_for_every_song() {
    let tracks = doc(r#"[{"songs": [{"slug": "x"}, {"slug": "y"}]}, {"songs": [{"slug": "z"}]}]"#);
    let r = plain(add_track_song_ids(tracks).unwrap());
    let mut seen = Vec::new();
    for track in r.as_array().unwrap() {
        for song in track["songs"].as_array().unwrap() {
            let id = song["id"].as_str().unwrap().to_string();
            assert_eq!(id.len(), 36);
            assert!(uuid::Uuid::parse_str(&id).is_ok());
            assert!(!seen.contains(&id));
            seen.push(id);
        }
    }
    assert_eq!(seen.len(), 3);
    assert!(add_track_song_ids(doc(r#"[{"songs": [{"id": "old"}]}]"#)).is_none());
}

#[test]
fn records_take_fresh_ids() {
    let document = doc(r#"{"venues": [{"name": "a"}, {"name": "b"}], "total": 2}"#);
    let r = plain(add_record_ids(document, "venues").unwrap());
    let records = r.as_array().unwrap();
    assert_eq!(records.len(), 2);
    assert_eq!(records[0]["name"], value(r#""a""#));
    assert_eq!(records[1]["name"], value(r#""b""#));
    let first = uuid::Uuid::parse_str(records[0]["id"].as_str().unwrap()).unwrap();
    let second = uuid::Uuid::parse_str(records[1]["id"].as_str().unwrap()).unwrap();
    assert_eq!(first.get_version_num(), 4);
    let text = records[0]["id"].as_str().unwrap();
    assert_eq!(text, first.hyphenated().to_string());
    assert_eq!(text, text.to_lowercase());
    assert_eq!(text.len(), 36);
    for position in [8, 13, 18, 23] {
        assert_eq!(text.as_bytes()[position], b'-');
    }
    assert_ne!(first, second);
    assert!(add_record_ids(doc(r#"{"venues": [{"id": "x"}]}"#), "venues").is_none());
    assert!(add_record_ids(doc(r#"{"venues": [1]}"#), "venues").is_none());
    assert!(add_record_ids(doc(r#"{"songs": []}"#), "venues").is_none());
    assert_eq!(plain(add_record_ids(doc(r#"{"venues": []}"#), "venues").unwrap()), value("[]"));
}

#[test]
fn json_text_is_read_and_written() {
    let document = parse_json_text(r#"{"b": [1, 2.5, "x"], "a": null, "c": true}"#).unwrap();
    assert_eq!(plain(parse_json_text(&pretty_json_text(&document)).unwrap()), value(r#"{"a": null, "b": [1, 2.5, "x"], "c": true}"#));
    assert_eq!(pretty_json_text(&doc("[1, 2]")), "[\n  1,\n  2\n]");
    assert!(parse_json_text("[1, ").is_none());
    assert!(parse_json_text("").is_none());
    match parse_json_text("12") {
        Some(JsonValue::Number(n)) => assert_eq!(n, "12"),
        other => panic!("unexpected {other:?}"),
    }
}

#[test]
fn part_texts_are_concatenated() {
    let texts = vec!["[1, 2]".to_string(), "[]".to_string(), r#"[{"a": 3}]"#.to_string()];
    let joined = concatenated_parts_text(&texts).unwrap();
    assert_eq!(value(&joined), value(r#"[1, 2, {"a": 3}]"#));
    assert_eq!(joined, serde_json::to_string_pretty(&value(r#"[1, 2, {"a": 3}]"#)).unwrap());
    assert!(concatenated_parts_text(&vec!["[1]".to_string(), "{}".to_string()]).is_none());
    assert!(concatenated_parts_text(&vec!["[1".to_string()]).is_none());
}

#[test]
fn record_and_song_id_texts() {
    let text = records_with_ids_text(r#"{"venues": [{"name": "a"}]}"#, "venues").unwrap();
    let records = value(&text);
    assert_eq!(records[0]["name"], value(r#""a""#));
    assert_eq!(uuid::Uuid::parse_str(records[0]["id"].as_str().unwrap()).unwrap().get_version_num(), 4);
    assert!(records_with_ids_text("not json", "venues").is_none());
    assert!(records_with_ids_text(r#"{"venues": [{"id": 1}]}"#, "venues").is_none());
    let tracks = tracks_with_song_ids_text(r#"[{"songs": [{"slug": "x"}]}]"#).unwrap();
    let tracks = value(&tracks);
    assert_eq!(tracks[0]["songs"][0]["slug"], value(r#""x""#));
    assert_eq!(tracks[0]["songs"][0]["id"].as_str().unwrap().len(), 36);
    assert!(tracks_with_song_ids_text(r#"[{"songs": [{"id": "old"}]}]"#).is_none());
}
