use broken_antler::event::{table_id_of, Event, EventKind};
use broken_antler::types::{SetName, ShowSet, Song};

#[test]
fn type_tags() {
    assert_eq!(EventKind::InsertVenue.type_tag(), "INSERT_VENUE");
    assert_eq!(EventKind::InsertSong.type_tag(), "INSERT_SONG");
    assert_eq!(EventKind::InsertShow.type_tag(), "INSERT_SHOW");
    assert_eq!(EventKind::InsertSet.type_tag(), "INSERT_SET");
    assert_eq!(EventKind::InsertSongPerformance.type_tag(), "INSERT_SONG_PERFORMANCE");
}

#[test]
fn type_tag_round_trip() {
    for kind in [
        EventKind::InsertVenue,
        EventKind::InsertSong,
        EventKind::InsertShow,
        EventKind::InsertSet,
        EventKind::InsertSongPerformance,
    ] {
        assert!(EventKind::is_known_type_tag(kind.type_tag()));
        assert_eq!(EventKind::from_type_tag(kind.type_tag()), kind);
    }
}

#[test]
fn unknown_type_tags() {
    assert!(!EventKind::is_known_type_tag("INSERT_TOUR"));
    assert!(!EventKind::is_known_type_tag("insert_venue"));
    assert!(!EventKind::is_known_type_tag(""));
}

#[test]
fn event_id_and_tag() {
    let e = Event::InsertSong(Song { id: 42, title: "Tweezer".to_string() });
    assert_eq!(e.id(), 42);
    assert_eq!(e.type_tag(), "INSERT_SONG");
    assert_eq!(e.kind(), EventKind::InsertSong);
    let e = Event::InsertSet(ShowSet { id: 7, show_id: 8, set_name: SetName::Encore });
    assert_eq!(e.id(), 7);
    assert_eq!(e.type_tag(), "INSERT_SET");
}

#[test]
fn table_ids_are_read_from_text() {
    let text = "550e8400-e29b-41d4-a716-446655440000";
    assert_eq!(table_id_of(text), Some(uuid::Uuid::parse_str(text).unwrap().as_u128()));
    assert_eq!(table_id_of(text), Some(0x550e8400e29b41d4a716446655440000));
    assert_eq!(table_id_of("not a uuid"), None);
    assert_eq!(table_id_of(""), None);
}
