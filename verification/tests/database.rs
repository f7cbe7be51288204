use broken_antler::columns::{ColumnToken, ColumnValue, DependencyType, WhereClause};
use broken_antler::database::{
    database_from_events, Database, DatabaseBuilder, DatabaseCobbler, SearchResult, SetsCobbler,
    ShowsCobbler, SongsCobbler, VenuesCobbler,
};
use broken_antler::event::Event;
use broken_antler::types::{SetName, Show, ShowSet, Song, SongPerformance, Venue};
use chrono::NaiveDate;

fn venue(id: u128, name: &str) -> Venue {
    Venue { id, name: name.to_string(), location: None }
}

fn song(id: u128, title: &str) -> Song {
    Song { id, title: title.to_string() }
}

fn show(id: u128, venue_id: u128, y: i32, m: u32, d: u32) -> Show {
    Show { id, date: NaiveDate::from_ymd_opt(y, m, d).unwrap(), venue_id }
}

fn sample_events() -> Vec<Event> {
    vec![
        Event::InsertVenue(venue(1, "13x13 Club")),
        Event::InsertVenue(venue(2, "Nectar's")),
        Event::InsertSong(song(10, "Run Like an Antelope")),
        Event::InsertShow(show(100, 2, 1983, 12, 2)),
        Event::InsertShow(show(101, 1, 1984, 12, 1)),
        Event::InsertShow(show(102, 2, 2010, 10, 10)),
        Event::InsertSet(ShowSet { id: 1000, show_id: 101, set_name: SetName::Set1 }),
        Event::InsertSongPerformance(SongPerformance { id: 5000, set_id: 1000, song_id: 10 }),
        Event::InsertSong(song(11, "Harry Hood")),
    ]
}

fn ids(values: &[ColumnValue]) -> Vec<u128> {
    values
        .iter()
        .map(|v| match v {
            ColumnValue::Id(id) => *id,
            other => panic!("not an id: {other:?}"),
        })
        .collect()
}

#[test]
fn events_are_collected_by_kind_in_order() {
    let db = database_from_events(&sample_events());
    assert_eq!(db.venues.iter().map(|v| v.id).collect::<Vec<_>>(), vec![1, 2]);
    assert_eq!(db.songs.iter().map(|s| s.id).collect::<Vec<_>>(), vec![10, 11]);
    assert_eq!(db.shows.iter().map(|s| s.id).collect::<Vec<_>>(), vec![100, 101, 102]);
    assert_eq!(db.sets.iter().map(|s| s.id).collect::<Vec<_>>(), vec![1000]);
    assert_eq!(db.venues[0].name, "13x13 Club");
}

#[test]
fn collecting_in_two_batches_is_collecting_at_once() {
    let events = sample_events();
    let mut cobbler = DatabaseCobbler::default();
    for event in &events[..4] {
        cobbler.accept_next(event);
    }
    for event in &events[4..] {
        cobbler.accept_next(event);
    }
    let batched = Database::from(cobbler);
    let at_once = database_from_events(&events);
    assert_eq!(
        batched.shows.iter().map(|s| s.id).collect::<Vec<_>>(),
        at_once.shows.iter().map(|s| s.id).collect::<Vec<_>>()
    );
    assert_eq!(
        batched.venues.iter().map(|v| v.id).collect::<Vec<_>>(),
        at_once.venues.iter().map(|v| v.id).collect::<Vec<_>>()
    );
}

#[test]
fn single_cobblers_keep_their_kind_only() {
    let events = sample_events();
    let mut venues = VenuesCobbler::default();
    let mut songs = SongsCobbler::default();
    let mut shows = ShowsCobbler::default();
    let mut sets = SetsCobbler::default();
    for event in &events {
        venues.accept_next(event);
        songs.accept_next(event);
        shows.accept_next(event);
        sets.accept_next(event);
    }
    assert_eq!(Vec::<Venue>::from(venues).len(), 2);
    assert_eq!(Vec::<Song>::from(songs).len(), 2);
    assert_eq!(Vec::<Show>::from(shows).len(), 3);
    assert_eq!(Vec::<ShowSet>::from(sets).len(), 1);
}

#[test]
fn lookup_by_id() {
    let db = database_from_events(&sample_events());
    assert_eq!(db.venue_by_id(&2).name, "Nectar's");
    assert_eq!(db.song_by_id(&11).title, "Harry Hood");
    assert_eq!(db.show_by_id(&101).venue_id, 1);
    assert_eq!(db.set_by_id(&1000).show_id, 101);
    assert_eq!(db.venues_by_id.get(&1), Some(&0));
    assert_eq!(db.venues_by_id.get(&3), None);
}

#[test]
fn duplicate_ids_keep_the_later_record() {
    let events = vec![
        Event::InsertVenue(venue(7, "first")),
        Event::InsertVenue(venue(7, "second")),
    ];
    let db = database_from_events(&events);
    assert_eq!(db.venues.len(), 2);
    assert_eq!(db.venues_by_id.get(&7), Some(&1));
    assert_eq!(db.venue_by_id(&7).name, "second");
}

#[test]
fn shows_grouped_by_venue() {
    let db = database_from_events(&sample_events());
    assert_eq!(db.shows_by_venue_id.get(&2), Some(&vec![0, 2]));
    assert_eq!(db.shows_by_venue_id.get(&1), Some(&vec![1]));
    assert_eq!(db.shows_by_venue_id.get(&9), None);
}

#[test]
fn builder_builds_indexes() {
    let db = DatabaseBuilder::default()
        .venues(vec![venue(1, "a")])
        .songs(vec![])
        .shows(vec![show(5, 1, 1999, 12, 31)])
        .sets(vec![])
        .build();
    assert_eq!(db.shows_by_id.get(&5), Some(&0));
    assert_eq!(db.shows_by_venue_id.get(&1), Some(&vec![0]));
    assert!(db.songs_by_id.is_empty());
}

#[test]
fn column_of_one_row() {
    let db = database_from_events(&sample_events());
    match db.get_column_sync("venues", "name", &2, "id", DependencyType::String) {
        ColumnValue::String(name) => assert_eq!(name, "Nectar's"),
        other => panic!("unexpected {other:?}"),
    }
    match db.get_column_sync("songs", "id", &10, "id", DependencyType::ListOfIds) {
        ColumnValue::Id(id) => assert_eq!(id, 10),
        other => panic!("unexpected {other:?}"),
    }
    match db.get_column_sync("shows", "date", &102, "id", DependencyType::Date) {
        ColumnValue::Date(date) => assert_eq!(date, NaiveDate::from_ymd_opt(2010, 10, 10).unwrap()),
        other => panic!("unexpected {other:?}"),
    }
    match db.get_column_sync("shows", "venue_id", &102, "id", DependencyType::Id) {
        ColumnValue::Id(id) => assert_eq!(id, 2),
        other => panic!("unexpected {other:?}"),
    }
}

#[test]
fn column_of_every_row() {
    let db = database_from_events(&sample_events());
    assert_eq!(ids(&db.get_column_list_sync("venues", "id", DependencyType::ListOfIds, &[])), vec![1, 2]);
    assert_eq!(ids(&db.get_column_list_sync("shows", "id", DependencyType::Id, &[])), vec![100, 101, 102]);
    let titles: Vec<String> = db
        .get_column_list_sync("songs", "title", DependencyType::String, &[])
        .into_iter()
        .map(|v| match v {
            ColumnValue::String(s) => s,
            other => panic!("unexpected {other:?}"),
        })
        .collect();
    assert_eq!(titles, vec!["Run Like an Antelope".to_string(), "Harry Hood".to_string()]);
}

#[test]
fn where_on_venue_id_filters_shows() {
    let db = database_from_events(&sample_events());
    let wheres = [WhereClause { column_name: "venue_id".to_string(), value: 2 }];
    let restricted = ids(&db.get_column_list_sync("shows", "id", DependencyType::Id, &wheres));
    assert_eq!(restricted, vec![100, 102]);
    let filtered: Vec<u128> = db.shows.iter().filter(|s| s.venue_id == 2).map(|s| s.id).collect();
    assert_eq!(restricted, filtered);
}

#[test]
fn shows_match_wheres_on_venue() {
    let s = show(1, 2, 2000, 1, 1);
    let on_two = [WhereClause { column_name: "venue_id".to_string(), value: 2 }];
    let on_three = [WhereClause { column_name: "venue_id".to_string(), value: 3 }];
    assert!(s.matches_wheres(&on_two));
    assert!(!s.matches_wheres(&on_three));
    assert!(s.matches_wheres(&[]));
    assert!(venue(1, "a").matches_wheres(&[]));
    assert!(song(1, "a").matches_wheres(&[]));
}

#[test]
fn column_tokens() {
    let entries = Database::column_token_entries();
    assert_eq!(entries.len(), 7);
    assert_eq!(entries[0], ("venues", "id", ColumnToken { table: 0, column: 0 }));
    assert_eq!(entries[3], ("songs", "title", ColumnToken { table: 1, column: 3 }));
    assert_eq!(entries[6], ("shows", "venue_id", ColumnToken { table: 2, column: 6 }));
}

#[test]
fn search_results_from_records() {
    let v = venue(1, "a");
    match SearchResult::from(&v) {
        SearchResult::Venue(found) => assert_eq!(found.id, 1),
        _ => panic!("expected a venue"),
    }
}

#[test]
fn sets_table_is_served() {
    let db = database_from_events(&sample_events());
    assert!(db.can_answer_column_list("sets", "id", DependencyType::ListOfIds, &[]));
    assert_eq!(ids(&db.get_column_list_sync("sets", "id", DependencyType::ListOfIds, &[])), vec![1000]);
    assert_eq!(ids(&db.get_column_list_sync("sets", "show_id", DependencyType::Id, &[])), vec![101]);
    assert!(db.can_answer_column("sets", "show_id", &1000, DependencyType::Id));
    let show_id = match db.get_column_sync("sets", "show_id", &1000, "id", DependencyType::Id) {
        ColumnValue::Id(id) => id,
        other => panic!("unexpected {other:?}"),
    };
    assert_eq!(show_id, 101);
    match db.get_column_sync("shows", "date", &show_id, "id", DependencyType::Date) {
        ColumnValue::Date(date) => assert_eq!(date, NaiveDate::from_ymd_opt(1984, 12, 1).unwrap()),
        other => panic!("unexpected {other:?}"),
    }
    assert!(!db.can_answer_column("sets", "set_name", &1000, DependencyType::String));
    assert!(!db.can_answer_column("sets", "id", &9999, DependencyType::Id));
    let wheres = [WhereClause { column_name: "show_id".to_string(), value: 101 }];
    assert!(!db.can_answer_column_list("sets", "id", DependencyType::Id, &wheres));
}
