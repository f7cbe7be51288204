use std::collections::HashMap;

use broken_antler::event::Event;
use broken_antler::seed_files::{
    get_song_performances_by_set, in_batches, invert_show_original_ids, json_seed_file_directory,
    json_seed_file_path, push_path, set_ids_by_show_and_name, sets_for_song_performances,
    show_original_ids, song_performance_events, workspace_root_directory, SetIds, ShowJson,
    ShowOnlyOriginalId, SongOnlyId, SongPerformanceJson, VenueOnlySlug,
};
use broken_antler::types::{SetName, ShowSet, SongPerformance};
use chrono::NaiveDate;

fn performance(id: u128, show: u32, set_name: SetName, songs: &[u128]) -> SongPerformanceJson {
    SongPerformanceJson {
        id,
        set_name,
        show: ShowOnlyOriginalId { original_id: show },
        songs: songs.iter().map(|&id| SongOnlyId { id }).collect(),
    }
}

fn sample_performances() -> Vec<SongPerformanceJson> {
    vec![
        performance(1, 10, SetName::Set1, &[100]),
        performance(2, 10, SetName::Set2, &[101, 102]),
        performance(3, 20, SetName::Set1, &[103]),
        performance(4, 10, SetName::Set1, &[104]),
        performance(5, 20, SetName::Encore, &[]),
    ]
}

#[test]
fn seed_file_locations() {
    assert_eq!(workspace_root_directory("/work/xtask"), "/work/xtask/..");
    assert_eq!(json_seed_file_directory("/work/xtask"), "/work/xtask/../phishin-seed");
    assert_eq!(json_seed_file_path("/work/xtask", "shows"), "/work/xtask/../phishin-seed/shows.json");
    assert_eq!(json_seed_file_path("/work/xtask/", "tracks"), "/work/xtask/../phishin-seed/tracks.json");
}

#[test]
fn pushing_paths() {
    let mut p = "/a".to_string();
    push_path(&mut p, "b");
    assert_eq!(p, "/a/b");
    push_path(&mut p, "/etc");
    assert_eq!(p, "/etc");
    let mut q = String::new();
    push_path(&mut q, "x");
    assert_eq!(q, "x");
    let mut r = "dir/".to_string();
    push_path(&mut r, "f");
    assert_eq!(r, "dir/f");
}

#[test]
fn grouping_by_show_then_set() {
    let items = sample_performances();
    let groups = get_song_performances_by_set(&items);
    let shape: Vec<(u32, Vec<(SetName, Vec<u128>)>)> = groups
        .iter()
        .map(|(show, sets)| {
            (*show, sets.iter().map(|(name, ps)| (*name, ps.iter().map(|p| p.id).collect())).collect())
        })
        .collect();
    assert_eq!(
        shape,
        vec![
            (10, vec![(SetName::Set1, vec![1, 4]), (SetName::Set2, vec![2])]),
            (20, vec![(SetName::Set1, vec![3]), (SetName::Encore, vec![5])]),
        ]
    );
}

#[test]
fn grouping_nothing() {
    assert!(get_song_performances_by_set(&[]).is_empty());
}

#[test]
fn show_ids_by_original_id() {
    let d = NaiveDate::from_ymd_opt(1990, 1, 1).unwrap();
    let shows = vec![
        ShowJson { id: 500, original_id: 10, date: d, venue: VenueOnlySlug { slug: "a".to_string() } },
        ShowJson { id: 600, original_id: 20, date: d, venue: VenueOnlySlug { slug: "b".to_string() } },
    ];
    let ids = show_original_ids(&shows);
    assert_eq!(ids.get(&10), Some(&500));
    assert_eq!(ids.get(&20), Some(&600));
    let back = invert_show_original_ids(&ids);
    assert_eq!(back.get(&500), Some(&10));
    assert_eq!(back.get(&600), Some(&20));
    assert_eq!(back.len(), 2);
}

#[test]
fn processing_a_show_finds_its_venue() {
    let d = NaiveDate::from_ymd_opt(1990, 1, 1).unwrap();
    let slugs = vec![("nectars".to_string(), 1u128), ("msg".to_string(), 2), ("nectars".to_string(), 3)];
    let show = ShowJson { id: 9, original_id: 1, date: d, venue: VenueOnlySlug { slug: "nectars".to_string() } };
    let processed = show.process(&slugs);
    assert_eq!(processed.id, 9);
    assert_eq!(processed.date, d);
    assert_eq!(processed.venue_id, 3);
}

#[test]
fn one_set_per_show_and_set_name() {
    let items = sample_performances();
    let groups = get_song_performances_by_set(&items);
    let mut ids = HashMap::new();
    ids.insert(10u32, 1000u128);
    ids.insert(20u32, 2000u128);
    let sets = sets_for_song_performances(&groups, &ids);
    let made: Vec<(u128, SetName)> = sets.iter().map(|s| (s.show_id, s.set_name)).collect();
    assert_eq!(
        made,
        vec![(1000, SetName::Set1), (1000, SetName::Set2), (2000, SetName::Set1), (2000, SetName::Encore)]
    );
    assert_ne!(sets[0].id, sets[1].id);
    for set in &sets {
        assert_eq!((set.id >> 76) & 0xf, 4);
        assert_eq!((set.id >> 62) & 0x3, 2);
        assert_eq!(uuid::Uuid::from_u128(set.id).get_version_num(), 4);
    }
}

#[test]
fn set_ids_by_show_and_set_name() {
    let mut back = HashMap::new();
    back.insert(1000u128, 10u32);
    back.insert(2000u128, 20u32);
    let sets = vec![
        ShowSet { id: 7, show_id: 1000, set_name: SetName::Set1 },
        ShowSet { id: 8, show_id: 2000, set_name: SetName::Set1 },
        ShowSet { id: 9, show_id: 1000, set_name: SetName::Set2 },
    ];
    let ids = set_ids_by_show_and_name(&sets, &back);
    assert_eq!(ids.get(10, SetName::Set1), Some(7));
    assert_eq!(ids.get(20, SetName::Set1), Some(8));
    assert_eq!(ids.get(10, SetName::Set2), Some(9));
    assert_eq!(ids.get(20, SetName::Set2), None);
    let mut fresh = SetIds::new();
    fresh.insert(u32::MAX, SetName::Unknown, 1);
    fresh.insert(u32::MAX, SetName::Set1, 2);
    assert_eq!(fresh.get(u32::MAX, SetName::Unknown), Some(1));
    assert_eq!(fresh.get(u32::MAX, SetName::Set1), Some(2));
}

#[test]
fn events_for_song_performances() {
    let items = sample_performances();
    let groups = get_song_performances_by_set(&items);
    let mut ids = SetIds::new();
    ids.insert(10, SetName::Set1, 71);
    ids.insert(10, SetName::Set2, 72);
    ids.insert(20, SetName::Set1, 73);
    ids.insert(20, SetName::Encore, 74);
    let events = song_performance_events(&groups, &ids);
    let performances: Vec<(u128, u128, u128)> = events
        .iter()
        .map(|e| match e {
            Event::InsertSongPerformance(SongPerformance { id, set_id, song_id }) => (*id, *set_id, *song_id),
            other => panic!("unexpected {other:?}"),
        })
        .collect();
    assert_eq!(
        performances,
        vec![(1, 71, 100), (4, 71, 104), (2, 72, 101), (2, 72, 102), (3, 73, 103)]
    );
}

#[test]
fn batches_keep_order_and_size() {
    let batches = in_batches(vec![1u32, 2, 3, 4, 5], 2);
    assert_eq!(batches, vec![vec![1, 2], vec![3, 4], vec![5]]);
    let exact = in_batches(vec![1u32, 2, 3, 4], 2);
    assert_eq!(exact, vec![vec![1, 2], vec![3, 4]]);
    let empty: Vec<Vec<u32>> = in_batches(Vec::new(), 1000);
    assert!(empty.is_empty());
    let one = in_batches((0u32..1500).collect(), 1000);
    assert_eq!(one.len(), 2);
    assert_eq!(one[0].len(), 1000);
    assert_eq!(one[1].len(), 500);
    assert_eq!(one.concat(), (0u32..1500).collect::<Vec<_>>());
}
