use broken_antler::seed_parts::{insert_in_order, part_file_stem, part_files_in_order};
use broken_antler::text::compare_texts;

fn names(list: &[&str]) -> Vec<String> {
    list.iter().map(|name| name.to_string()).collect()
}

#[test]
fn parts_are_selected_once_in_name_order() {
    let files = names(&[
        "tracks-2.json",
        "shows.json",
        "tracks-10.json",
        "tracks.json",
        "tracks-1.json",
        "tracks-x.json",
        "tracks-1.json",
        "venues-1.json",
        "tracks-3.json.bak",
    ]);
    let parts = part_files_in_order("tracks", &files).unwrap();
    assert_eq!(
        parts,
        names(&["tracks-1.json", "tracks-10.json", "tracks-2.json", "tracks-3.json.bak"])
    );
}

#[test]
fn no_parts_among_other_files() {
    let files = names(&["shows.json", "venues.json"]);
    assert_eq!(part_files_in_order("tracks", &files), Some(vec![]));
    assert_eq!(part_files_in_order("tracks", &vec![]), Some(vec![]));
}

#[test]
fn root_that_is_not_a_valid_expression() {
    let files = names(&["(-1.json"]);
    assert_eq!(part_files_in_order("(", &files), None);
    assert_eq!(part_files_in_order("(", &vec![]), None);
}

#[test]
fn part_stems() {
    assert_eq!(part_file_stem("tracks-1.json"), "tracks-1");
    assert_eq!(part_file_stem("a.b.c"), "a");
    assert_eq!(part_file_stem("no_extension"), "no_extension");
    assert_eq!(part_file_stem(".hidden"), "");
    assert_eq!(part_file_stem(""), "");
}

#[test]
fn texts_compare_by_code_point() {
    assert!(compare_texts("abc", "abd") < 0);
    assert!(compare_texts("abd", "abc") > 0);
    assert_eq!(compare_texts("abc", "abc"), 0);
    assert!(compare_texts("ab", "abc") < 0);
    assert!(compare_texts("", "a") < 0);
    assert!(compare_texts("Z", "a") < 0);
    assert!(compare_texts("é", "z") > 0);
}

#[test]
fn insertion_keeps_order_and_skips_duplicates() {
    let mut list = names(&["b", "d"]);
    insert_in_order(&mut list, "c".to_string());
    insert_in_order(&mut list, "a".to_string());
    insert_in_order(&mut list, "e".to_string());
    insert_in_order(&mut list, "c".to_string());
    assert_eq!(list, names(&["a", "b", "c", "d", "e"]));
}

#[test]
fn roots_without_metacharacters() {
    let files = names(&["my tracks-2.json", "my tracks-1.json", "mytracks-1.json"]);
    assert_eq!(
        part_files_in_order("my tracks", &files),
        Some(names(&["my tracks-1.json", "my tracks-2.json"]))
    );
    let files = names(&["pistes-é-1.json"]);
    assert_eq!(part_files_in_order("pistes-é", &files), Some(names(&["pistes-é-1.json"])));
    assert!(part_files_in_order(&"x".repeat(10000), &vec![]).is_some());
}
