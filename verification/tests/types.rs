use broken_antler::populators::{SearchResultEntry, SearchResultsPopulator, SearchResultsTypePopulator};
use broken_antler::types::{NaiveDateRkyv, SetName, Show, ShowRkyv, Venue};
use chrono::NaiveDate;

#[test]
fn date_parts_of_a_chrono_date() {
    let d = NaiveDate::from_ymd_opt(2010, 10, 10).unwrap();
    assert_eq!(NaiveDateRkyv::from(d), NaiveDateRkyv { month: 10, year: 2010, day: 10 });
    let d = NaiveDate::from_ymd_opt(1983, 12, 2).unwrap();
    assert_eq!(NaiveDateRkyv::from(d), NaiveDateRkyv { month: 12, year: 1983, day: 2 });
}

#[test]
fn chrono_date_of_date_parts() {
    let parts = NaiveDateRkyv { month: 2, year: 2000, day: 29 };
    assert_eq!(parts.to_naive_date(), NaiveDate::from_ymd_opt(2000, 2, 29).unwrap());
}

#[test]
fn show_round_trip_through_plain_dates() {
    let show = Show { id: 1, date: NaiveDate::from_ymd_opt(1984, 12, 1).unwrap(), venue_id: 2 };
    let plain = ShowRkyv::from(show);
    assert_eq!(plain.date, NaiveDateRkyv { month: 12, year: 1984, day: 1 });
    let back = Show::from(plain);
    assert_eq!(back.date, show.date);
    assert_eq!(back.id, 1);
    assert_eq!(back.venue_id, 2);
    assert_eq!(ShowRkyv::from_ref(&show).date, plain.date);
}

#[test]
fn set_names_display_as_variant_names() {
    assert_eq!(SetName::Set1.to_string(), "Set1");
    assert_eq!(SetName::Encore2.to_string(), "Encore2");
    assert_eq!(SetName::PreShow.to_string(), "PreShow");
    assert_eq!(SetName::Unknown.to_string(), "Unknown");
}

#[test]
fn venue_clone_keeps_fields() {
    let v = Venue { id: 3, name: "Nectar's".to_string(), location: Some(geoutils::Location::new(44.47, -73.21)) };
    let c = v.clone();
    assert_eq!(c.id, 3);
    assert_eq!(c.name, "Nectar's");
    assert_eq!(c.location, v.location);
}

#[test]
fn populators_hand_out_types_and_ids() {
    let results = vec![
        SearchResultEntry { type_: "Song".to_string(), id: 9 },
        SearchResultEntry { type_: "Venue".to_string(), id: 4 },
    ];
    assert_eq!(SearchResultsTypePopulator::new().populate(&results), vec!["Song".to_string(), "Venue".to_string()]);
    assert_eq!(SearchResultsPopulator::new().populate(&results), vec![("id", 9), ("id", 4)]);
}
