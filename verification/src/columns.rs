//! Answering the query engine's requests for columns of the catalogue.
//!
//! The engine asks for one column of the row with a given id, or for one
//! column of every row of a table, optionally restricted by `where`
//! clauses. Tables are `venues`, `songs`, `shows` and `sets`.
use vstd::prelude::*;
use chrono::NaiveDate;

use crate::database::{
    is_position_index, last_index_map, ids_of, lemma_positions_of, positions_of, venue_ids_of,
    Database,
};
use crate::text::str_equals;
use crate::types::{Show, ShowSet, Song, Venue};

verus! {

broadcast use vstd::std_specs::hash::group_hash_axioms;

/// The type the engine asks a column's value to have.
#[derive(Copy, Clone, Debug, PartialEq, Eq, Structural)]
pub enum DependencyType {
    Id,
    ListOfIds,
    String,
    Date,
}

/// The value of one column of one row.
#[derive(Debug)]
pub enum ColumnValue {
    String(String),
    Id(u128),
    Date(NaiveDate),
}

/// A `where` clause: the column must hold the id `value`.
pub struct WhereClause {
    pub column_name: String,
    pub value: u128,
}

/// Names a table and one of its columns for the engine.
#[derive(Copy, Clone, Debug, PartialEq, Eq, Structural)]
pub struct ColumnToken {
    pub table: u32,
    pub column: u32,
}

pub open spec fn is_id_type(t: DependencyType) -> bool {
    t == DependencyType::Id || t == DependencyType::ListOfIds
}

// ---------------------------------------------------------------------------
// One column of one row.

pub open spec fn venue_column_ok(c: Seq<char>, t: DependencyType) -> bool {
    (c == "name"@ && t == DependencyType::String) || (c == "id"@ && is_id_type(t))
}

pub open spec fn venue_column(v: Venue, c: Seq<char>) -> ColumnValue {
    if c == "name"@ {
        ColumnValue::String(v.name)
    } else {
        ColumnValue::Id(v.id)
    }
}

pub open spec fn song_column_ok(c: Seq<char>, t: DependencyType) -> bool {
    (c == "title"@ && t == DependencyType::String) || (c == "id"@ && is_id_type(t))
}

pub open spec fn song_column(s: Song, c: Seq<char>) -> ColumnValue {
    if c == "title"@ {
        ColumnValue::String(s.title)
    } else {
        ColumnValue::Id(s.id)
    }
}

pub open spec fn show_column_ok(c: Seq<char>, t: DependencyType) -> bool {
    ||| (c == "date"@ && t == DependencyType::Date)
    ||| (c == "id"@ && is_id_type(t))
    ||| (c == "venue_id"@ && is_id_type(t))
}

pub open spec fn show_column(s: Show, c: Seq<char>) -> ColumnValue {
    if c == "date"@ {
        ColumnValue::Date(s.date)
    } else if c == "id"@ {
        ColumnValue::Id(s.id)
    } else {
        ColumnValue::Id(s.venue_id)
    }
}

pub open spec fn set_column_ok(c: Seq<char>, t: DependencyType) -> bool {
    (c == "id"@ || c == "show_id"@) && is_id_type(t)
}

pub open spec fn set_column(s: ShowSet, c: Seq<char>) -> ColumnValue {
    if c == "id"@ {
        ColumnValue::Id(s.id)
    } else {
        ColumnValue::Id(s.show_id)
    }
}

impl Venue {
    /// A column of a venue: `name` as a string, or `id` as an id; the column
    /// and the type asked for must be one of these.
    pub fn get_column(&self, column_name: &str, dependency_type: DependencyType) -> (r: ColumnValue)
        requires
            venue_column_ok(column_name@, dependency_type),
        ensures
            r == venue_column(*self, column_name@),
    {
        if str_equals(column_name, "name") {
            ColumnValue::String(self.name.clone())
        } else {
            ColumnValue::Id(self.id)
        }
    }
}

impl Song {
    /// A column of a song: `title` as a string, or `id` as an id.
    pub fn get_column(&self, column_name: &str, dependency_type: DependencyType) -> (r: ColumnValue)
        requires
            song_column_ok(column_name@, dependency_type),
        ensures
            r == song_column(*self, column_name@),
    {
        if str_equals(column_name, "title") {
            ColumnValue::String(self.title.clone())
        } else {
            ColumnValue::Id(self.id)
        }
    }
}

impl Show {
    /// A column of a show: `date` as a date, or `id` or `venue_id` as an id.
    pub fn get_column(&self, column_name: &str, dependency_type: DependencyType) -> (r: ColumnValue)
        requires
            show_column_ok(column_name@, dependency_type),
        ensures
            r == show_column(*self, column_name@),
    {
        if str_equals(column_name, "date") {
            ColumnValue::Date(self.date)
        } else if str_equals(column_name, "id") {
            ColumnValue::Id(self.id)
        } else {
            ColumnValue::Id(self.venue_id)
        }
    }

    /// Whether a show passes `where` clauses on its venue id; only the
    /// `venue_id` column can be tested.
    pub fn matches_wheres(&self, wheres: &[WhereClause]) -> (r: bool)
        requires
            forall|i: int| 0 <= i < wheres@.len() ==> #[trigger] wheres@[i].column_name@ == "venue_id"@,
        ensures
            r == forall|i: int| 0 <= i < wheres@.len() ==> #[trigger] wheres@[i].value == self.venue_id,
    {
        let mut i: usize = 0;
        while i < wheres.len()
            invariant
                0 <= i <= wheres@.len(),
                forall|j: int| 0 <= j < i ==> #[trigger] wheres@[j].value == self.venue_id,
            decreases wheres@.len() - i,
        {
            if wheres[i].value != self.venue_id {
                return false;
            }
            i += 1;
        }
        true
    }
}

impl ShowSet {
    /// A column of a set: `id`, or `show_id` (the id of its show), each as
    /// an id.
    pub fn get_column(&self, column_name: &str, dependency_type: DependencyType) -> (r: ColumnValue)
        requires
            set_column_ok(column_name@, dependency_type),
        ensures
            r == set_column(*self, column_name@),
    {
        if str_equals(column_name, "id") {
            ColumnValue::Id(self.id)
        } else {
            ColumnValue::Id(self.show_id)
        }
    }
}

impl Venue {
    /// Venues take no `where` clause; with none, every venue passes.
    pub fn matches_wheres(&self, wheres: &[WhereClause]) -> (r: bool)
        requires
            wheres@.len() == 0,
        ensures
            r,
    {
        true
    }
}

impl Song {
    /// Songs take no `where` clause; with none, every song passes.
    pub fn matches_wheres(&self, wheres: &[WhereClause]) -> (r: bool)
        requires
            wheres@.len() == 0,
        ensures
            r,
    {
        true
    }
}

// ---------------------------------------------------------------------------
// Requests to the catalogue.

/// When a request for one column of the row with an id can be answered.
pub open spec fn column_request_ok(
    db: Database,
    table: Seq<char>,
    column: Seq<char>,
    id: u128,
    t: DependencyType,
) -> bool {
    ||| table == "venues"@ && db.venues_by_id@.contains_key(id) && venue_column_ok(column, t)
    ||| table == "songs"@ && db.songs_by_id@.contains_key(id) && song_column_ok(column, t)
    ||| table == "shows"@ && db.shows_by_id@.contains_key(id) && show_column_ok(column, t)
    ||| table == "sets"@ && db.sets_by_id@.contains_key(id) && set_column_ok(column, t)
}

/// The answer to a request for one column of the row with an id.
pub open spec fn column_of_row(db: Database, table: Seq<char>, column: Seq<char>, id: u128) -> ColumnValue {
    if table == "venues"@ {
        venue_column(db.venues@[db.venues_by_id@[id] as int], column)
    } else if table == "songs"@ {
        song_column(db.songs@[db.songs_by_id@[id] as int], column)
    } else if table == "shows"@ {
        show_column(db.shows@[db.shows_by_id@[id] as int], column)
    } else {
        set_column(db.sets@[db.sets_by_id@[id] as int], column)
    }
}

/// When a request for one column of every row can be answered: a table
/// takes no `where` clause, except `shows`, which takes one on
/// `venue_id` naming a venue that has shows; and the column must fit
/// whenever there is a row to read it from.
pub open spec fn column_list_request_ok(
    db: Database,
    table: Seq<char>,
    column: Seq<char>,
    t: DependencyType,
    wheres: Seq<WhereClause>,
) -> bool {
    ||| table == "venues"@ && wheres.len() == 0 && (db.venues@.len() == 0 || venue_column_ok(column, t))
    ||| table == "songs"@ && wheres.len() == 0 && (db.songs@.len() == 0 || song_column_ok(column, t))
    ||| table == "shows"@ && wheres.len() == 0 && (db.shows@.len() == 0 || show_column_ok(column, t))
    ||| table == "sets"@ && wheres.len() == 0 && (db.sets@.len() == 0 || set_column_ok(column, t))
    ||| table == "shows"@ && wheres.len() == 1 && wheres[0].column_name@ == "venue_id"@
        && db.shows_by_venue_id@.contains_key(wheres[0].value) && show_column_ok(column, t)
}

/// The answer to a request for one column of every row.
pub open spec fn column_of_rows(
    db: Database,
    table: Seq<char>,
    column: Seq<char>,
    wheres: Seq<WhereClause>,
) -> Seq<ColumnValue> {
    if table == "venues"@ {
        db.venues@.map_values(|v: Venue| venue_column(v, column))
    } else if table == "songs"@ {
        db.songs@.map_values(|s: Song| song_column(s, column))
    } else if table == "sets"@ {
        db.sets@.map_values(|s: ShowSet| set_column(s, column))
    } else if wheres.len() == 0 {
        db.shows@.map_values(|s: Show| show_column(s, column))
    } else {
        db.shows_by_venue_id@[wheres[0].value]@.map_values(
            |i: usize| show_column(db.shows@[i as int], column),
        )
    }
}

proof fn lemma_table_names_differ()
    ensures
        "venues"@ != "songs"@,
        "venues"@ != "shows"@,
        "songs"@ != "shows"@,
        "sets"@ != "venues"@,
        "sets"@ != "songs"@,
        "sets"@ != "shows"@,
{
    reveal_strlit("venues");
    reveal_strlit("songs");
    reveal_strlit("shows");
    reveal_strlit("sets");
    assert("sets"@[0] != "venues"@[0]);
    assert("sets"@[1] != "songs"@[1]);
    assert("sets"@[1] != "shows"@[1]);
    assert("venues"@[0] != "songs"@[0]);
    assert("venues"@[0] != "shows"@[0]);
    assert("songs"@[1] != "shows"@[1]);
}

impl Database {
    /// One column of the row with an id. The id column must be `id`, the
    /// table one of `venues`, `songs`, `shows` and `sets`, the id that of a row of
    /// it, and the column one of the table's.
    pub fn get_column_sync(
        &self,
        table_name: &str,
        column_name: &str,
        id: &u128,
        id_column_name: &str,
        dependency_type: DependencyType,
    ) -> (r: ColumnValue)
        requires
            self.wf(),
            id_column_name@ == "id"@,
            column_request_ok(*self, table_name@, column_name@, *id, dependency_type),
        ensures
            r == column_of_row(*self, table_name@, column_name@, *id),
    {
        proof {
            lemma_table_names_differ();
        }
        if str_equals(table_name, "venues") {
            self.venue_by_id(id).get_column(column_name, dependency_type)
        } else if str_equals(table_name, "songs") {
            self.song_by_id(id).get_column(column_name, dependency_type)
        } else if str_equals(table_name, "shows") {
            self.show_by_id(id).get_column(column_name, dependency_type)
        } else {
            self.set_by_id(id).get_column(column_name, dependency_type)
        }
    }

    /// One column of every row of a table, in catalogue order; for `shows`
    /// with a `where` clause on `venue_id`, of the shows listed under that
    /// venue.
    pub fn get_column_list_sync(
        &self,
        table_name: &str,
        column_name: &str,
        dependency_type: DependencyType,
        wheres: &[WhereClause],
    ) -> (r: Vec<ColumnValue>)
        requires
            self.wf(),
            column_list_request_ok(*self, table_name@, column_name@, dependency_type, wheres@),
        ensures
            r@ == column_of_rows(*self, table_name@, column_name@, wheres@),
    {
        proof {
            lemma_table_names_differ();
        }
        let mut out: Vec<ColumnValue> = Vec::new();
        if str_equals(table_name, "venues") {
            let mut i: usize = 0;
            while i < self.venues.len()
                invariant
                    0 <= i <= self.venues@.len(),
                    self.venues@.len() == 0 || venue_column_ok(column_name@, dependency_type),
                    out@ == self.venues@.take(i as int).map_values(|v: Venue| venue_column(v, column_name@)),
                decreases self.venues@.len() - i,
            {
                out.push(self.venues[i].get_column(column_name, dependency_type));
                assert(self.venues@.take(i + 1).map_values(|v: Venue| venue_column(v, column_name@))
                    =~= out@);
                i += 1;
            }
            assert(self.venues@.take(self.venues@.len() as int) == self.venues@);
        } else if str_equals(table_name, "songs") {
            let mut i: usize = 0;
            while i < self.songs.len()
                invariant
                    0 <= i <= self.songs@.len(),
                    self.songs@.len() == 0 || song_column_ok(column_name@, dependency_type),
                    out@ == self.songs@.take(i as int).map_values(|s: Song| song_column(s, column_name@)),
                decreases self.songs@.len() - i,
            {
                out.push(self.songs[i].get_column(column_name, dependency_type));
                assert(self.songs@.take(i + 1).map_values(|s: Song| song_column(s, column_name@))
                    =~= out@);
                i += 1;
            }
            assert(self.songs@.take(self.songs@.len() as int) == self.songs@);
        } else if str_equals(table_name, "sets") {
            let mut i: usize = 0;
            while i < self.sets.len()
                invariant
                    0 <= i <= self.sets@.len(),
                    self.sets@.len() == 0 || set_column_ok(column_name@, dependency_type),
                    out@ == self.sets@.take(i as int).map_values(|s: ShowSet| set_column(s, column_name@)),
                decreases self.sets@.len() - i,
            {
                out.push(self.sets[i].get_column(column_name, dependency_type));
                assert(self.sets@.take(i + 1).map_values(|s: ShowSet| set_column(s, column_name@))
                    =~= out@);
                i += 1;
            }
            assert(self.sets@.take(self.sets@.len() as int) == self.sets@);
        } else if wheres.len() == 0 {
            let mut i: usize = 0;
            while i < self.shows.len()
                invariant
                    0 <= i <= self.shows@.len(),
                    self.shows@.len() == 0 || show_column_ok(column_name@, dependency_type),
                    out@ == self.shows@.take(i as int).map_values(|s: Show| show_column(s, column_name@)),
                decreases self.shows@.len() - i,
            {
                out.push(self.shows[i].get_column(column_name, dependency_type));
                assert(self.shows@.take(i + 1).map_values(|s: Show| show_column(s, column_name@))
                    =~= out@);
                i += 1;
            }
            assert(self.shows@.take(self.shows@.len() as int) == self.shows@);
        } else {
            let venue_id = wheres[0].value;
            let show_indexes = self.shows_by_venue_id.get(&venue_id).unwrap();
            let _count = self.shows.len();
            proof {
                lemma_positions_of(venue_ids_of(self.shows@), venue_id);
                assert(show_indexes@ == positions_of(venue_ids_of(self.shows@), venue_id));
            }
            let mut i: usize = 0;
            while i < show_indexes.len()
                invariant
                    0 <= i <= show_indexes@.len(),
                    show_column_ok(column_name@, dependency_type),
                    forall|j: int| 0 <= j < show_indexes@.len() ==> #[trigger] show_indexes@[j] < self.shows@.len(),
                    out@ == show_indexes@.take(i as int).map_values(
                        |k: usize| show_column(self.shows@[k as int], column_name@),
                    ),
                decreases show_indexes@.len() - i,
            {
                let k = show_indexes[i];
                assert(k < self.shows@.len());
                out.push(self.shows[k].get_column(column_name, dependency_type));
                assert(show_indexes@.take(i + 1).map_values(
                    |k: usize| show_column(self.shows@[k as int], column_name@),
                ) =~= out@);
                i += 1;
            }
            assert(show_indexes@.take(show_indexes@.len() as int) == show_indexes@);
        }
        out
    }
}

// ---------------------------------------------------------------------------
// Which requests can be answered.

fn is_id_kind(t: DependencyType) -> (r: bool)
    ensures
        r == is_id_type(t),
{
    match t {
        DependencyType::Id | DependencyType::ListOfIds => true,
        _ => false,
    }
}

/// Whether a column and type fit a venue.
pub fn is_venue_column(column_name: &str, dependency_type: DependencyType) -> (r: bool)
    ensures
        r == venue_column_ok(column_name@, dependency_type),
{
    (str_equals(column_name, "name") && dependency_type == DependencyType::String) || (str_equals(
        column_name,
        "id",
    ) && is_id_kind(dependency_type))
}

/// Whether a column and type fit a song.
pub fn is_song_column(column_name: &str, dependency_type: DependencyType) -> (r: bool)
    ensures
        r == song_column_ok(column_name@, dependency_type),
{
    (str_equals(column_name, "title") && dependency_type == DependencyType::String) || (str_equals(
        column_name,
        "id",
    ) && is_id_kind(dependency_type))
}

/// Whether a column and type fit a set.
pub fn is_set_column(column_name: &str, dependency_type: DependencyType) -> (r: bool)
    ensures
        r == set_column_ok(column_name@, dependency_type),
{
    (str_equals(column_name, "id") || str_equals(column_name, "show_id")) && is_id_kind(dependency_type)
}

/// Whether a column and type fit a show.
pub fn is_show_column(column_name: &str, dependency_type: DependencyType) -> (r: bool)
    ensures
        r == show_column_ok(column_name@, dependency_type),
{
    (str_equals(column_name, "date") && dependency_type == DependencyType::Date) || (str_equals(
        column_name,
        "id",
    ) && is_id_kind(dependency_type)) || (str_equals(column_name, "venue_id") && is_id_kind(
        dependency_type,
    ))
}

impl Database {
    /// Whether a request for one column of the row with an id can be
    /// answered.
    pub fn can_answer_column(
        &self,
        table_name: &str,
        column_name: &str,
        id: &u128,
        dependency_type: DependencyType,
    ) -> (r: bool)
        ensures
            r == column_request_ok(*self, table_name@, column_name@, *id, dependency_type),
    {
        proof {
            lemma_table_names_differ();
        }
        if str_equals(table_name, "venues") {
            self.venues_by_id.contains_key(id) && is_venue_column(column_name, dependency_type)
        } else if str_equals(table_name, "songs") {
            self.songs_by_id.contains_key(id) && is_song_column(column_name, dependency_type)
        } else if str_equals(table_name, "shows") {
            self.shows_by_id.contains_key(id) && is_show_column(column_name, dependency_type)
        } else if str_equals(table_name, "sets") {
            self.sets_by_id.contains_key(id) && is_set_column(column_name, dependency_type)
        } else {
            false
        }
    }

    /// Whether a request for one column of every row can be answered.
    pub fn can_answer_column_list(
        &self,
        table_name: &str,
        column_name: &str,
        dependency_type: DependencyType,
        wheres: &[WhereClause],
    ) -> (r: bool)
        ensures
            r == column_list_request_ok(*self, table_name@, column_name@, dependency_type, wheres@),
    {
        proof {
            lemma_table_names_differ();
        }
        if str_equals(table_name, "venues") {
            wheres.len() == 0 && (self.venues.len() == 0 || is_venue_column(column_name, dependency_type))
        } else if str_equals(table_name, "songs") {
            wheres.len() == 0 && (self.songs.len() == 0 || is_song_column(column_name, dependency_type))
        } else if str_equals(table_name, "shows") {
            if wheres.len() == 0 {
                self.shows.len() == 0 || is_show_column(column_name, dependency_type)
            } else {
                wheres.len() == 1 && str_equals(wheres[0].column_name.as_str(), "venue_id")
                    && self.shows_by_venue_id.contains_key(&wheres[0].value) && is_show_column(
                    column_name,
                    dependency_type,
                )
            }
        } else if str_equals(table_name, "sets") {
            wheres.len() == 0 && (self.sets.len() == 0 || is_set_column(column_name, dependency_type))
        } else {
            false
        }
    }
}

// ---------------------------------------------------------------------------
// Column tokens.

pub const VENUES_TABLE: u32 = 0;
pub const SONGS_TABLE: u32 = 1;
pub const SHOWS_TABLE: u32 = 2;

pub const VENUE_ID_COLUMN: u32 = 0;
pub const VENUE_NAME_COLUMN: u32 = 1;
pub const SONG_ID_COLUMN: u32 = 2;
pub const SONG_TITLE_COLUMN: u32 = 3;
pub const SHOW_ID_COLUMN: u32 = 4;
pub const SHOW_DATE_COLUMN: u32 = 5;
pub const SHOW_VENUE_ID_COLUMN: u32 = 6;

/// The tokens by which the engine names each column: table name, column
/// name, token.
pub open spec fn column_token_entry(i: int) -> (Seq<char>, Seq<char>, ColumnToken) {
    if i == 0 {
        ("venues"@, "id"@, ColumnToken { table: VENUES_TABLE, column: VENUE_ID_COLUMN })
    } else if i == 1 {
        ("venues"@, "name"@, ColumnToken { table: VENUES_TABLE, column: VENUE_NAME_COLUMN })
    } else if i == 2 {
        ("songs"@, "id"@, ColumnToken { table: SONGS_TABLE, column: SONG_ID_COLUMN })
    } else if i == 3 {
        ("songs"@, "title"@, ColumnToken { table: SONGS_TABLE, column: SONG_TITLE_COLUMN })
    } else if i == 4 {
        ("shows"@, "id"@, ColumnToken { table: SHOWS_TABLE, column: SHOW_ID_COLUMN })
    } else if i == 5 {
        ("shows"@, "date"@, ColumnToken { table: SHOWS_TABLE, column: SHOW_DATE_COLUMN })
    } else {
        ("shows"@, "venue_id"@, ColumnToken { table: SHOWS_TABLE, column: SHOW_VENUE_ID_COLUMN })
    }
}

impl Database {
    /// Every column the catalogue serves, with the token that names it.
    pub fn column_token_entries() -> (r: Vec<(&'static str, &'static str, ColumnToken)>)
        ensures
            r@.len() == 7,
            forall|i: int|
                0 <= i < 7 ==> (#[trigger] r@[i].0@, r@[i].1@, r@[i].2) == column_token_entry(i),
    {
        let mut r: Vec<(&'static str, &'static str, ColumnToken)> = Vec::new();
        r.push(("venues", "id", ColumnToken { table: VENUES_TABLE, column: VENUE_ID_COLUMN }));
        r.push(("venues", "name", ColumnToken { table: VENUES_TABLE, column: VENUE_NAME_COLUMN }));
        r.push(("songs", "id", ColumnToken { table: SONGS_TABLE, column: SONG_ID_COLUMN }));
        r.push(("songs", "title", ColumnToken { table: SONGS_TABLE, column: SONG_TITLE_COLUMN }));
        r.push(("shows", "id", ColumnToken { table: SHOWS_TABLE, column: SHOW_ID_COLUMN }));
        r.push(("shows", "date", ColumnToken { table: SHOWS_TABLE, column: SHOW_DATE_COLUMN }));
        r.push(
            ("shows", "venue_id", ColumnToken { table: SHOWS_TABLE, column: SHOW_VENUE_ID_COLUMN }),
        );
        r
    }
}

// ---------------------------------------------------------------------------
// Laws of the requests.

proof fn lemma_positions_select_filter(shows: Seq<Show>, k: u128)
    requires
        shows.len() <= usize::MAX,
    ensures
        positions_of(venue_ids_of(shows), k).map_values(|i: usize| shows[i as int]) == shows.filter(
            |s: Show| s.venue_id == k,
        ),
    decreases shows.len(),
{
    reveal_with_fuel(Seq::<_>::filter, 1);
    let pos = positions_of(venue_ids_of(shows), k);
    if shows.len() == 0 {
        assert(venue_ids_of(shows).len() == 0);
        assert(pos.map_values(|i: usize| shows[i as int]) =~= shows.filter(|s: Show| s.venue_id == k));
    } else {
        let t = shows.drop_last();
        lemma_positions_select_filter(t, k);
        let ids = venue_ids_of(shows);
        assert(ids.drop_last() =~= venue_ids_of(t));
        let pt = positions_of(venue_ids_of(t), k);
        lemma_positions_of(venue_ids_of(t), k);
        assert(forall|j: int| 0 <= j < pt.len() ==> pt[j] < t.len());
        assert(ids[ids.len() - 1] == shows[shows.len() - 1].venue_id);
        assert(pos.map_values(|i: usize| shows[i as int]) =~= shows.filter(|s: Show| s.venue_id == k)) by {
            assert forall|j: int| 0 <= j < pt.len() implies shows[pt[j] as int] == t[pt[j] as int] by {
                assert(pt[j] < t.len());
            }
            assert(pt.map_values(|i: usize| shows[i as int]) =~= pt.map_values(|i: usize| t[i as int]));
        }
    }
}

/// Asking for a column of the shows with a `where` clause on a venue id
/// gives that column of exactly the shows at that venue, in catalogue
/// order: what filtering the unrestricted list by venue gives.
pub proof fn law_where_venue_id_filters_shows(
    db: Database,
    column: Seq<char>,
    wheres: Seq<WhereClause>,
)
    requires
        db.wf(),
        wheres.len() == 1,
        db.shows_by_venue_id@.contains_key(wheres[0].value),
        db.shows@.len() <= usize::MAX,
    ensures
        column_of_rows(db, "shows"@, column, wheres) == db.shows@.filter(
            |s: Show| s.venue_id == wheres[0].value,
        ).map_values(|s: Show| show_column(s, column)),
{
    lemma_table_names_differ();
    let k = wheres[0].value;
    let pos = positions_of(venue_ids_of(db.shows@), k);
    assert(db.shows_by_venue_id@[k]@ == pos);
    lemma_positions_select_filter(db.shows@, k);
    let sel = pos.map_values(|i: usize| db.shows@[i as int]);
    assert(pos.map_values(|i: usize| show_column(db.shows@[i as int], column)) =~= sel.map_values(
        |s: Show| show_column(s, column),
    ));
}

} // verus!
