//! The in-memory catalogue, assembled from the stream of insert events,
//! with indexes from ids to positions.
use vstd::prelude::*;
use std::collections::HashMap;

use crate::event::Event;
use crate::types::{ShowSet, Show, Song, Venue};

verus! {

broadcast use vstd::std_specs::hash::group_hash_axioms;

// ---------------------------------------------------------------------------
// Records with an id.

/// A record of the catalogue, known by its id.
pub trait Record: Sized {
    spec fn record_id(&self) -> u128;

    fn id_of(&self) -> (r: u128)
        ensures
            r == self.record_id(),
    ;
}

impl Record for Venue {
    open spec fn record_id(&self) -> u128 {
        self.id
    }

    fn id_of(&self) -> (r: u128) {
        self.id
    }
}

impl Record for Song {
    open spec fn record_id(&self) -> u128 {
        self.id
    }

    fn id_of(&self) -> (r: u128) {
        self.id
    }
}

impl Record for Show {
    open spec fn record_id(&self) -> u128 {
        self.id
    }

    fn id_of(&self) -> (r: u128) {
        self.id
    }
}

impl Record for ShowSet {
    open spec fn record_id(&self) -> u128 {
        self.id
    }

    fn id_of(&self) -> (r: u128) {
        self.id
    }
}

/// The ids of a sequence of records, in order.
pub open spec fn ids_of<T: Record>(records: Seq<T>) -> Seq<u128> {
    records.map_values(|r: T| r.record_id())
}

/// The venue ids of a sequence of shows, in order.
pub open spec fn venue_ids_of(shows: Seq<Show>) -> Seq<u128> {
    shows.map_values(|s: Show| s.venue_id)
}

/// Each id of a sequence mapped to the last position where it occurs.
pub open spec fn last_index_map(ids: Seq<u128>) -> Map<u128, usize>
    decreases ids.len(),
{
    if ids.len() == 0 {
        Map::empty()
    } else {
        last_index_map(ids.drop_last()).insert(ids.last(), (ids.len() - 1) as usize)
    }
}

/// The positions where an id occurs in a sequence, in increasing order.
pub open spec fn positions_of(ids: Seq<u128>, k: u128) -> Seq<usize>
    decreases ids.len(),
{
    if ids.len() == 0 {
        Seq::empty()
    } else {
        let prev = positions_of(ids.drop_last(), k);
        if ids.last() == k {
            prev.push((ids.len() - 1) as usize)
        } else {
            prev
        }
    }
}

/// A map from each id of a sequence to the positions where it occurs.
pub open spec fn is_position_index(m: Map<u128, Vec<usize>>, ids: Seq<u128>) -> bool {
    &&& forall|k: u128| #[trigger] m.contains_key(k) <==> ids.contains(k)
    &&& forall|k: u128| #[trigger] m.contains_key(k) ==> m[k]@ == positions_of(ids, k)
}

proof fn lemma_ids_push<T: Record>(records: Seq<T>, x: T)
    ensures
        ids_of(records.push(x)) == ids_of(records).push(x.record_id()),
{
    assert(ids_of(records.push(x)) =~= ids_of(records).push(x.record_id()));
}

proof fn lemma_venue_ids_push(shows: Seq<Show>, x: Show)
    ensures
        venue_ids_of(shows.push(x)) == venue_ids_of(shows).push(x.venue_id),
{
    assert(venue_ids_of(shows.push(x)) =~= venue_ids_of(shows).push(x.venue_id));
}

/// Builds the map from each record's id to its position; where an id
/// occurs twice, the later position is kept.
pub fn index_by_id<T: Record>(records: &Vec<T>) -> (r: HashMap<u128, usize>)
    ensures
        r@ == last_index_map(ids_of(records@)),
{
    let mut map: HashMap<u128, usize> = HashMap::new();
    let mut i: usize = 0;
    while i < records.len()
        invariant
            0 <= i <= records@.len(),
            map@ == last_index_map(ids_of(records@.take(i as int))),
        decreases records@.len() - i,
    {
        let id = records[i].id_of();
        proof {
            lemma_ids_push(records@.take(i as int), records@[i as int]);
            assert(records@.take(i + 1) == records@.take(i as int).push(records@[i as int]));
            assert(ids_of(records@.take(i + 1)).drop_last() == ids_of(records@.take(i as int)));
        }
        map.insert(id, i);
        i += 1;
    }
    assert(records@.take(records@.len() as int) == records@);
    map
}

/// Groups the positions of the shows by venue id.
pub fn index_shows_by_venue_id(shows: &Vec<Show>) -> (r: HashMap<u128, Vec<usize>>)
    ensures
        is_position_index(r@, venue_ids_of(shows@)),
{
    let mut map: HashMap<u128, Vec<usize>> = HashMap::new();
    let mut i: usize = 0;
    while i < shows.len()
        invariant
            0 <= i <= shows@.len(),
            is_position_index(map@, venue_ids_of(shows@.take(i as int))),
        decreases shows@.len() - i,
    {
        let venue_id = shows[i].venue_id;
        let ghost before = venue_ids_of(shows@.take(i as int));
        let ghost after = venue_ids_of(shows@.take(i + 1));
        proof {
            lemma_venue_ids_push(shows@.take(i as int), shows@[i as int]);
            assert(shows@.take(i + 1) == shows@.take(i as int).push(shows@[i as int]));
            assert(after == before.push(venue_id));
            assert(after.drop_last() == before);
        }
        let mut positions = match map.remove(&venue_id) {
            Some(v) => v,
            None => Vec::new(),
        };
        positions.push(i);
        map.insert(venue_id, positions);
        proof {
            assert forall|k: u128| #[trigger] map@.contains_key(k) <==> after.contains(k) by {
                if after.contains(k) && k != venue_id {
                    let j = choose|j: int| 0 <= j < after.len() && after[j] == k;
                    assert(j < before.len());
                    assert(before[j] == k);
                }
                if before.contains(k) {
                    let j = choose|j: int| 0 <= j < before.len() && before[j] == k;
                    assert(after[j] == k);
                }
                assert(after[after.len() - 1] == venue_id);
            }
            assert forall|k: u128| #[trigger] map@.contains_key(k) implies map@[k]@ == positions_of(
                after,
                k,
            ) by {
                if k == venue_id {
                    if !before.contains(k) {
                        assert(positions_of(before, k) =~= Seq::<usize>::empty()) by {
                            lemma_positions_empty(before, k);
                        }
                    }
                }
            }
        }
        i += 1;
    }
    assert(shows@.take(shows@.len() as int) == shows@);
    map
}

proof fn lemma_positions_empty(ids: Seq<u128>, k: u128)
    requires
        !ids.contains(k),
    ensures
        positions_of(ids, k) == Seq::<usize>::empty(),
    decreases ids.len(),
{
    if ids.len() > 0 {
        let prev = ids.drop_last();
        assert(!prev.contains(k)) by {
            if prev.contains(k) {
                let j = choose|j: int| 0 <= j < prev.len() && prev[j] == k;
                assert(ids[j] == k);
            }
        }
        lemma_positions_empty(prev, k);
        assert(ids[ids.len() - 1] != k);
    }
}

// ---------------------------------------------------------------------------
// Assembling the records from events.

/// The venue an event inserts, if it inserts one.
pub open spec fn venue_in(e: Event) -> Seq<Venue> {
    match e {
        Event::InsertVenue(v) => seq![v],
        _ => Seq::empty(),
    }
}

pub open spec fn song_in(e: Event) -> Seq<Song> {
    match e {
        Event::InsertSong(s) => seq![s],
        _ => Seq::empty(),
    }
}

pub open spec fn show_in(e: Event) -> Seq<Show> {
    match e {
        Event::InsertShow(s) => seq![s],
        _ => Seq::empty(),
    }
}

pub open spec fn set_in(e: Event) -> Seq<ShowSet> {
    match e {
        Event::InsertSet(s) => seq![s],
        _ => Seq::empty(),
    }
}

/// The venues that a stream of events inserts, in the order of the events.
pub open spec fn venues_of(events: Seq<Event>) -> Seq<Venue>
    decreases events.len(),
{
    if events.len() == 0 {
        Seq::empty()
    } else {
        venues_of(events.drop_last()) + venue_in(events.last())
    }
}

pub open spec fn songs_of(events: Seq<Event>) -> Seq<Song>
    decreases events.len(),
{
    if events.len() == 0 {
        Seq::empty()
    } else {
        songs_of(events.drop_last()) + song_in(events.last())
    }
}

pub open spec fn shows_of(events: Seq<Event>) -> Seq<Show>
    decreases events.len(),
{
    if events.len() == 0 {
        Seq::empty()
    } else {
        shows_of(events.drop_last()) + show_in(events.last())
    }
}

pub open spec fn sets_of(events: Seq<Event>) -> Seq<ShowSet>
    decreases events.len(),
{
    if events.len() == 0 {
        Seq::empty()
    } else {
        sets_of(events.drop_last()) + set_in(events.last())
    }
}

/// Collects the venues that events insert.
pub struct VenuesCobbler {
    pub assembling: Vec<Venue>,
}

/// Collects the songs that events insert.
pub struct SongsCobbler {
    pub assembling: Vec<Song>,
}

/// Collects the shows that events insert.
pub struct ShowsCobbler {
    pub assembling: Vec<Show>,
}

/// Collects the sets that events insert.
pub struct SetsCobbler {
    pub assembling: Vec<ShowSet>,
}

impl Default for VenuesCobbler {
    fn default() -> (r: Self)
        ensures
            r.assembling@ == Seq::<Venue>::empty(),
    {
        VenuesCobbler { assembling: Vec::new() }
    }
}

impl Default for SongsCobbler {
    fn default() -> (r: Self)
        ensures
            r.assembling@ == Seq::<Song>::empty(),
    {
        SongsCobbler { assembling: Vec::new() }
    }
}

impl Default for ShowsCobbler {
    fn default() -> (r: Self)
        ensures
            r.assembling@ == Seq::<Show>::empty(),
    {
        ShowsCobbler { assembling: Vec::new() }
    }
}

impl Default for SetsCobbler {
    fn default() -> (r: Self)
        ensures
            r.assembling@ == Seq::<ShowSet>::empty(),
    {
        SetsCobbler { assembling: Vec::new() }
    }
}

impl VenuesCobbler {
    /// Keeps the venue of an event that inserts one; other events pass.
    pub fn accept_next(&mut self, event: &Event)
        ensures
            final(self).assembling@ == old(self).assembling@ + venue_in(*event),
    {
        match event {
            Event::InsertVenue(venue) => {
                self.assembling.push(venue.clone());
            },
            _ => {},
        }
    }
}

impl SongsCobbler {
    /// Keeps the song of an event that inserts one; other events pass.
    pub fn accept_next(&mut self, event: &Event)
        ensures
            final(self).assembling@ == old(self).assembling@ + song_in(*event),
    {
        match event {
            Event::InsertSong(song) => {
                self.assembling.push(song.clone());
            },
            _ => {},
        }
    }
}

impl ShowsCobbler {
    /// Keeps the show of an event that inserts one; other events pass.
    pub fn accept_next(&mut self, event: &Event)
        ensures
            final(self).assembling@ == old(self).assembling@ + show_in(*event),
    {
        match event {
            Event::InsertShow(show) => {
                self.assembling.push(show.clone());
            },
            _ => {},
        }
    }
}

impl SetsCobbler {
    /// Keeps the set of an event that inserts one; other events pass.
    pub fn accept_next(&mut self, event: &Event)
        ensures
            final(self).assembling@ == old(self).assembling@ + set_in(*event),
    {
        match event {
            Event::InsertSet(set) => {
                self.assembling.push(set.clone());
            },
            _ => {},
        }
    }
}

impl From<VenuesCobbler> for Vec<Venue> {
    fn from(value: VenuesCobbler) -> (r: Self) {
        value.assembling
    }
}

impl vstd::std_specs::convert::FromSpecImpl<VenuesCobbler> for Vec<Venue> {
    open spec fn obeys_from_spec() -> bool {
        true
    }

    open spec fn from_spec(v: VenuesCobbler) -> Self {
        v.assembling
    }
}

impl From<SongsCobbler> for Vec<Song> {
    fn from(value: SongsCobbler) -> (r: Self) {
        value.assembling
    }
}

impl vstd::std_specs::convert::FromSpecImpl<SongsCobbler> for Vec<Song> {
    open spec fn obeys_from_spec() -> bool {
        true
    }

    open spec fn from_spec(v: SongsCobbler) -> Self {
        v.assembling
    }
}

impl From<ShowsCobbler> for Vec<Show> {
    fn from(value: ShowsCobbler) -> (r: Self) {
        value.assembling
    }
}

impl vstd::std_specs::convert::FromSpecImpl<ShowsCobbler> for Vec<Show> {
    open spec fn obeys_from_spec() -> bool {
        true
    }

    open spec fn from_spec(v: ShowsCobbler) -> Self {
        v.assembling
    }
}

impl From<SetsCobbler> for Vec<ShowSet> {
    fn from(value: SetsCobbler) -> (r: Self) {
        value.assembling
    }
}

impl vstd::std_specs::convert::FromSpecImpl<SetsCobbler> for Vec<ShowSet> {
    open spec fn obeys_from_spec() -> bool {
        true
    }

    open spec fn from_spec(v: SetsCobbler) -> Self {
        v.assembling
    }
}

/// Collects every kind of record that events insert.
pub struct DatabaseCobbler {
    pub venues: VenuesCobbler,
    pub songs: SongsCobbler,
    pub shows: ShowsCobbler,
    pub sets: SetsCobbler,
}

impl Default for DatabaseCobbler {
    fn default() -> (r: Self)
        ensures
            r.venues.assembling@ == Seq::<Venue>::empty(),
            r.songs.assembling@ == Seq::<Song>::empty(),
            r.shows.assembling@ == Seq::<Show>::empty(),
            r.sets.assembling@ == Seq::<ShowSet>::empty(),
    {
        DatabaseCobbler {
            venues: VenuesCobbler::default(),
            songs: SongsCobbler::default(),
            shows: ShowsCobbler::default(),
            sets: SetsCobbler::default(),
        }
    }
}

impl DatabaseCobbler {
    /// Hands an event to each collector.
    pub fn accept_next(&mut self, event: &Event)
        ensures
            final(self).venues.assembling@ == old(self).venues.assembling@ + venue_in(*event),
            final(self).songs.assembling@ == old(self).songs.assembling@ + song_in(*event),
            final(self).shows.assembling@ == old(self).shows.assembling@ + show_in(*event),
            final(self).sets.assembling@ == old(self).sets.assembling@ + set_in(*event),
    {
        self.venues.accept_next(event);
        self.songs.accept_next(event);
        self.shows.accept_next(event);
        self.sets.accept_next(event);
    }
}

// ---------------------------------------------------------------------------
// The catalogue and its indexes.

/// The catalogue: the records in the order of their events, and indexes
/// from ids to positions.
pub struct Database {
    pub venues_by_id: HashMap<u128, usize>,
    pub songs_by_id: HashMap<u128, usize>,
    pub shows_by_id: HashMap<u128, usize>,
    pub shows_by_venue_id: HashMap<u128, Vec<usize>>,
    pub sets_by_id: HashMap<u128, usize>,
    pub venues: Vec<Venue>,
    pub songs: Vec<Song>,
    pub shows: Vec<Show>,
    pub sets: Vec<ShowSet>,
}

impl Database {
    /// The indexes agree with the records.
    pub open spec fn wf(&self) -> bool {
        &&& self.venues_by_id@ == last_index_map(ids_of(self.venues@))
        &&& self.songs_by_id@ == last_index_map(ids_of(self.songs@))
        &&& self.shows_by_id@ == last_index_map(ids_of(self.shows@))
        &&& self.sets_by_id@ == last_index_map(ids_of(self.sets@))
        &&& is_position_index(self.shows_by_venue_id@, venue_ids_of(self.shows@))
    }
}

/// Gathers the records of a catalogue; the indexes are computed when the
/// catalogue is built.
pub struct DatabaseBuilder {
    pub venues: Option<Vec<Venue>>,
    pub songs: Option<Vec<Song>>,
    pub shows: Option<Vec<Show>>,
    pub sets: Option<Vec<ShowSet>>,
}

impl Default for DatabaseBuilder {
    fn default() -> (r: Self)
        ensures
            r.venues is None,
            r.songs is None,
            r.shows is None,
            r.sets is None,
    {
        DatabaseBuilder { venues: None, songs: None, shows: None, sets: None }
    }
}

impl DatabaseBuilder {
    pub fn venues(self, value: Vec<Venue>) -> (r: Self)
        ensures
            r == (DatabaseBuilder { venues: Some(value), ..self }),
    {
        DatabaseBuilder { venues: Some(value), ..self }
    }

    pub fn songs(self, value: Vec<Song>) -> (r: Self)
        ensures
            r == (DatabaseBuilder { songs: Some(value), ..self }),
    {
        DatabaseBuilder { songs: Some(value), ..self }
    }

    pub fn shows(self, value: Vec<Show>) -> (r: Self)
        ensures
            r == (DatabaseBuilder { shows: Some(value), ..self }),
    {
        DatabaseBuilder { shows: Some(value), ..self }
    }

    pub fn sets(self, value: Vec<ShowSet>) -> (r: Self)
        ensures
            r == (DatabaseBuilder { sets: Some(value), ..self }),
    {
        DatabaseBuilder { sets: Some(value), ..self }
    }

    pub fn default_venues_by_id(&self) -> (r: HashMap<u128, usize>)
        requires
            self.venues is Some,
        ensures
            r@ == last_index_map(ids_of(self.venues->0@)),
    {
        index_by_id(self.venues.as_ref().unwrap())
    }

    pub fn default_songs_by_id(&self) -> (r: HashMap<u128, usize>)
        requires
            self.songs is Some,
        ensures
            r@ == last_index_map(ids_of(self.songs->0@)),
    {
        index_by_id(self.songs.as_ref().unwrap())
    }

    pub fn default_shows_by_id(&self) -> (r: HashMap<u128, usize>)
        requires
            self.shows is Some,
        ensures
            r@ == last_index_map(ids_of(self.shows->0@)),
    {
        index_by_id(self.shows.as_ref().unwrap())
    }

    pub fn default_shows_by_venue_id(&self) -> (r: HashMap<u128, Vec<usize>>)
        requires
            self.shows is Some,
        ensures
            is_position_index(r@, venue_ids_of(self.shows->0@)),
    {
        index_shows_by_venue_id(self.shows.as_ref().unwrap())
    }

    pub fn default_sets_by_id(&self) -> (r: HashMap<u128, usize>)
        requires
            self.sets is Some,
        ensures
            r@ == last_index_map(ids_of(self.sets->0@)),
    {
        index_by_id(self.sets.as_ref().unwrap())
    }

    /// Builds the catalogue from the gathered records; every kind of record
    /// must have been given.
    pub fn build(self) -> (r: Database)
        requires
            self.venues is Some,
            self.songs is Some,
            self.shows is Some,
            self.sets is Some,
        ensures
            r.wf(),
            r.venues@ == self.venues->0@,
            r.songs@ == self.songs->0@,
            r.shows@ == self.shows->0@,
            r.sets@ == self.sets->0@,
    {
        let venues_by_id = self.default_venues_by_id();
        let songs_by_id = self.default_songs_by_id();
        let shows_by_id = self.default_shows_by_id();
        let shows_by_venue_id = self.default_shows_by_venue_id();
        let sets_by_id = self.default_sets_by_id();
        Database {
            venues_by_id,
            songs_by_id,
            shows_by_id,
            shows_by_venue_id,
            sets_by_id,
            venues: self.venues.unwrap(),
            songs: self.songs.unwrap(),
            shows: self.shows.unwrap(),
            sets: self.sets.unwrap(),
        }
    }
}

impl Database {
    /// The catalogue of the records a cobbler collected.
    pub fn from(value: DatabaseCobbler) -> (r: Database)
        ensures
            r.wf(),
            r.venues@ == value.venues.assembling@,
            r.songs@ == value.songs.assembling@,
            r.shows@ == value.shows.assembling@,
            r.sets@ == value.sets.assembling@,
    {
        DatabaseBuilder::default().venues(Vec::from(value.venues)).songs(Vec::from(value.songs)).shows(
            Vec::from(value.shows),
        ).sets(Vec::from(value.sets)).build()
    }

    /// The venue with an id, which must be in the catalogue.
    pub fn venue_by_id(&self, id: &u128) -> (r: &Venue)
        requires
            self.wf(),
            self.venues_by_id@.contains_key(*id),
        ensures
            *r == self.venues@[self.venues_by_id@[*id] as int],
            r.id == *id,
    {
        let _count = self.venues.len();
        proof {
            lemma_last_index_map(ids_of(self.venues@));
        }
        &self.venues[*self.venues_by_id.get(id).unwrap()]
    }

    /// The song with an id, which must be in the catalogue.
    pub fn song_by_id(&self, id: &u128) -> (r: &Song)
        requires
            self.wf(),
            self.songs_by_id@.contains_key(*id),
        ensures
            *r == self.songs@[self.songs_by_id@[*id] as int],
            r.id == *id,
    {
        let _count = self.songs.len();
        proof {
            lemma_last_index_map(ids_of(self.songs@));
        }
        &self.songs[*self.songs_by_id.get(id).unwrap()]
    }

    /// The show with an id, which must be in the catalogue.
    pub fn show_by_id(&self, id: &u128) -> (r: &Show)
        requires
            self.wf(),
            self.shows_by_id@.contains_key(*id),
        ensures
            *r == self.shows@[self.shows_by_id@[*id] as int],
            r.id == *id,
    {
        let _count = self.shows.len();
        proof {
            lemma_last_index_map(ids_of(self.shows@));
        }
        &self.shows[*self.shows_by_id.get(id).unwrap()]
    }

    /// The set with an id, which must be in the catalogue.
    pub fn set_by_id(&self, id: &u128) -> (r: &ShowSet)
        requires
            self.wf(),
            self.sets_by_id@.contains_key(*id),
        ensures
            *r == self.sets@[self.sets_by_id@[*id] as int],
            r.id == *id,
    {
        let _count = self.sets.len();
        proof {
            lemma_last_index_map(ids_of(self.sets@));
        }
        &self.sets[*self.sets_by_id.get(id).unwrap()]
    }
}

/// Where an id sits in `last_index_map`: at a position holding it, after
/// which it does not occur again; and every id of the sequence is there.
pub proof fn lemma_last_index_map(ids: Seq<u128>)
    requires
        ids.len() <= usize::MAX,
    ensures
        forall|k: u128| #[trigger] last_index_map(ids).contains_key(k) <==> ids.contains(k),
        forall|k: u128|
            #[trigger] last_index_map(ids).contains_key(k) ==> {
                &&& last_index_map(ids)[k] < ids.len()
                &&& ids[last_index_map(ids)[k] as int] == k
                &&& forall|j: int| last_index_map(ids)[k] < j < ids.len() ==> ids[j] != k
            },
    decreases ids.len(),
{
    if ids.len() > 0 {
        let prev = ids.drop_last();
        lemma_last_index_map(prev);
        let m = last_index_map(ids);
        assert forall|k: u128| #[trigger] m.contains_key(k) <==> ids.contains(k) by {
            assert(ids[ids.len() - 1] == ids.last());
            assert(m.contains_key(k) <==> (k == ids.last() || last_index_map(prev).contains_key(k)));
            if ids.contains(k) && k != ids.last() {
                let j = choose|j: int| 0 <= j < ids.len() && ids[j] == k;
                assert(j < ids.len() - 1);
                assert(prev[j] == k);
            }
            if prev.contains(k) {
                let j = choose|j: int| 0 <= j < prev.len() && prev[j] == k;
                assert(ids[j] == k);
            }
            assert(ids[ids.len() - 1] == ids.last());
        }
        assert forall|k: u128| #[trigger] m.contains_key(k) implies {
            &&& m[k] < ids.len()
            &&& ids[m[k] as int] == k
            &&& forall|j: int| m[k] < j < ids.len() ==> ids[j] != k
        } by {
            if k != ids.last() {
                assert(last_index_map(prev).contains_key(k));
                assert forall|j: int| m[k] < j < ids.len() implies ids[j] != k by {
                    if j < ids.len() - 1 {
                        assert(ids[j] == prev[j]);
                    }
                }
            }
        }
    }
}

/// The positions where an id occurs: each holds the id, they increase, and
/// no other position holds it.
pub proof fn lemma_positions_of(ids: Seq<u128>, k: u128)
    requires
        ids.len() <= usize::MAX,
    ensures
        forall|j: int|
            0 <= j < positions_of(ids, k).len() ==> #[trigger] positions_of(ids, k)[j] < ids.len()
                && ids[positions_of(ids, k)[j] as int] == k,
        forall|a: int, b: int|
            0 <= a < b < positions_of(ids, k).len() ==> #[trigger] positions_of(ids, k)[a]
                < #[trigger] positions_of(ids, k)[b],
        forall|i: int| 0 <= i < ids.len() && ids[i] == k ==> #[trigger] positions_of(ids, k).contains(
            i as usize,
        ),
        positions_of(ids, k).len() > 0 <==> ids.contains(k),
    decreases ids.len(),
{
    if ids.len() > 0 {
        let prev = ids.drop_last();
        lemma_positions_of(prev, k);
        let p = positions_of(prev, k);
        let r = positions_of(ids, k);
        assert forall|i: int| 0 <= i < ids.len() && ids[i] == k implies #[trigger] r.contains(
            i as usize,
        ) by {
            if i < ids.len() - 1 {
                assert(prev[i] == k);
                assert(p.contains(i as usize));
                let t = choose|t: int| 0 <= t < p.len() && p[t] == i as usize;
                assert(r[t] == i as usize);
            } else {
                assert(r[r.len() - 1] == i as usize);
            }
        }
        assert forall|j: int| 0 <= j < r.len() implies #[trigger] r[j] < ids.len() && ids[r[j] as int]
            == k by {
            if j < p.len() {
                assert(r[j] == p[j]);
                assert(ids[p[j] as int] == prev[p[j] as int]);
            }
        }
        if r.len() > 0 {
            assert(ids[r[0] as int] == k);
        }
        if ids.contains(k) {
            let i = choose|i: int| 0 <= i < ids.len() && ids[i] == k;
            assert(r.contains(i as usize));
        }
    }
}

/// The catalogue of the records that a stream of events inserts, each kind
/// in the order of its events.
pub fn database_from_events(events: &Vec<Event>) -> (r: Database)
    ensures
        r.wf(),
        r.venues@ == venues_of(events@),
        r.songs@ == songs_of(events@),
        r.shows@ == shows_of(events@),
        r.sets@ == sets_of(events@),
{
    let mut cobbler = DatabaseCobbler::default();
    let mut i: usize = 0;
    while i < events.len()
        invariant
            0 <= i <= events@.len(),
            cobbler.venues.assembling@ == venues_of(events@.take(i as int)),
            cobbler.songs.assembling@ == songs_of(events@.take(i as int)),
            cobbler.shows.assembling@ == shows_of(events@.take(i as int)),
            cobbler.sets.assembling@ == sets_of(events@.take(i as int)),
        decreases events@.len() - i,
    {
        cobbler.accept_next(&events[i]);
        assert(events@.take(i + 1).drop_last() == events@.take(i as int));
        i += 1;
    }
    assert(events@.take(events@.len() as int) == events@);
    Database::from(cobbler)
}

/// What a cobbler holds after it was given a stream of events, kind by kind.
pub open spec fn holds_records_of(c: DatabaseCobbler, events: Seq<Event>) -> bool {
    &&& c.venues.assembling@ == venues_of(events)
    &&& c.songs.assembling@ == songs_of(events)
    &&& c.shows.assembling@ == shows_of(events)
    &&& c.sets.assembling@ == sets_of(events)
}

/// A new cobbler holds the records of no events; and where a cobbler holds
/// the records of a stream of events, handing it one more event (as
/// `DatabaseCobbler::accept_next` states) leaves it holding the records of
/// the longer stream: the venues, songs, shows and sets of the events, each
/// kind in event order, with song performances changing nothing.
pub proof fn law_accept_next_collects(events: Seq<Event>, e: Event, before: DatabaseCobbler, after: DatabaseCobbler)
    requires
        holds_records_of(before, events),
        after.venues.assembling@ == before.venues.assembling@ + venue_in(e),
        after.songs.assembling@ == before.songs.assembling@ + song_in(e),
        after.shows.assembling@ == before.shows.assembling@ + show_in(e),
        after.sets.assembling@ == before.sets.assembling@ + set_in(e),
    ensures
        holds_records_of(after, events.push(e)),
        venues_of(Seq::empty()) == Seq::<Venue>::empty() && songs_of(Seq::empty()) == Seq::<Song>::empty()
            && shows_of(Seq::empty()) == Seq::<Show>::empty() && sets_of(Seq::empty()) == Seq::<ShowSet>::empty(),
        e is InsertSongPerformance ==> after.venues.assembling@ == before.venues.assembling@
            && after.songs.assembling@ == before.songs.assembling@ && after.shows.assembling@
            == before.shows.assembling@ && after.sets.assembling@ == before.sets.assembling@,
{
    assert(events.push(e).drop_last() == events);
    assert(events.push(e).last() == e);
    if e is InsertSongPerformance {
        assert(after.venues.assembling@ =~= before.venues.assembling@);
        assert(after.songs.assembling@ =~= before.songs.assembling@);
        assert(after.shows.assembling@ =~= before.shows.assembling@);
        assert(after.sets.assembling@ =~= before.sets.assembling@);
    }
}

/// What one call of `DatabaseCobbler::accept_next` does: each kind's list
/// grows by what the event inserts of that kind.
pub open spec fn accepted(before: DatabaseCobbler, e: Event, after: DatabaseCobbler) -> bool {
    &&& after.venues.assembling@ == before.venues.assembling@ + venue_in(e)
    &&& after.songs.assembling@ == before.songs.assembling@ + song_in(e)
    &&& after.shows.assembling@ == before.shows.assembling@ + show_in(e)
    &&& after.sets.assembling@ == before.sets.assembling@ + set_in(e)
}

/// Handing a new cobbler each event of a stream in turn, by `accept_next`,
/// leaves it holding the venues, songs, shows and sets of the events, each
/// kind in event order; `states[i]` is the cobbler after the first `i`
/// events.
pub proof fn law_cobbler_collects_stream(events: Seq<Event>, states: Seq<DatabaseCobbler>)
    requires
        states.len() == events.len() + 1,
        holds_records_of(states[0], Seq::empty()),
        forall|i: int| 0 <= i < events.len() ==> accepted(#[trigger] states[i], events[i], states[i + 1]),
    ensures
        forall|i: int| 0 <= i <= events.len() ==> holds_records_of(#[trigger] states[i], events.take(i)),
    decreases events.len(),
{
    if events.len() == 0 {
        assert forall|i: int| 0 <= i <= events.len() implies holds_records_of(#[trigger] states[i], events.take(i)) by {
            assert(events.take(i) =~= Seq::<Event>::empty());
        }
    } else {
        let n = events.len() - 1;
        let es = events.drop_last();
        let ss = states.drop_last();
        assert forall|i: int| 0 <= i < es.len() implies accepted(#[trigger] ss[i], es[i], ss[i + 1]) by {
            assert(accepted(states[i], events[i], states[i + 1]));
        }
        law_cobbler_collects_stream(es, ss);
        assert forall|i: int| 0 <= i <= events.len() implies holds_records_of(#[trigger] states[i], events.take(i)) by {
            if i <= n {
                assert(ss[i] == states[i]);
                assert(es.take(i) =~= events.take(i));
                assert(holds_records_of(ss[i], es.take(i)));
            } else {
                assert(holds_records_of(ss[n], es.take(n)));
                assert(es.take(n) =~= es);
                assert(accepted(states[n], events[n], states[n + 1]));
                assert(events.take(i) =~= es.push(events[n]));
                law_accept_next_collects(es, events[n], states[n], states[n + 1]);
            }
        }
    }
}

/// Each event adds exactly the record it inserts to the list of that kind,
/// whatever the record's fields, and leaves the other kinds as they were.
pub proof fn law_events_collect_their_records(events: Seq<Event>, e: Event)
    ensures
        venues_of(events.push(e)) == venues_of(events) + match e {
            Event::InsertVenue(v) => seq![v],
            _ => Seq::<Venue>::empty(),
        },
        songs_of(events.push(e)) == songs_of(events) + match e {
            Event::InsertSong(s) => seq![s],
            _ => Seq::<Song>::empty(),
        },
        shows_of(events.push(e)) == shows_of(events) + match e {
            Event::InsertShow(s) => seq![s],
            _ => Seq::<Show>::empty(),
        },
        sets_of(events.push(e)) == sets_of(events) + match e {
            Event::InsertSet(s) => seq![s],
            _ => Seq::<ShowSet>::empty(),
        },
{
    assert(events.push(e).drop_last() == events);
    assert(events.push(e).last() == e);
}

/// Collecting a stream of events in two batches gives the records that
/// collecting it at once gives.
pub proof fn law_collect_in_batches(first: Seq<Event>, second: Seq<Event>)
    ensures
        venues_of(first + second) == venues_of(first) + venues_of(second),
        songs_of(first + second) == songs_of(first) + songs_of(second),
        shows_of(first + second) == shows_of(first) + shows_of(second),
        sets_of(first + second) == sets_of(first) + sets_of(second),
    decreases second.len(),
{
    if second.len() == 0 {
        assert(first + second == first);
        assert(venues_of(first) + venues_of(second) == venues_of(first));
        assert(songs_of(first) + songs_of(second) == songs_of(first));
        assert(shows_of(first) + shows_of(second) == shows_of(first));
        assert(sets_of(first) + sets_of(second) == sets_of(first));
    } else {
        let rest = second.drop_last();
        law_collect_in_batches(first, rest);
        assert((first + second).drop_last() == first + rest);
        assert((first + second).last() == second.last());
        assert(venues_of(first + second) == venues_of(first) + venues_of(rest) + venue_in(second.last()));
        assert(venues_of(first) + venues_of(second) == venues_of(first) + venues_of(rest) + venue_in(
            second.last(),
        ));
        assert(songs_of(first) + songs_of(second) == songs_of(first) + songs_of(rest) + song_in(
            second.last(),
        ));
        assert(shows_of(first) + shows_of(second) == shows_of(first) + shows_of(rest) + show_in(
            second.last(),
        ));
        assert(sets_of(first) + sets_of(second) == sets_of(first) + sets_of(rest) + set_in(
            second.last(),
        ));
    }
}

/// Looking a record up by its id, in any table of the catalogue (whose
/// index is `last_index_map` of its ids, as `Database::wf` states), finds a
/// record with that id; where no other record has the same id, it finds that
/// very record.
pub proof fn law_lookup_by_id_finds_record<T: Record>(records: Seq<T>, index: Map<u128, usize>, i: int)
    requires
        index == last_index_map(ids_of(records)),
        0 <= i < records.len(),
        records.len() <= usize::MAX,
    ensures
        index.contains_key(records[i].record_id()),
        index[records[i].record_id()] < records.len(),
        records[index[records[i].record_id()] as int].record_id() == records[i].record_id(),
        (forall|j: int| 0 <= j < records.len() && j != i ==> records[j].record_id() != records[i].record_id())
            ==> index[records[i].record_id()] == i,
{
    let ids = ids_of(records);
    lemma_index_finds(ids, i);
    assert(ids[i] == records[i].record_id());
    let p = index[records[i].record_id()] as int;
    assert(ids[p] == records[p].record_id());
    if forall|j: int| 0 <= j < records.len() && j != i ==> records[j].record_id() != records[i].record_id() {
        assert forall|j: int| 0 <= j < ids.len() && j != i implies ids[j] != ids[i] by {
            assert(ids[j] == records[j].record_id());
        }
    }
}

/// An index of ids finds every id of its sequence at a position holding
/// that id; an id that occurs once is found at its position.
pub proof fn lemma_index_finds(ids: Seq<u128>, i: int)
    requires
        0 <= i < ids.len(),
        ids.len() <= usize::MAX,
    ensures
        last_index_map(ids).contains_key(ids[i]),
        last_index_map(ids)[ids[i]] < ids.len(),
        ids[last_index_map(ids)[ids[i]] as int] == ids[i],
        (forall|j: int| 0 <= j < ids.len() && j != i ==> ids[j] != ids[i]) ==> last_index_map(ids)[ids[i]]
            == i,
    decreases ids.len(),
{
    let prev = ids.drop_last();
    if i == ids.len() - 1 {
    } else {
        lemma_index_finds(prev, i);
        assert(prev[i] == ids[i]);
        if ids.last() != ids[i] {
            assert(ids[last_index_map(prev)[ids[i]] as int] == prev[last_index_map(prev)[ids[i]] as int]);
        } else {
            assert(ids[ids.len() - 1] == ids.last());
        }
        if forall|j: int| 0 <= j < ids.len() && j != i ==> ids[j] != ids[i] {
            assert(ids[ids.len() - 1] != ids[i]);
            assert forall|j: int| 0 <= j < prev.len() && j != i implies prev[j] != prev[i] by {
                assert(prev[j] == ids[j]);
            }
        }
    }
}

/// The shows listed under a venue id are exactly the shows at that venue,
/// in catalogue order; a venue id is listed when some show is at it.
pub proof fn law_shows_by_venue_id(db: Database, venue_id: u128)
    requires
        db.wf(),
        db.shows@.len() <= usize::MAX,
    ensures
        db.shows_by_venue_id@.contains_key(venue_id) <==> exists|i: int|
            0 <= i < db.shows@.len() && #[trigger] db.shows@[i].venue_id == venue_id,
        db.shows_by_venue_id@.contains_key(venue_id) ==> {
            let listed = db.shows_by_venue_id@[venue_id]@;
            &&& forall|j: int|
                0 <= j < listed.len() ==> #[trigger] listed[j] < db.shows@.len()
                    && db.shows@[listed[j] as int].venue_id == venue_id
            &&& forall|a: int, b: int| 0 <= a < b < listed.len() ==> #[trigger] listed[a] < #[trigger] listed[b]
            &&& forall|i: int|
                0 <= i < db.shows@.len() && db.shows@[i].venue_id == venue_id ==> #[trigger] listed.contains(
                    i as usize,
                )
        },
{
    let ids = venue_ids_of(db.shows@);
    lemma_positions_of(ids, venue_id);
    assert(db.shows_by_venue_id@.contains_key(venue_id) <==> ids.contains(venue_id));
    if ids.contains(venue_id) {
        let i = choose|i: int| 0 <= i < ids.len() && ids[i] == venue_id;
        assert(db.shows@[i].venue_id == venue_id);
    }
    if exists|i: int| 0 <= i < db.shows@.len() && #[trigger] db.shows@[i].venue_id == venue_id {
        let i = choose|i: int| 0 <= i < db.shows@.len() && #[trigger] db.shows@[i].venue_id == venue_id;
        assert(ids[i] == venue_id);
    }
    if db.shows_by_venue_id@.contains_key(venue_id) {
        let listed = db.shows_by_venue_id@[venue_id]@;
        assert(listed == positions_of(ids, venue_id));
        assert forall|j: int| 0 <= j < listed.len() implies #[trigger] listed[j] < db.shows@.len()
            && db.shows@[listed[j] as int].venue_id == venue_id by {
            assert(ids[listed[j] as int] == db.shows@[listed[j] as int].venue_id);
        }
        assert forall|i: int| 0 <= i < db.shows@.len() && db.shows@[i].venue_id == venue_id implies #[trigger] listed.contains(
            i as usize,
        ) by {
            assert(ids[i] == venue_id);
        }
    }
}

// ---------------------------------------------------------------------------
// Search results.

/// A word of a venue's name or a song's title, with the position of its
/// record.
pub enum Word {
    Venue { index: usize, venue_id: u128 },
    Song { index: usize, song_id: u128 },
}

/// A record that a search found.
pub enum SearchResult<'a> {
    Venue(&'a Venue),
    Show(&'a Show),
    Song(&'a Song),
}

impl<'a> From<&'a Venue> for SearchResult<'a> {
    fn from(value: &'a Venue) -> (r: Self) {
        Self::Venue(value)
    }
}

impl<'a> vstd::std_specs::convert::FromSpecImpl<&'a Venue> for SearchResult<'a> {
    open spec fn obeys_from_spec() -> bool {
        true
    }

    open spec fn from_spec(v: &'a Venue) -> Self {
        SearchResult::Venue(v)
    }
}

impl<'a> From<&'a Show> for SearchResult<'a> {
    fn from(value: &'a Show) -> (r: Self) {
        Self::Show(value)
    }
}

impl<'a> vstd::std_specs::convert::FromSpecImpl<&'a Show> for SearchResult<'a> {
    open spec fn obeys_from_spec() -> bool {
        true
    }

    open spec fn from_spec(v: &'a Show) -> Self {
        SearchResult::Show(v)
    }
}

impl<'a> From<&'a Song> for SearchResult<'a> {
    fn from(value: &'a Song) -> (r: Self) {
        Self::Song(value)
    }
}

impl<'a> vstd::std_specs::convert::FromSpecImpl<&'a Song> for SearchResult<'a> {
    open spec fn obeys_from_spec() -> bool {
        true
    }

    open spec fn from_spec(v: &'a Song) -> Self {
        SearchResult::Song(v)
    }
}

} // verus!
