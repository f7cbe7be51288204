//! Events of the event store: each inserts one record.
//!
//! An event is stored as a row with the record's id, a type name and the
//! record's other fields as a JSON payload. This module decides the id and
//! the type name of a row, and which kind of record a stored type name
//! stands for; the payload's JSON is written and read outside the library.
use vstd::prelude::*;

use crate::seed_json::uuid_text;
use crate::text::str_equals;
use crate::types::{ShowSet, Show, Song, SongPerformance, Venue};

verus! {

#[derive(Debug)]
pub enum Event {
    InsertVenue(Venue),
    InsertSong(Song),
    InsertShow(Show),
    InsertSet(ShowSet),
    InsertSongPerformance(SongPerformance),
}

/// The kinds of event, one for each kind of record.
#[derive(Copy, Clone, Debug, PartialEq, Eq, Structural)]
pub enum EventKind {
    InsertVenue,
    InsertSong,
    InsertShow,
    InsertSet,
    InsertSongPerformance,
}

/// The type name under which an event of a kind is stored.
pub open spec fn event_type_name(k: EventKind) -> Seq<char> {
    match k {
        EventKind::InsertVenue => "INSERT_VENUE"@,
        EventKind::InsertSong => "INSERT_SONG"@,
        EventKind::InsertShow => "INSERT_SHOW"@,
        EventKind::InsertSet => "INSERT_SET"@,
        EventKind::InsertSongPerformance => "INSERT_SONG_PERFORMANCE"@,
    }
}

/// The kind whose type name a stored type name is, if any.
pub open spec fn event_kind_named(s: Seq<char>) -> Option<EventKind> {
    if s == "INSERT_VENUE"@ {
        Some(EventKind::InsertVenue)
    } else if s == "INSERT_SONG"@ {
        Some(EventKind::InsertSong)
    } else if s == "INSERT_SHOW"@ {
        Some(EventKind::InsertShow)
    } else if s == "INSERT_SET"@ {
        Some(EventKind::InsertSet)
    } else if s == "INSERT_SONG_PERFORMANCE"@ {
        Some(EventKind::InsertSongPerformance)
    } else {
        None
    }
}

pub open spec fn event_kind(e: Event) -> EventKind {
    match e {
        Event::InsertVenue(_) => EventKind::InsertVenue,
        Event::InsertSong(_) => EventKind::InsertSong,
        Event::InsertShow(_) => EventKind::InsertShow,
        Event::InsertSet(_) => EventKind::InsertSet,
        Event::InsertSongPerformance(_) => EventKind::InsertSongPerformance,
    }
}

/// The id of the record an event inserts.
pub open spec fn event_id(e: Event) -> u128 {
    match e {
        Event::InsertVenue(v) => v.id,
        Event::InsertSong(s) => s.id,
        Event::InsertShow(s) => s.id,
        Event::InsertSet(s) => s.id,
        Event::InsertSongPerformance(p) => p.id,
    }
}

impl EventKind {
    /// The type name under which events of this kind are stored.
    pub fn type_tag(self) -> (r: &'static str)
        ensures
            r@ == event_type_name(self),
    {
        match self {
            EventKind::InsertVenue => "INSERT_VENUE",
            EventKind::InsertSong => "INSERT_SONG",
            EventKind::InsertShow => "INSERT_SHOW",
            EventKind::InsertSet => "INSERT_SET",
            EventKind::InsertSongPerformance => "INSERT_SONG_PERFORMANCE",
        }
    }

    /// The kind of a stored event, by its type name; an unknown type name
    /// is refused.
    pub fn from_type_tag(type_: &str) -> (r: EventKind)
        requires
            event_kind_named(type_@) is Some,
        ensures
            event_kind_named(type_@) == Some(r),
    {
        if str_equals(type_, "INSERT_VENUE") {
            EventKind::InsertVenue
        } else if str_equals(type_, "INSERT_SONG") {
            EventKind::InsertSong
        } else if str_equals(type_, "INSERT_SHOW") {
            EventKind::InsertShow
        } else if str_equals(type_, "INSERT_SET") {
            EventKind::InsertSet
        } else {
            EventKind::InsertSongPerformance
        }
    }

    /// Whether a stored type name is the type name of some kind.
    pub fn is_known_type_tag(type_: &str) -> (r: bool)
        ensures
            r == (event_kind_named(type_@) is Some),
    {
        str_equals(type_, "INSERT_VENUE") || str_equals(type_, "INSERT_SONG") || str_equals(
            type_,
            "INSERT_SHOW",
        ) || str_equals(type_, "INSERT_SET") || str_equals(type_, "INSERT_SONG_PERFORMANCE")
    }
}

impl Event {
    pub fn kind(&self) -> (r: EventKind)
        ensures
            r == event_kind(*self),
    {
        match self {
            Event::InsertVenue(_) => EventKind::InsertVenue,
            Event::InsertSong(_) => EventKind::InsertSong,
            Event::InsertShow(_) => EventKind::InsertShow,
            Event::InsertSet(_) => EventKind::InsertSet,
            Event::InsertSongPerformance(_) => EventKind::InsertSongPerformance,
        }
    }

    /// The type name of the row that stores this event.
    pub fn type_tag(&self) -> (r: &'static str)
        ensures
            r@ == event_type_name(event_kind(*self)),
    {
        self.kind().type_tag()
    }

    /// The id of the row that stores this event: the id of its record.
    pub fn id(&self) -> (r: u128)
        ensures
            r == event_id(*self),
    {
        match self {
            Event::InsertVenue(v) => v.id,
            Event::InsertSong(s) => s.id,
            Event::InsertShow(s) => s.id,
            Event::InsertSet(s) => s.id,
            Event::InsertSongPerformance(p) => p.id,
        }
    }
}

/// Reading back the type name under which an event is stored gives the
/// event's kind again, for every kind.
pub proof fn law_event_type_name_round_trip(k: EventKind)
    ensures
        event_kind_named(event_type_name(k)) == Some(k),
{
    reveal_strlit("INSERT_VENUE");
    reveal_strlit("INSERT_SONG");
    reveal_strlit("INSERT_SHOW");
    reveal_strlit("INSERT_SET");
    reveal_strlit("INSERT_SONG_PERFORMANCE");
    assert("INSERT_SONG"@[7] != "INSERT_VENUE"@[7]);
    assert("INSERT_SHOW"@[8] != "INSERT_VENUE"@[8]);
    assert("INSERT_SHOW"@[8] != "INSERT_SONG"@[8]);
    assert("INSERT_SET"@.len() != "INSERT_VENUE"@.len());
    assert("INSERT_SET"@.len() != "INSERT_SONG"@.len());
    assert("INSERT_SET"@.len() != "INSERT_SHOW"@.len());
    assert("INSERT_SONG_PERFORMANCE"@.len() != "INSERT_VENUE"@.len());
    assert("INSERT_SONG_PERFORMANCE"@.len() != "INSERT_SONG"@.len());
    assert("INSERT_SONG_PERFORMANCE"@.len() != "INSERT_SHOW"@.len());
    assert("INSERT_SONG_PERFORMANCE"@.len() != "INSERT_SET"@.len());
}

/// The UUID that `uuid::Uuid::parse_str` reads from a text, as its 128-bit
/// value, if the text writes one.
pub uninterp spec fn uuid_text_value(text: Seq<char>) -> Option<u128>;

/// The id of the event store's table, read from its text with
/// `uuid::Uuid::parse_str`: `None` when the text writes no UUID. Among the
/// forms it reads is the lower-case hyphenated one that `uuid` writes, which
/// gives back the UUID written.
pub fn table_id_of(text: &str) -> (r: Option<u128>)
    ensures
        r == uuid_text_value(text@),
        forall|id: u128| text@ == #[trigger] uuid_text(id) ==> r == Some(id),
{
    parse_uuid(text)
}

#[verifier::external_body]
fn parse_uuid(text: &str) -> (r: Option<u128>)
    ensures
        r == uuid_text_value(text@),
        forall|id: u128| text@ == #[trigger] uuid_text(id) ==> r == Some(id),
{
    uuid::Uuid::parse_str(text).ok().map(|id| id.as_u128())
}

} // verus!
