//! The edits that the seed tools make to JSON documents: taking the list
//! out of a wrapping object, joining the lists of numbered parts, and giving
//! each song of each track an id.
//!
//! A document is held as a `JsonValue`; it is read from text and written
//! back with `serde_json`.
use vstd::prelude::*;

use crate::seed_files::{is_uuid_v4, new_random_id};
use crate::text::str_equals;

verus! {

/// A JSON document. Numbers are kept as the text that writes them; the
/// members of an object are kept in order.
#[derive(Debug)]
pub enum JsonValue {
    Null,
    Bool(bool),
    Number(String),
    Str(String),
    Array(Vec<JsonValue>),
    Object(Vec<(String, JsonValue)>),
}

/// The mathematical form of a JSON document.
pub enum Json {
    Null,
    Bool(bool),
    Number(Seq<char>),
    Str(Seq<char>),
    Array(Seq<Json>),
    Object(Seq<(Seq<char>, Json)>),
}

pub open spec fn json_of(v: JsonValue) -> Json
    decreases v,
    via json_of_decreases
{
    match v {
        JsonValue::Null => Json::Null,
        JsonValue::Bool(b) => Json::Bool(b),
        JsonValue::Number(n) => Json::Number(n@),
        JsonValue::Str(s) => Json::Str(s@),
        JsonValue::Array(items) => Json::Array(
            Seq::new(
                items@.len(),
                |i: int|
                    if 0 <= i < items@.len() {
                        json_of(items@[i])
                    } else {
                        Json::Null
                    },
            ),
        ),
        JsonValue::Object(members) => Json::Object(
            Seq::new(
                members@.len(),
                |i: int|
                    if 0 <= i < members@.len() {
                        (members@[i].0@, json_of(members@[i].1))
                    } else {
                        (Seq::empty(), Json::Null)
                    },
            ),
        ),
    }
}

#[via_fn]
proof fn json_of_decreases(v: JsonValue) {
    match v {
        JsonValue::Array(items) => {
            assert forall|i: int| 0 <= i < items@.len() implies decreases_to!(v => #[trigger] items@[i]) by {
                assert(decreases_to!(v => items));
                assert(decreases_to!(items => items@));
                assert(decreases_to!(items@ => items@[i]));
            }
        },
        JsonValue::Object(members) => {
            assert forall|i: int| 0 <= i < members@.len() implies decreases_to!(v => #[trigger] members@[i].1) by {
                assert(decreases_to!(v => members));
                assert(decreases_to!(members => members@));
                assert(decreases_to!(members@ => members@[i]));
                assert(decreases_to!(members@[i] => members@[i].1));
            }
        },
        _ => {},
    }
}

impl View for JsonValue {
    type V = Json;

    open spec fn view(&self) -> Json {
        json_of(*self)
    }
}

pub open spec fn jsons_of(items: Seq<JsonValue>) -> Seq<Json> {
    Seq::new(items.len(), |i: int| items[i]@)
}

pub open spec fn members_of(members: Seq<(String, JsonValue)>) -> Seq<(Seq<char>, Json)> {
    Seq::new(members.len(), |i: int| (members[i].0@, members[i].1@))
}

proof fn lemma_array_view(items: Vec<JsonValue>)
    ensures
        JsonValue::Array(items)@ == Json::Array(jsons_of(items@)),
{
    let inner = json_of(JsonValue::Array(items))->Array_0;
    assert(inner.len() == items@.len());
    assert forall|i: int| 0 <= i < inner.len() implies inner[i] == jsons_of(items@)[i] by {}
    assert(inner =~= jsons_of(items@));
}

proof fn lemma_object_view(members: Vec<(String, JsonValue)>)
    ensures
        JsonValue::Object(members)@ == Json::Object(members_of(members@)),
{
    let inner = json_of(JsonValue::Object(members))->Object_0;
    assert(inner.len() == members@.len());
    assert forall|i: int| 0 <= i < inner.len() implies inner[i] == members_of(members@)[i] by {}
    assert(inner =~= members_of(members@));
}

// ---------------------------------------------------------------------------
// Joining the lists of numbered parts.

/// Whether every document is a list.
pub open spec fn all_lists(parts: Seq<Json>) -> bool {
    forall|i: int| 0 <= i < parts.len() ==> #[trigger] parts[i] is Array
}

/// The items of lists, joined in order.
pub open spec fn joined_items(parts: Seq<Json>) -> Seq<Json>
    decreases parts.len(),
{
    if parts.len() == 0 {
        Seq::empty()
    } else {
        joined_items(parts.drop_last()) + parts.last()->Array_0
    }
}

/// How many items the lists hold together.
pub open spec fn items_count(parts: Seq<Json>) -> nat
    decreases parts.len(),
{
    if parts.len() == 0 {
        0
    } else {
        items_count(parts.drop_last()) + parts.last()->Array_0.len()
    }
}

proof fn lemma_items_count_prefix(parts: Seq<Json>, k: int)
    requires
        0 <= k <= parts.len(),
    ensures
        items_count(parts.take(k)) <= items_count(parts),
    decreases parts.len(),
{
    if k < parts.len() {
        let prev = parts.drop_last();
        assert(prev.take(k) == parts.take(k));
        lemma_items_count_prefix(prev, k);
    } else {
        assert(parts.take(k) == parts);
    }
}

/// Joining lists keeps every item of every list, once, adds none, and keeps
/// their order: the items of each list come after those of the lists before
/// it, in their own order.
pub proof fn law_join_keeps_every_item(parts: Seq<Json>)
    ensures
        joined_items(parts).len() == items_count(parts),
        forall|t: int, u: int|
            0 <= t < parts.len() && 0 <= u < parts[t]->Array_0.len() ==> #[trigger] joined_items(parts)[items_count(
                parts.take(t),
            ) + u] == #[trigger] parts[t]->Array_0[u],
    decreases parts.len(),
{
    if parts.len() > 0 {
        let prev = parts.drop_last();
        law_join_keeps_every_item(prev);
        assert(joined_items(parts) == joined_items(prev) + parts.last()->Array_0);
        assert forall|t: int, u: int|
            0 <= t < parts.len() && 0 <= u < parts[t]->Array_0.len() implies #[trigger] joined_items(
            parts,
        )[items_count(parts.take(t)) + u] == #[trigger] parts[t]->Array_0[u] by {
            if t < parts.len() - 1 {
                assert(parts.take(t) == prev.take(t));
                assert(prev[t] == parts[t]);
                lemma_items_count_prefix(prev, t + 1);
                assert(prev.take(t + 1).drop_last() == prev.take(t));
                assert(prev.take(t + 1).last() == prev[t]);
            } else {
                assert(parts.take(t) == prev);
                assert(parts[t] == parts.last());
            }
        }
    }
}

/// Joins the lists of the parts of a seed file into one list, in order;
/// every part must be a list.
pub fn join_parts(parts: Vec<JsonValue>) -> (r: Option<JsonValue>)
    ensures
        r is Some <==> all_lists(jsons_of(parts@)),
        r matches Some(v) ==> v@ == Json::Array(joined_items(jsons_of(parts@))),
{
    let ghost all = jsons_of(parts@);
    let mut out: Vec<JsonValue> = Vec::new();
    let ghost mut i: int = 0;
    for part in it: parts.into_iter()
        invariant
            all == jsons_of(it.seq()),
            i == it.index(),
            all_lists(all.take(i)),
            jsons_of(out@) == joined_items(all.take(i)),
    {
        assert(all.take(i + 1).drop_last() == all.take(i));
        assert(all[i] == part@);
        match part {
            JsonValue::Array(mut items) => {
                let ghost before = out@;
                out.append(&mut items);
                assert(jsons_of(out@) =~= jsons_of(before) + part@->Array_0);
                assert(all_lists(all.take(i + 1))) by {
                    assert forall|j: int| 0 <= j < i + 1 implies #[trigger] all.take(i + 1)[j] is Array by {
                        if j < i {
                            assert(all.take(i + 1)[j] == all.take(i)[j]);
                        }
                    }
                }
            },
            _ => {
                assert(!all_lists(all)) by {
                    assert(!(all[i] is Array));
                }
                return None;
            },
        }
        proof {
            i = i + 1;
        }
    }
    assert(all.take(i) == all);
    let r = JsonValue::Array(out);
    proof {
        lemma_array_view(out);
    }
    Some(r)
}

// ---------------------------------------------------------------------------
// Taking the list out of a wrapping object.

/// The member at `i` is the first with the key.
pub open spec fn first_with_key(members: Seq<(Seq<char>, Json)>, key: Seq<char>, i: int) -> bool {
    &&& 0 <= i < members.len()
    &&& members[i].0 == key
    &&& forall|j: int| 0 <= j < i ==> #[trigger] members[j].0 != key
}

/// The value of the first member of an object with a key, if any.
pub open spec fn member_value(members: Seq<(Seq<char>, Json)>, key: Seq<char>) -> Option<Json> {
    if exists|i: int| first_with_key(members, key, i) {
        Some(members[choose|i: int| first_with_key(members, key, i)].1)
    } else {
        None
    }
}

/// What a document holds under a key: the document must be an object with
/// a member of that key.
pub open spec fn value_under(document: Json, key: Seq<char>) -> Option<Json> {
    match document {
        Json::Object(members) => member_value(members, key),
        _ => None,
    }
}

/// Takes out what a seed document holds under the key `root`: a seed file
/// as downloaded wraps its list in an object, under the file's root name.
pub fn nested_list(document: JsonValue, root: &str) -> (r: Option<JsonValue>)
    ensures
        r is Some <==> value_under(document@, root@) is Some,
        r matches Some(v) ==> value_under(document@, root@) == Some(v@),
{
    let ghost doc = document@;
    match document {
        JsonValue::Object(mut members) => {
            proof {
                lemma_object_view(members);
            }
            let ghost ms = members_of(members@);
            let mut i: usize = 0;
            while i < members.len() && !str_equals(members[i].0.as_str(), root)
                invariant
                    0 <= i <= members@.len(),
                    ms == members_of(members@),
                    forall|j: int| 0 <= j < i ==> #[trigger] ms[j].0 != root@,
                decreases members@.len() - i,
            {
                assert(ms[i as int].0 == members@[i as int].0@);
                i += 1;
            }
            if i == members.len() {
                assert(!exists|k: int| first_with_key(ms, root@, k)) by {
                    if exists|k: int| first_with_key(ms, root@, k) {
                        let k = choose|k: int| first_with_key(ms, root@, k);
                        assert(ms[k].0 != root@);
                    }
                }
                None
            } else {
                assert(ms[i as int].0 == members@[i as int].0@);
                assert(first_with_key(ms, root@, i as int));
                assert forall|k: int| first_with_key(ms, root@, k) implies k == i by {
                    if k < i {
                        assert(ms[k].0 != root@);
                    } else if k > i {
                        assert(ms[i as int].0 != root@);
                    }
                }
                let (_, value) = members.remove(i);
                Some(value)
            }
        },
        _ => None,
    }
}

// ---------------------------------------------------------------------------
// Giving each song of each track an id.

/// The position of the first member with a key, if any.
pub fn find_member(members: &Vec<(String, JsonValue)>, key: &str) -> (r: Option<usize>)
    ensures
        match r {
            Some(i) => first_with_key(members_of(members@), key@, i as int),
            None => !exists|k: int| first_with_key(members_of(members@), key@, k),
        },
{
    let ghost ms = members_of(members@);
    let mut i: usize = 0;
    while i < members.len() && !str_equals(members[i].0.as_str(), key)
        invariant
            0 <= i <= members@.len(),
            ms == members_of(members@),
            forall|j: int| 0 <= j < i ==> #[trigger] ms[j].0 != key@,
        decreases members@.len() - i,
    {
        assert(ms[i as int].0 == members@[i as int].0@);
        i += 1;
    }
    if i == members.len() {
        assert(!exists|k: int| first_with_key(ms, key@, k)) by {
            if exists|k: int| first_with_key(ms, key@, k) {
                let k = choose|k: int| first_with_key(ms, key@, k);
                assert(ms[k].0 != key@);
            }
        }
        None
    } else {
        assert(ms[i as int].0 == members@[i as int].0@);
        Some(i)
    }
}

proof fn lemma_first_with_key_unique(members: Seq<(Seq<char>, Json)>, key: Seq<char>, i: int)
    requires
        first_with_key(members, key, i),
    ensures
        forall|k: int| first_with_key(members, key, k) ==> k == i,
        member_value(members, key) == Some(members[i].1),
{
    assert forall|k: int| first_with_key(members, key, k) implies k == i by {
        if k < i {
            assert(members[k].0 != key);
        } else if k > i {
            assert(members[i].0 != key);
        }
    }
}

/// The songs of a track: the list under its `songs` member.
pub open spec fn track_songs(track: Json) -> Option<Seq<Json>> {
    match track {
        Json::Object(members) => match member_value(members, "songs"@) {
            Some(Json::Array(songs)) => Some(songs),
            _ => None,
        },
        _ => None,
    }
}

/// An object that can take an id: it has no `id` member.
pub open spec fn object_takes_id(song: Json) -> bool {
    song is Object && member_value(song->Object_0, "id"@) is None
}

/// Every song of a track can take an id.
pub open spec fn track_takes_ids(track: Json) -> bool {
    &&& track_songs(track) is Some
    &&& forall|j: int| 0 <= j < track_songs(track)->0.len() ==> object_takes_id(#[trigger] track_songs(track)->0[j])
}

/// A list of tracks every song of which can take an id.
pub open spec fn tracks_take_ids(tracks: Seq<Json>) -> bool {
    forall|t: int| 0 <= t < tracks.len() ==> track_takes_ids(#[trigger] tracks[t])
}

/// How many songs the tracks have.
pub open spec fn songs_count(tracks: Seq<Json>) -> nat
    decreases tracks.len(),
{
    if tracks.len() == 0 {
        0
    } else {
        songs_count(tracks.drop_last()) + match track_songs(tracks.last()) {
            Some(songs) => songs.len(),
            None => 0,
        }
    }
}

/// An object with an `id` member added at the end.
pub open spec fn object_with_id(song: Json, id: Seq<char>) -> Json {
    Json::Object(song->Object_0.push(("id"@, Json::Str(id))))
}

/// A track whose songs take the ids in order.
pub open spec fn track_with_ids(track: Json, ids: Seq<Seq<char>>) -> Json {
    let members = track->Object_0;
    let k = choose|i: int| first_with_key(members, "songs"@, i);
    let songs = track_songs(track)->0;
    Json::Object(
        members.update(k, ("songs"@, Json::Array(Seq::new(songs.len(), |j: int| object_with_id(songs[j], ids[j]))))),
    )
}

/// Giving ids to a track's songs changes nothing but its `songs` member:
/// every other member keeps its key, value and place, the `songs` member
/// keeps its place, and each song keeps its members, in order, with an `id`
/// member added after them.
pub proof fn law_song_ids_change_only_songs(track: Json, ids: Seq<Seq<char>>)
    requires
        track_takes_ids(track),
    ensures
        track_with_ids(track, ids) is Object,
        track_with_ids(track, ids)->Object_0.len() == track->Object_0.len(),
        exists|k: int| first_with_key(track->Object_0, "songs"@, k),
        forall|k: int|
            #[trigger] first_with_key(track->Object_0, "songs"@, k) ==> {
                &&& forall|i: int|
                    0 <= i < track->Object_0.len() && i != k ==> #[trigger] track_with_ids(track, ids)->Object_0[i]
                        == track->Object_0[i]
                &&& track_with_ids(track, ids)->Object_0[k].0 == "songs"@
                &&& track_with_ids(track, ids)->Object_0[k].1 is Array
                &&& track_with_ids(track, ids)->Object_0[k].1->Array_0.len() == track_songs(track)->0.len()
                &&& forall|j: int|
                    0 <= j < track_songs(track)->0.len() ==> {
                        let song = track_songs(track)->0[j];
                        let out = #[trigger] track_with_ids(track, ids)->Object_0[k].1->Array_0[j];
                        &&& out is Object
                        &&& out->Object_0.len() == song->Object_0.len() + 1
                        &&& forall|i: int| 0 <= i < song->Object_0.len() ==> out->Object_0[i] == song->Object_0[i]
                        &&& out->Object_0[song->Object_0.len() as int] == ("id"@, Json::Str(ids[j]))
                    }
            },
{
    let members = track->Object_0;
    assert(exists|i: int| first_with_key(members, "songs"@, i));
    let k0 = choose|i: int| first_with_key(members, "songs"@, i);
    lemma_first_with_key_unique(members, "songs"@, k0);
    assert forall|k: int| #[trigger] first_with_key(members, "songs"@, k) implies {
        &&& forall|i: int|
            0 <= i < members.len() && i != k ==> #[trigger] track_with_ids(track, ids)->Object_0[i] == members[i]
        &&& track_with_ids(track, ids)->Object_0[k].0 == "songs"@
        &&& track_with_ids(track, ids)->Object_0[k].1 is Array
        &&& track_with_ids(track, ids)->Object_0[k].1->Array_0.len() == track_songs(track)->0.len()
        &&& forall|j: int|
            0 <= j < track_songs(track)->0.len() ==> {
                let song = track_songs(track)->0[j];
                let out = #[trigger] track_with_ids(track, ids)->Object_0[k].1->Array_0[j];
                &&& out is Object
                &&& out->Object_0.len() == song->Object_0.len() + 1
                &&& forall|i: int| 0 <= i < song->Object_0.len() ==> out->Object_0[i] == song->Object_0[i]
                &&& out->Object_0[song->Object_0.len() as int] == ("id"@, Json::Str(ids[j]))
            }
    } by {
        assert(k == k0);
        assert forall|j: int| 0 <= j < track_songs(track)->0.len() implies {
            let song = track_songs(track)->0[j];
            let out = #[trigger] track_with_ids(track, ids)->Object_0[k].1->Array_0[j];
            &&& out is Object
            &&& out->Object_0.len() == song->Object_0.len() + 1
            &&& forall|i: int| 0 <= i < song->Object_0.len() ==> out->Object_0[i] == song->Object_0[i]
            &&& out->Object_0[song->Object_0.len() as int] == ("id"@, Json::Str(ids[j]))
        } by {
            assert(object_takes_id(track_songs(track)->0[j]));
        }
    }
}

/// Giving ids to a list of objects changes nothing but adds an `id`: each
/// object keeps its members, in order, with an `id` member added after them.
pub proof fn law_record_ids_change_only_ids(objects: Seq<Json>, ids: Seq<Seq<char>>)
    requires
        forall|q: int| 0 <= q < objects.len() ==> object_takes_id(#[trigger] objects[q]),
    ensures
        objects_with_ids(objects, ids).len() == objects.len(),
        forall|q: int|
            0 <= q < objects.len() ==> {
                let out = #[trigger] objects_with_ids(objects, ids)[q];
                &&& out is Object
                &&& out->Object_0.len() == objects[q]->Object_0.len() + 1
                &&& forall|i: int| 0 <= i < objects[q]->Object_0.len() ==> out->Object_0[i] == objects[q]->Object_0[i]
                &&& out->Object_0[objects[q]->Object_0.len() as int] == ("id"@, Json::Str(ids[q]))
            },
{
    assert forall|q: int| 0 <= q < objects.len() implies {
        let out = #[trigger] objects_with_ids(objects, ids)[q];
        &&& out is Object
        &&& out->Object_0.len() == objects[q]->Object_0.len() + 1
        &&& forall|i: int| 0 <= i < objects[q]->Object_0.len() ==> out->Object_0[i] == objects[q]->Object_0[i]
        &&& out->Object_0[objects[q]->Object_0.len() as int] == ("id"@, Json::Str(ids[q]))
    } by {
        assert(object_takes_id(objects[q]));
    }
}

/// Tracks whose songs take the ids in order, track after track.
pub open spec fn tracks_with_ids(tracks: Seq<Json>, ids: Seq<Seq<char>>) -> Seq<Json> {
    Seq::new(tracks.len(), |t: int| track_with_ids(tracks[t], ids.skip(songs_count(tracks.take(t)) as int)))
}

pub open spec fn texts_of_ids(ids: Seq<String>) -> Seq<Seq<char>> {
    Seq::new(ids.len(), |i: int| ids[i]@)
}

/// Objects that each take the id at their position in `ids`.
pub open spec fn objects_with_ids(objects: Seq<Json>, ids: Seq<Seq<char>>) -> Seq<Json> {
    Seq::new(objects.len(), |q: int| object_with_id(objects[q], ids[q]))
}

/// Gives each of a list of objects an `id` member, taking the ids from
/// `start` on, in order; every item must be an object without an `id`, and
/// there must be enough ids.
fn with_ids_from(objects: Vec<JsonValue>, ids: &Vec<String>, start: usize) -> (r: Option<(Vec<JsonValue>, usize)>)
    requires
        start <= ids@.len(),
    ensures
        r is Some <==> (forall|q: int| 0 <= q < objects@.len() ==> object_takes_id(#[trigger] jsons_of(objects@)[q]))
            && start + objects@.len() <= ids@.len(),
        r matches Some((v, end)) ==> end == start + objects@.len() && jsons_of(v@) == objects_with_ids(
            jsons_of(objects@),
            texts_of_ids(ids@).skip(start as int),
        ),
{
    let ghost os = jsons_of(objects@);
    let ghost all_ids = texts_of_ids(ids@).skip(start as int);
    let mut out: Vec<JsonValue> = Vec::new();
    let mut used: usize = start;
    let ghost mut j: int = 0;
    for object in it: objects.into_iter()
        invariant
            os == jsons_of(it.seq()),
            os == jsons_of(objects@),
            j == it.index(),
            j <= os.len(),
            used == start + j,
            used <= ids@.len(),
            all_ids == texts_of_ids(ids@).skip(start as int),
            forall|q: int| 0 <= q < j ==> object_takes_id(#[trigger] os[q]),
            jsons_of(out@) == Seq::new(j as nat, |q: int| object_with_id(os[q], all_ids[q])),
    {
        assert(os[j] == object@);
        match object {
            JsonValue::Object(mut members) => {
                proof {
                    lemma_object_view(members);
                }
                match find_member(&members, "id") {
                    Some(p) => {
                        proof {
                            lemma_first_with_key_unique(members_of(members@), "id"@, p as int);
                        }
                        assert(!object_takes_id(os[j]));
                        return None;
                    },
                    None => {},
                }
                if used >= ids.len() {
                    assert(j < os.len());
                    return None;
                }
                let ghost before = members@;
                members.push(("id".to_owned(), JsonValue::Str(ids[used].clone())));
                proof {
                    lemma_object_view(members);
                    assert(JsonValue::Str(ids@[used as int])@ == Json::Str(ids@[used as int]@));
                    assert(members_of(members@) =~= members_of(before).push(("id"@, Json::Str(ids@[used as int]@))));
                    assert(all_ids[j] == ids@[used as int]@);
                }
                let ghost prev = out@;
                out.push(JsonValue::Object(members));
                assert(jsons_of(out@) =~= Seq::new((j + 1) as nat, |q: int| object_with_id(os[q], all_ids[q]))) by {
                    assert(jsons_of(out@) =~= jsons_of(prev).push(out@[j]@));
                }
                used += 1;
            },
            _ => {
                return None;
            },
        }
        proof {
            j = j + 1;
        }
    }
    assert(jsons_of(out@) =~= objects_with_ids(os, all_ids));
    Some((out, used))
}

/// Gives each song of one track an id, taking the ids from `start` on.
fn track_with_song_ids(track: JsonValue, ids: &Vec<String>, start: usize) -> (r: Option<(JsonValue, usize)>)
    requires
        start <= ids@.len(),
    ensures
        r is Some <==> track_takes_ids(track@) && start + track_songs(track@)->0.len() <= ids@.len(),
        r matches Some((v, end)) ==> end == start + track_songs(track@)->0.len() && v@ == track_with_ids(
            track@,
            texts_of_ids(ids@).skip(start as int),
        ),
{
    let ghost whole = track@;
    match track {
        JsonValue::Object(mut members) => {
            proof {
                lemma_object_view(members);
            }
            let ghost ms = members_of(members@);
            let k = match find_member(&members, "songs") {
                Some(k) => k,
                None => {
                    return None;
                },
            };
            proof {
                lemma_first_with_key_unique(ms, "songs"@, k as int);
            }
            let ghost orig = members@;
            let (key, value) = members.remove(k);
            assert(key@ == "songs"@);
            match value {
                JsonValue::Array(songs) => {
                    proof {
                        lemma_array_view(songs);
                    }
                    let ghost ss = jsons_of(songs@);
                    assert(track_songs(whole) == Some(ss));
                    let (new_songs, used) = match with_ids_from(songs, ids, start) {
                        Some(done) => done,
                        None => {
                            proof {
                                if !(forall|q: int| 0 <= q < ss.len() ==> object_takes_id(#[trigger] ss[q])) {
                                    let q = choose|q: int| 0 <= q < ss.len() && !object_takes_id(ss[q]);
                                    assert(!object_takes_id(track_songs(whole)->0[q]));
                                }
                            }
                            return None;
                        },
                    };
                    let ghost new_view = jsons_of(new_songs@);
                    members.insert(k, (key, JsonValue::Array(new_songs)));
                    proof {
                        lemma_array_view(new_songs);
                        lemma_object_view(members);
                        assert(members@ =~= orig.update(k as int, members@[k as int]));
                        assert(members_of(members@) =~= ms.update(k as int, ("songs"@, Json::Array(new_view))));
                        assert(track_takes_ids(whole)) by {
                            assert forall|q: int| 0 <= q < track_songs(whole)->0.len() implies object_takes_id(
                                #[trigger] track_songs(whole)->0[q],
                            ) by {
                                assert(object_takes_id(ss[q]));
                            }
                        }
                    }
                    Some((JsonValue::Object(members), used))
                },
                _ => {
                    return None;
                },
            }
        },
        _ => None,
    }
}

proof fn lemma_songs_count_prefix(tracks: Seq<Json>, k: int)
    requires
        0 <= k <= tracks.len(),
    ensures
        songs_count(tracks.take(k)) <= songs_count(tracks),
    decreases tracks.len(),
{
    if k < tracks.len() {
        lemma_songs_count_prefix(tracks.drop_last(), k);
        assert(tracks.drop_last().take(k) == tracks.take(k));
    } else {
        assert(tracks.take(k) == tracks);
    }
}

/// Gives each song of each track an id, in order, taking one id of `ids`
/// for each song: a track is an object whose `songs` member is a list of
/// objects, none of which has an `id` yet. The document must be such a list
/// of tracks, and there must be enough ids.
pub fn add_song_ids(tracks: JsonValue, ids: &Vec<String>) -> (r: Option<JsonValue>)
    ensures
        r is Some <==> tracks@ is Array && tracks_take_ids(tracks@->Array_0) && songs_count(tracks@->Array_0)
            <= ids@.len(),
        r matches Some(v) ==> v@ == Json::Array(tracks_with_ids(tracks@->Array_0, texts_of_ids(ids@))),
{
    let ghost whole = tracks@;
    let ghost idt = texts_of_ids(ids@);
    match tracks {
        JsonValue::Array(items) => {
            proof {
                lemma_array_view(items);
            }
            let ghost ts = jsons_of(items@);
            let mut out: Vec<JsonValue> = Vec::new();
            let mut used: usize = 0;
            let ghost mut i: int = 0;
            assert(ts.take(0) =~= Seq::<Json>::empty());
            assert(tracks_with_ids(ts.take(0), idt) =~= jsons_of(out@));
            for item in it: items.into_iter()
                invariant
                    ts == jsons_of(it.seq()),
                    whole == tracks@,
                    whole == Json::Array(ts),
                    idt == texts_of_ids(ids@),
                    i == it.index(),
                    i <= ts.len(),
                    used == songs_count(ts.take(i)),
                    used <= ids@.len(),
                    tracks_take_ids(ts.take(i)),
                    jsons_of(out@) == tracks_with_ids(ts.take(i), idt),
            {
                assert(ts[i] == item@);
                let ghost next = ts.take(i + 1);
                assert(next.drop_last() == ts.take(i));
                assert(next.last() == ts[i]);
                match track_with_song_ids(item, ids, used) {
                    Some((track, end)) => {
                        let ghost prev = out@;
                        out.push(track);
                        proof {
                            assert(tracks_take_ids(next)) by {
                                assert forall|t: int| 0 <= t < next.len() implies track_takes_ids(#[trigger] next[t]) by {
                                    if t < i {
                                        assert(next[t] == ts.take(i)[t]);
                                    }
                                }
                            }
                            assert forall|t: int| 0 <= t < i implies next.take(t) == ts.take(i).take(t) by {
                                assert(next.take(t) =~= ts.take(i).take(t));
                            }
                            assert(next.take(i) == ts.take(i));
                            assert(jsons_of(out@) =~= tracks_with_ids(next, idt)) by {
                                assert(jsons_of(out@) =~= jsons_of(prev).push(out@[i]@));
                                assert forall|t: int| 0 <= t < i implies #[trigger] tracks_with_ids(next, idt)[t]
                                    == tracks_with_ids(ts.take(i), idt)[t] by {
                                    assert(next.take(t) == ts.take(i).take(t));
                                    assert(next[t] == ts.take(i)[t]);
                                }
                            }
                        }
                        used = end;
                    },
                    None => {
                        proof {
                            if track_takes_ids(ts[i]) {
                                lemma_songs_count_prefix(ts, i + 1);
                            } else {
                                assert(!tracks_take_ids(ts));
                            }
                        }
                        return None;
                    },
                }
                proof {
                    i = i + 1;
                }
            }
            assert(ts.take(i) == ts);
            let r = JsonValue::Array(out);
            proof {
                lemma_array_view(out);
            }
            Some(r)
        },
        _ => None,
    }
}

// ---------------------------------------------------------------------------
// Fresh ids for the songs of a seed file.

/// The lower-case hexadecimal digit of a number below 16.
pub open spec fn hex_digit(n: u128) -> char {
    if n < 10 {
        (48 + n) as char
    } else {
        (87 + n) as char
    }
}

/// The `k`-th of the 32 hexadecimal digits of a 128-bit value, the most
/// significant first.
pub open spec fn hex_digit_at(id: u128, k: int) -> char {
    hex_digit((id >> ((124 - 4 * k) as u128)) & 0xfu128)
}

/// The text of a UUID as `uuid::Uuid`'s `Display` writes it: its 32
/// hexadecimal digits in lower case, most significant first, in groups of
/// 8, 4, 4, 4 and 12 joined by `-`.
pub open spec fn uuid_text(id: u128) -> Seq<char> {
    Seq::new(
        36,
        |i: int|
            if i == 8 || i == 13 || i == 18 || i == 23 {
                '-'
            } else if i < 8 {
                hex_digit_at(id, i)
            } else if i < 13 {
                hex_digit_at(id, i - 1)
            } else if i < 18 {
                hex_digit_at(id, i - 2)
            } else if i < 23 {
                hex_digit_at(id, i - 3)
            } else {
                hex_digit_at(id, i - 4)
            },
    )
}

/// Writes a UUID held as its 128-bit value with `uuid::Uuid::from_u128`
/// (the bytes of the value, most significant first) and `to_string`, which
/// writes the lower-case hyphenated form.
#[verifier::external_body]
fn id_text(id: u128) -> (r: String)
    ensures
        r@ == uuid_text(id),
{
    uuid::Uuid::from_u128(id).to_string()
}

pub open spec fn id_texts(ids: Seq<u128>) -> Seq<Seq<char>> {
    Seq::new(ids.len(), |k: int| uuid_text(ids[k]))
}

/// The texts of `count` fresh random ids, with the ids they write.
fn fresh_id_texts(count: usize) -> (r: (Vec<String>, Ghost<Seq<u128>>))
    ensures
        r.0@.len() == count,
        r.1@.len() == count,
        texts_of_ids(r.0@) == id_texts(r.1@),
        forall|k: int| 0 <= k < r.1@.len() ==> is_uuid_v4(#[trigger] r.1@[k]),
{
    let ghost mut raw: Seq<u128> = Seq::empty();
    let mut ids: Vec<String> = Vec::new();
    while ids.len() < count
        invariant
            ids@.len() <= count,
            raw.len() == ids@.len(),
            texts_of_ids(ids@) == id_texts(raw),
            forall|k: int| 0 <= k < raw.len() ==> is_uuid_v4(#[trigger] raw[k]),
        decreases count - ids@.len(),
    {
        let id = new_random_id();
        let ghost before_ids = ids@;
        let ghost before_raw = raw;
        ids.push(id_text(id));
        proof {
            raw = raw.push(id);
        }
        assert(texts_of_ids(ids@) =~= id_texts(raw)) by {
            assert(texts_of_ids(ids@) =~= texts_of_ids(before_ids).push(ids@[before_ids.len() as int]@));
            assert(id_texts(raw) =~= id_texts(before_raw).push(uuid_text(id)));
        }
    }
    (ids, Ghost(raw))
}

/// How many songs a track has; none when it is not a track.
fn track_song_count(track: &JsonValue) -> (r: usize)
    ensures
        r == match track_songs(track@) {
            Some(songs) => songs.len(),
            None => 0,
        },
{
    match track {
        JsonValue::Object(members) => {
            proof {
                lemma_object_view(*members);
            }
            match find_member(members, "songs") {
                Some(k) => {
                    proof {
                        lemma_first_with_key_unique(members_of(members@), "songs"@, k as int);
                    }
                    match &members[k].1 {
                        JsonValue::Array(songs) => {
                            proof {
                                lemma_array_view(*songs);
                            }
                            songs.len()
                        },
                        _ => 0,
                    }
                },
                None => 0,
            }
        },
        _ => 0,
    }
}

/// How many songs the tracks have, when that number fits a `usize`.
fn songs_in_tracks(items: &Vec<JsonValue>) -> (r: Option<usize>)
    ensures
        r is Some <==> songs_count(jsons_of(items@)) <= usize::MAX,
        r matches Some(n) ==> n == songs_count(jsons_of(items@)),
{
    let ghost ts = jsons_of(items@);
    let mut total: usize = 0;
    let mut i: usize = 0;
    while i < items.len()
        invariant
            0 <= i <= items@.len(),
            ts == jsons_of(items@),
            total == songs_count(ts.take(i as int)),
        decreases items@.len() - i,
    {
        let n = track_song_count(&items[i]);
        assert(ts.take(i + 1).drop_last() == ts.take(i as int));
        assert(ts.take(i + 1).last() == items@[i as int]@);
        match total.checked_add(n) {
            Some(t) => {
                total = t;
            },
            None => {
                proof {
                    lemma_songs_count_prefix(ts, i + 1);
                }
                return None;
            },
        }
        i += 1;
    }
    assert(ts.take(i as int) == ts);
    Some(total)
}

/// Gives each song of each track of a seed document a fresh random id, in
/// order: the document must be a list of tracks whose songs have no id yet,
/// and the number of its songs must fit a `usize`. Which ids come out is
/// chance: the result is the document with some list of version-4 UUIDs,
/// one for each song, given out in order.
pub fn add_track_song_ids(tracks: JsonValue) -> (r: Option<JsonValue>)
    ensures
        r is Some <==> tracks@ is Array && tracks_take_ids(tracks@->Array_0) && songs_count(tracks@->Array_0)
            <= usize::MAX,
        r matches Some(v) ==> exists|ids: Seq<u128>|
            ids.len() == songs_count(tracks@->Array_0) && (forall|k: int| 0 <= k < ids.len() ==> is_uuid_v4(
                #[trigger] ids[k],
            )) && v@ == Json::Array(
                #[trigger] tracks_with_ids(tracks@->Array_0, id_texts(ids)),
            ),
{
    let count = match &tracks {
        JsonValue::Array(items) => {
            proof {
                lemma_array_view(*items);
            }
            match songs_in_tracks(items) {
                Some(n) => n,
                None => {
                    return None;
                },
            }
        },
        _ => {
            return None;
        },
    };
    let (ids, Ghost(raw)) = fresh_id_texts(count);
    let r = add_song_ids(tracks, &ids);
    assert(r matches Some(v) ==> v@ == Json::Array(tracks_with_ids(tracks@->Array_0, id_texts(raw))));
    r
}

// ---------------------------------------------------------------------------
// Giving each record of a seed file an id.

/// A list every item of which is an object without an `id`.
pub open spec fn records_take_ids(list: Json) -> bool {
    &&& list is Array
    &&& forall|j: int| 0 <= j < list->Array_0.len() ==> object_takes_id(#[trigger] list->Array_0[j])
}

/// Takes the list of records out of a seed document, where it is wrapped
/// under the key `root`, and gives each record a fresh random UUID as its
/// `id`. The document must hold, under the key, a list of objects none of
/// which has an `id` yet. Which ids come out is chance: the result is the
/// list with some version-4 UUIDs, one for each record, given out in order.
pub fn add_record_ids(document: JsonValue, root: &str) -> (r: Option<JsonValue>)
    ensures
        r is Some <==> value_under(document@, root@) is Some && records_take_ids(value_under(document@, root@)->0),
        r matches Some(v) ==> exists|ids: Seq<u128>|
            ids.len() == value_under(document@, root@)->0->Array_0.len() && (forall|k: int|
                0 <= k < ids.len() ==> is_uuid_v4(#[trigger] ids[k])) && v@ == Json::Array(
                #[trigger] objects_with_ids(value_under(document@, root@)->0->Array_0, id_texts(ids)),
            ),
{
    let ghost doc = document@;
    let list = match nested_list(document, root) {
        Some(list) => list,
        None => {
            return None;
        },
    };
    match list {
        JsonValue::Array(items) => {
            proof {
                lemma_array_view(items);
            }
            let (ids, Ghost(raw)) = fresh_id_texts(items.len());
            assert(texts_of_ids(ids@).skip(0) == texts_of_ids(ids@));
            match with_ids_from(items, &ids, 0) {
                Some((with_ids, _)) => {
                    proof {
                        lemma_array_view(with_ids);
                        assert(value_under(doc, root@) == Some(Json::Array(jsons_of(items@))));
                        assert(jsons_of(with_ids@) == objects_with_ids(jsons_of(items@), id_texts(raw)));
                        assert(raw.len() == value_under(doc, root@)->0->Array_0.len());
                        assert(records_take_ids(value_under(doc, root@)->0)) by {
                            assert forall|j: int| 0 <= j < jsons_of(items@).len() implies object_takes_id(
                                #[trigger] value_under(doc, root@)->0->Array_0[j],
                            ) by {
                                assert(object_takes_id(jsons_of(items@)[j]));
                            }
                        }
                    }
                    Some(JsonValue::Array(with_ids))
                },
                None => {
                    proof {
                        assert(value_under(doc, root@) == Some(Json::Array(jsons_of(items@))));
                        let q = choose|q: int| 0 <= q < items@.len() && !object_takes_id(#[trigger] jsons_of(items@)[q]);
                        assert(!object_takes_id(value_under(doc, root@)->0->Array_0[q]));
                    }
                    None
                },
            }
        },
        _ => None,
    }
}

// ---------------------------------------------------------------------------
// Reading and writing JSON text.

#[verifier::external_type_specification]
#[verifier::external_body]
pub struct ExJsonTree(serde_json::Value);

/// The document that `serde_json::from_str::<serde_json::Value>` reads from
/// a text, if the text is JSON.
pub uninterp spec fn json_text_value(text: Seq<char>) -> Option<Json>;

/// The text that `serde_json::to_string_pretty` writes for a document.
pub uninterp spec fn pretty_json_of(document: Json) -> Seq<char>;

/// Turns a `serde_json::Value` into a `JsonValue`, node for node: numbers as
/// the text `serde_json` writes for them, members in the map's order.
#[verifier::external_body]
fn json_value_of_tree(tree: serde_json::Value) -> JsonValue {
    match tree {
        serde_json::Value::Null => JsonValue::Null,
        serde_json::Value::Bool(b) => JsonValue::Bool(b),
        serde_json::Value::Number(n) => JsonValue::Number(n.to_string()),
        serde_json::Value::String(s) => JsonValue::Str(s),
        serde_json::Value::Array(items) => JsonValue::Array(items.into_iter().map(json_value_of_tree).collect()),
        serde_json::Value::Object(members) => JsonValue::Object(
            members.into_iter().map(|(key, value)| (key, json_value_of_tree(value))).collect(),
        ),
    }
}

/// Turns a `JsonValue` into a `serde_json::Value`, node for node; a number
/// text that `serde_json::Number` does not read is kept as a string.
#[verifier::external_body]
fn json_tree_of(document: &JsonValue) -> serde_json::Value {
    match document {
        JsonValue::Null => serde_json::Value::Null,
        JsonValue::Bool(b) => serde_json::Value::Bool(*b),
        JsonValue::Number(n) => match n.parse::<serde_json::Number>() {
            Ok(number) => serde_json::Value::Number(number),
            Err(_) => serde_json::Value::String(n.clone()),
        },
        JsonValue::Str(s) => serde_json::Value::String(s.clone()),
        JsonValue::Array(items) => serde_json::Value::Array(items.iter().map(json_tree_of).collect()),
        JsonValue::Object(members) => serde_json::Value::Object(
            members.iter().map(|(key, value)| (key.clone(), json_tree_of(value))).collect(),
        ),
    }
}

/// Reads a JSON document from a text with `serde_json::from_str` into a
/// `serde_json::Value`; `None` when the text is not JSON. What the document
/// is stays behind the name `json_text_value`.
#[verifier::external_body]
pub fn parse_json_text(text: &str) -> (r: Option<JsonValue>)
    ensures
        match r {
            Some(v) => json_text_value(text@) == Some(v@),
            None => json_text_value(text@) is None,
        },
{
    serde_json::from_str::<serde_json::Value>(text).ok().map(json_value_of_tree)
}

/// Writes a document as pretty-printed JSON with
/// `serde_json::to_string_pretty`, which cannot fail on a
/// `serde_json::Value` (its keys are strings). The members of an object are
/// written in the order of `serde_json`'s map, which keeps one member per
/// key; what is written stays behind the name `pretty_json_of`.
#[verifier::external_body]
pub fn pretty_json_text(document: &JsonValue) -> (r: String)
    ensures
        r@ == pretty_json_of(document@),
{
    serde_json::to_string_pretty(&json_tree_of(document)).unwrap()
}

/// The documents that texts hold.
pub open spec fn documents_of(texts: Seq<String>) -> Seq<Json> {
    Seq::new(texts.len(), |i: int| json_text_value(texts[i]@)->0)
}

/// Every text is JSON.
pub open spec fn all_json(texts: Seq<String>) -> bool {
    forall|i: int| 0 <= i < texts.len() ==> #[trigger] json_text_value(texts[i]@) is Some
}

/// The text of a seed file joined from the texts of its numbered parts:
/// every part must be JSON holding a list; the lists are joined in order.
pub fn concatenated_parts_text(part_texts: &Vec<String>) -> (r: Option<String>)
    ensures
        r is Some <==> all_json(part_texts@) && all_lists(documents_of(part_texts@)),
        r matches Some(t) ==> t@ == pretty_json_of(Json::Array(joined_items(documents_of(part_texts@)))),
{
    let ghost docs = documents_of(part_texts@);
    let mut parts: Vec<JsonValue> = Vec::new();
    let mut i: usize = 0;
    while i < part_texts.len()
        invariant
            0 <= i <= part_texts@.len(),
            docs == documents_of(part_texts@),
            parts@.len() == i,
            forall|j: int| 0 <= j < i ==> #[trigger] json_text_value(part_texts@[j]@) is Some,
            jsons_of(parts@) == docs.take(i as int),
        decreases part_texts@.len() - i,
    {
        match parse_json_text(part_texts[i].as_str()) {
            Some(v) => {
                let ghost before = parts@;
                parts.push(v);
                assert(jsons_of(parts@) =~= docs.take(i + 1)) by {
                    assert(jsons_of(parts@) =~= jsons_of(before).push(v@));
                }
            },
            None => {
                return None;
            },
        }
        i += 1;
    }
    assert(docs.take(i as int) == docs);
    match join_parts(parts) {
        Some(joined) => Some(pretty_json_text(&joined)),
        None => None,
    }
}

/// The text of a seed file whose records, wrapped under `root` in the
/// downloaded text, take fresh random ids (see `add_record_ids`); the text
/// must be JSON.
pub fn records_with_ids_text(text: &str, root: &str) -> (r: Option<String>)
    ensures
        r is Some <==> json_text_value(text@) is Some && value_under(json_text_value(text@)->0, root@) is Some
            && records_take_ids(value_under(json_text_value(text@)->0, root@)->0),
        r matches Some(t) ==> exists|ids: Seq<u128>|
            ids.len() == value_under(json_text_value(text@)->0, root@)->0->Array_0.len() && (forall|k: int|
                0 <= k < ids.len() ==> is_uuid_v4(#[trigger] ids[k])) && t@ == pretty_json_of(
                Json::Array(
                    #[trigger] objects_with_ids(
                        value_under(json_text_value(text@)->0, root@)->0->Array_0,
                        id_texts(ids),
                    ),
                ),
            ),
{
    let document = match parse_json_text(text) {
        Some(document) => document,
        None => {
            return None;
        },
    };
    let ghost doc = document@;
    match add_record_ids(document, root) {
        Some(v) => {
            let ghost ids = choose|ids: Seq<u128>|
                ids.len() == value_under(doc, root@)->0->Array_0.len() && (forall|k: int|
                    0 <= k < ids.len() ==> is_uuid_v4(#[trigger] ids[k])) && v@ == Json::Array(
                    #[trigger] objects_with_ids(value_under(doc, root@)->0->Array_0, id_texts(ids)),
                );
            let t = pretty_json_text(&v);
            assert(t@ == pretty_json_of(Json::Array(objects_with_ids(value_under(doc, root@)->0->Array_0, id_texts(ids)))));
            Some(t)
        },
        None => None,
    }
}

/// The text of a tracks seed file whose songs take fresh random ids (see
/// `add_track_song_ids`); the text must be JSON.
pub fn tracks_with_song_ids_text(text: &str) -> (r: Option<String>)
    ensures
        r is Some <==> json_text_value(text@) is Some && json_text_value(text@)->0 is Array && tracks_take_ids(
            json_text_value(text@)->0->Array_0,
        ) && songs_count(json_text_value(text@)->0->Array_0) <= usize::MAX,
        r matches Some(t) ==> exists|ids: Seq<u128>|
            ids.len() == songs_count(json_text_value(text@)->0->Array_0) && (forall|k: int|
                0 <= k < ids.len() ==> is_uuid_v4(#[trigger] ids[k])) && t@ == pretty_json_of(
                Json::Array(#[trigger] tracks_with_ids(json_text_value(text@)->0->Array_0, id_texts(ids))),
            ),
{
    let document = match parse_json_text(text) {
        Some(document) => document,
        None => {
            return None;
        },
    };
    let ghost doc = document@;
    match add_track_song_ids(document) {
        Some(v) => {
            let ghost ids = choose|ids: Seq<u128>|
                ids.len() == songs_count(doc->Array_0) && (forall|k: int|
                    0 <= k < ids.len() ==> is_uuid_v4(#[trigger] ids[k])) && v@ == Json::Array(
                    #[trigger] tracks_with_ids(doc->Array_0, id_texts(ids)),
                );
            let t = pretty_json_text(&v);
            assert(t@ == pretty_json_of(Json::Array(tracks_with_ids(doc->Array_0, id_texts(ids)))));
            Some(t)
        },
        None => None,
    }
}

} // verus!
