//! The seed files of the catalogue and what is made from them: where they
//! lie, and how song performances, shows and sets read from them become
//! records and events.
use vstd::prelude::*;
use chrono::NaiveDate;
use indexmap::IndexMap;
use std::collections::HashMap;
use vstd::std_specs::iter::IteratorSpec;

use crate::event::Event;
use crate::types::{SetName, Show, ShowSet, SongPerformance};

verus! {

/// `PathBuf::push` on Unix: an absolute component replaces the path;
/// otherwise the component is appended, after a `/` unless the path is
/// empty or already ends with one.
pub open spec fn path_push(p: Seq<char>, c: Seq<char>) -> Seq<char> {
    if c.len() > 0 && c[0] == '/' {
        c
    } else if p.len() > 0 && p.last() != '/' {
        p + seq!['/'] + c
    } else {
        p + c
    }
}

fn chars_of(s: &str) -> (r: Vec<char>)
    ensures
        r@ == s@,
{
    let mut out: Vec<char> = Vec::new();
    for c in it: s.chars()
        invariant
            out@ == it.seq().take(it.index() as int),
    {
        out.push(c);
    }
    out
}

/// Appends a path component to a path, as `path_push` says.
pub fn push_path(path: &mut String, component: &str)
    ensures
        final(path)@ == path_push(old(path)@, component@),
{
    proof {
        reveal_strlit("/");
    }
    let p = chars_of(path.as_str());
    let c = chars_of(component);
    if c.len() > 0 && c[0] == '/' {
        *path = component.to_owned();
    } else if p.len() > 0 && p[p.len() - 1] != '/' {
        path.append("/");
        path.append(component);
    } else {
        path.append(component);
    }
}

broadcast use vstd::std_specs::hash::group_hash_axioms;

// ---------------------------------------------------------------------------
// Where the seed files lie.

pub open spec fn workspace_root_of(manifest_dir: Seq<char>) -> Seq<char> {
    path_push(manifest_dir, ".."@)
}

pub open spec fn seed_directory_of(manifest_dir: Seq<char>) -> Seq<char> {
    path_push(workspace_root_of(manifest_dir), "phishin-seed"@)
}

pub open spec fn seed_file_path_of(manifest_dir: Seq<char>, file_name_root: Seq<char>) -> Seq<char> {
    path_push(seed_directory_of(manifest_dir), file_name_root + ".json"@)
}

/// The workspace root: the parent of the directory of the tool's manifest.
pub fn workspace_root_directory(manifest_dir: &str) -> (r: String)
    ensures
        r@ == workspace_root_of(manifest_dir@),
{
    let mut path = manifest_dir.to_owned();
    push_path(&mut path, "..");
    path
}

/// The directory of the seed files: `phishin-seed` in the workspace root.
pub fn json_seed_file_directory(manifest_dir: &str) -> (r: String)
    ensures
        r@ == seed_directory_of(manifest_dir@),
{
    let mut path = workspace_root_directory(manifest_dir);
    push_path(&mut path, "phishin-seed");
    path
}

/// The seed file `<file_name_root>.json` in the directory of the seed files.
pub fn json_seed_file_path(manifest_dir: &str, file_name_root: &str) -> (r: String)
    ensures
        r@ == seed_file_path_of(manifest_dir@, file_name_root@),
{
    let mut path = json_seed_file_directory(manifest_dir);
    let mut file_name = file_name_root.to_owned();
    file_name.append(".json");
    push_path(&mut path, file_name.as_str());
    path
}

/// For a manifest directory given without a trailing `/` and a file name
/// that is not an absolute path, the seed file is
/// `<manifest_dir>/../phishin-seed/<file_name_root>.json`.
pub proof fn law_seed_file_path_layout(manifest_dir: Seq<char>, file_name_root: Seq<char>)
    requires
        manifest_dir.len() > 0,
        manifest_dir.last() != '/',
        file_name_root.len() == 0 || file_name_root[0] != '/',
    ensures
        seed_file_path_of(manifest_dir, file_name_root) == manifest_dir + "/../phishin-seed/"@
            + file_name_root + ".json"@,
{
    reveal_strlit("..");
    reveal_strlit("phishin-seed");
    reveal_strlit("/../phishin-seed/");
    reveal_strlit(".json");
    let root = manifest_dir + seq!['/'] + ".."@;
    assert(workspace_root_of(manifest_dir) == root);
    assert(root.last() == '.');
    let dir = root + seq!['/'] + "phishin-seed"@;
    assert(seed_directory_of(manifest_dir) == dir);
    assert(dir.last() == 'd');
    let name = file_name_root + ".json"@;
    assert(name.len() > 0);
    if file_name_root.len() == 0 {
        assert(name[0] == '.');
    } else {
        assert(name[0] == file_name_root[0]);
    }
    assert(seed_file_path_of(manifest_dir, file_name_root) == dir + seq!['/'] + name);
    assert(dir + seq!['/'] + name =~= manifest_dir + "/../phishin-seed/"@ + file_name_root + ".json"@);
}

// ---------------------------------------------------------------------------
// Records read from the seed files.

#[derive(Debug)]
pub struct SongPerformanceJson {
    pub id: u128,
    pub set_name: SetName,
    pub show: ShowOnlyOriginalId,
    pub songs: Vec<SongOnlyId>,
}

/// A show known only by its id in the source data.
#[derive(Copy, Clone, Debug)]
pub struct ShowOnlyOriginalId {
    pub original_id: u32,
}

#[derive(Copy, Clone, Debug)]
pub struct SongOnlyId {
    pub id: u128,
}

#[derive(Debug)]
pub struct ShowJson {
    pub id: u128,
    pub original_id: u32,
    pub date: NaiveDate,
    pub venue: VenueOnlySlug,
}

#[derive(Debug)]
pub struct VenueOnlySlug {
    pub slug: String,
}

// ---------------------------------------------------------------------------
// Grouping song performances by show and by set.

/// The distinct keys of a sequence, in the order of their first occurrence.
pub open spec fn first_seen<K>(keys: Seq<K>) -> Seq<K>
    decreases keys.len(),
{
    if keys.len() == 0 {
        Seq::empty()
    } else {
        let prev = first_seen(keys.drop_last());
        if prev.contains(keys.last()) {
            prev
        } else {
            prev.push(keys.last())
        }
    }
}

/// Items grouped by a key: the keys in order of first occurrence, each with
/// its items in their order.
pub open spec fn grouped<T, K>(items: Seq<T>, key: spec_fn(T) -> K) -> Seq<(K, Seq<T>)> {
    first_seen(items.map_values(key)).map_values(|k: K| (k, items.filter(|x: T| key(x) == k)))
}

/// Song performances grouped by set name.
pub open spec fn grouped_by_set_name(items: Seq<SongPerformanceJson>) -> Seq<(SetName, Seq<SongPerformanceJson>)> {
    grouped(items, |x: SongPerformanceJson| x.set_name)
}

/// Song performances grouped by show, then by set name within a show.
pub open spec fn grouped_by_show_and_set(items: Seq<SongPerformanceJson>) -> Seq<
    (u32, Seq<(SetName, Seq<SongPerformanceJson>)>),
> {
    grouped(items, |x: SongPerformanceJson| x.show.original_id).map_values(
        |p: (u32, Seq<SongPerformanceJson>)| (p.0, grouped_by_set_name(p.1)),
    )
}

pub open spec fn deref_all(v: Seq<&SongPerformanceJson>) -> Seq<SongPerformanceJson> {
    v.map_values(|x: &SongPerformanceJson| *x)
}

pub open spec fn set_groups_view(v: Seq<(SetName, Vec<&SongPerformanceJson>)>) -> Seq<
    (SetName, Seq<SongPerformanceJson>),
> {
    v.map_values(|p: (SetName, Vec<&SongPerformanceJson>)| (p.0, deref_all(p.1@)))
}

proof fn lemma_first_seen<K>(keys: Seq<K>)
    ensures
        forall|k: K| #[trigger] first_seen(keys).contains(k) <==> keys.contains(k),
        forall|a: int, b: int|
            0 <= a < b < first_seen(keys).len() ==> #[trigger] first_seen(keys)[a] != #[trigger] first_seen(
                keys,
            )[b],
    decreases keys.len(),
{
    if keys.len() > 0 {
        let prev = keys.drop_last();
        lemma_first_seen(prev);
        let f = first_seen(keys);
        let p = first_seen(prev);
        assert forall|k: K| #[trigger] f.contains(k) <==> keys.contains(k) by {
            assert(keys[keys.len() - 1] == keys.last());
            if keys.contains(k) && k != keys.last() {
                let j = choose|j: int| 0 <= j < keys.len() && keys[j] == k;
                assert(j < keys.len() - 1);
                assert(prev[j] == k);
                assert(p.contains(k));
                let t = choose|t: int| 0 <= t < p.len() && p[t] == k;
                assert(f[t] == k);
            }
            if p.contains(k) {
                let t = choose|t: int| 0 <= t < p.len() && p[t] == k;
                assert(f[t] == k);
                assert(prev.contains(k));
                let j = choose|j: int| 0 <= j < prev.len() && prev[j] == k;
                assert(keys[j] == k);
            }
            if k == keys.last() {
                if !p.contains(k) {
                    assert(f[f.len() - 1] == k);
                }
            }
            if f.contains(k) && !p.contains(k) {
                let t = choose|t: int| 0 <= t < f.len() && f[t] == k;
                assert(t == f.len() - 1 || p[t] == k);
            }
        }
    }
}

proof fn lemma_filter_push<T>(s: Seq<T>, x: T, pred: spec_fn(T) -> bool)
    ensures
        s.push(x).filter(pred) == if pred(x) {
            s.filter(pred).push(x)
        } else {
            s.filter(pred)
        },
{
    reveal_with_fuel(Seq::<_>::filter, 1);
    assert(s.push(x).drop_last() == s);
}

proof fn lemma_filter_none<T>(s: Seq<T>, pred: spec_fn(T) -> bool)
    requires
        forall|j: int| 0 <= j < s.len() ==> !pred(#[trigger] s[j]),
    ensures
        s.filter(pred) == Seq::<T>::empty(),
    decreases s.len(),
{
    reveal_with_fuel(Seq::<_>::filter, 1);
    if s.len() > 0 {
        let t = s.drop_last();
        assert forall|j: int| 0 <= j < t.len() implies !pred(#[trigger] t[j]) by {
            assert(t[j] == s[j]);
        }
        lemma_filter_none(t, pred);
        assert(!pred(s[s.len() - 1]));
    }
}

/// How grouping changes when one more item comes: the item joins the group
/// of its key, or opens a new group at the end.
proof fn lemma_grouped_push<T, K>(items: Seq<T>, key: spec_fn(T) -> K, x: T)
    ensures
        forall|a: int, b: int|
            0 <= a < b < grouped(items, key).len() ==> #[trigger] grouped(items, key)[a].0
                != #[trigger] grouped(items, key)[b].0,
        (exists|t: int| 0 <= t < grouped(items, key).len() && grouped(items, key)[t].0 == key(x))
            ==> grouped(items.push(x), key).len() == grouped(items, key).len(),
        !(exists|t: int| 0 <= t < grouped(items, key).len() && grouped(items, key)[t].0 == key(x))
            ==> {
            &&& grouped(items.push(x), key).len() == grouped(items, key).len() + 1
            &&& grouped(items.push(x), key)[grouped(items, key).len() as int] == (key(x), seq![x])
        },
        forall|t: int|
            0 <= t < grouped(items, key).len() ==> #[trigger] grouped(items.push(x), key)[t] == if grouped(
                items,
                key,
            )[t].0 == key(x) {
                (grouped(items, key)[t].0, grouped(items, key)[t].1.push(x))
            } else {
                grouped(items, key)[t]
            },
{
    let keys = items.map_values(key);
    let next = items.push(x);
    let next_keys = next.map_values(key);
    assert(next_keys == keys.push(key(x)));
    assert(next_keys.drop_last() == keys);
    lemma_first_seen(keys);
    let f = first_seen(keys);
    let old = grouped(items, key);
    let new = grouped(next, key);
    assert forall|t: int| 0 <= t < old.len() implies #[trigger] new[t] == if old[t].0 == key(x) {
        (old[t].0, old[t].1.push(x))
    } else {
        old[t]
    } by {
        lemma_filter_push(items, x, |y: T| key(y) == f[t]);
    }
    if exists|t: int| 0 <= t < old.len() && old[t].0 == key(x) {
        let t = choose|t: int| 0 <= t < old.len() && old[t].0 == key(x);
        assert(f[t] == key(x));
        assert(f.contains(key(x)));
    } else {
        if f.contains(key(x)) {
            let t = choose|t: int| 0 <= t < f.len() && f[t] == key(x);
            assert(old[t].0 == key(x));
        }
        let pred = |y: T| key(y) == key(x);
        lemma_filter_push(items, x, pred);
        assert forall|j: int| 0 <= j < items.len() implies !pred(#[trigger] items[j]) by {
            assert(keys[j] == key(items[j]));
        }
        lemma_filter_none(items, pred);
        assert(new[old.len() as int] == (key(x), seq![x]));
    }
}

/// Groups song performances by set name, in order of first occurrence.
pub fn group_by_set_name<'a>(items: &Vec<&'a SongPerformanceJson>) -> (r: Vec<(SetName, Vec<&'a SongPerformanceJson>)>)
    ensures
        set_groups_view(r@) == grouped_by_set_name(deref_all(items@)),
{
    let ghost all = deref_all(items@);
    let ghost key = |x: SongPerformanceJson| x.set_name;
    let mut groups: Vec<(SetName, Vec<&'a SongPerformanceJson>)> = Vec::new();
    let mut index: IndexMap<u32, ()> = index_keys_new();
    let mut i: usize = 0;
    while i < items.len()
        invariant
            0 <= i <= items@.len(),
            all == deref_all(items@),
            key == (|x: SongPerformanceJson| x.set_name),
            set_groups_view(groups@) == grouped(all.take(i as int), key),
            index_keys_of(index) == groups@.map_values(
                |g: (SetName, Vec<&SongPerformanceJson>)| set_name_code(g.0) as u32,
            ),
        decreases items@.len() - i,
    {
        let item: &'a SongPerformanceJson = items[i];
        let name = item.set_name;
        let ghost prefix = all.take(i as int);
        let ghost old_view = grouped(prefix, key);
        let ghost old_groups = groups@;
        assert(all.take(i + 1) == prefix.push(*item));
        proof {
            lemma_grouped_push(prefix, key, *item);
        }
        let code = set_name_code_of(name) as u32;
        let ghost codes = groups@.map_values(|g: (SetName, Vec<&SongPerformanceJson>)| set_name_code(g.0) as u32);
        match index_key_position(&index, code) {
            Some(g) => {
                assert(codes[g as int] == set_name_code(groups@[g as int].0) as u32);
                assert(groups@[g as int].0 == name) by {
                    lemma_set_name_code_injective(groups@[g as int].0, name);
                }
                assert(old_view[g as int].0 == groups@[g as int].0);
                groups[g].1.push(item);
                assert(deref_all(groups@[g as int].1@) == deref_all(old_groups[g as int].1@).push(*item));
                assert(groups@.map_values(|g: (SetName, Vec<&SongPerformanceJson>)| set_name_code(g.0) as u32)
                    =~= codes);
            },
            None => {
                assert forall|t: int| 0 <= t < old_view.len() implies old_view[t].0 != name by {
                    assert(old_view[t].0 == groups@[t].0);
                    assert(codes[t] == set_name_code(groups@[t].0) as u32);
                }
                index_key_insert(&mut index, code);
                let mut members: Vec<&'a SongPerformanceJson> = Vec::new();
                members.push(item);
                groups.push((name, members));
                assert(deref_all(members@) == seq![*item]);
                assert(groups@.map_values(|g: (SetName, Vec<&SongPerformanceJson>)| set_name_code(g.0) as u32)
                    =~= codes.push(code));
            },
        }
        assert(set_groups_view(groups@) =~= grouped(all.take(i + 1), key));
        i += 1;
    }
    assert(all.take(items@.len() as int) == all);
    groups
}

pub open spec fn show_groups_view(v: Seq<(u32, Vec<(SetName, Vec<&SongPerformanceJson>)>)>) -> Seq<
    (u32, Seq<(SetName, Seq<SongPerformanceJson>)>),
> {
    v.map_values(|p: (u32, Vec<(SetName, Vec<&SongPerformanceJson>)>)| (p.0, set_groups_view(p.1@)))
}

#[verifier::external_type_specification]
#[verifier::external_body]
#[verifier::reject_recursive_types(K)]
#[verifier::reject_recursive_types(V)]
#[verifier::reject_recursive_types(S)]
pub struct ExIndexMap<K, V, S>(IndexMap<K, V, S>);

/// The keys of an `indexmap::IndexMap` of numbers, in their order.
pub uninterp spec fn index_keys_of(m: IndexMap<u32, ()>) -> Seq<u32>;

/// An empty map, by `IndexMap::new`.
#[verifier::external_body]
fn index_keys_new() -> (r: IndexMap<u32, ()>)
    ensures
        index_keys_of(r) == Seq::<u32>::empty(),
{
    IndexMap::new()
}

/// The position of a key in the map's order, by `IndexMap::get_index_of`.
#[verifier::external_body]
fn index_key_position(m: &IndexMap<u32, ()>, key: u32) -> (r: Option<usize>)
    ensures
        match r {
            Some(i) => i < index_keys_of(*m).len() && index_keys_of(*m)[i as int] == key,
            None => !index_keys_of(*m).contains(key),
        },
{
    m.get_index_of(&key)
}

/// Adds a key with `IndexMap::insert`: a key not yet in the map is put last
/// in the order; a key already there keeps its place.
#[verifier::external_body]
fn index_key_insert(m: &mut IndexMap<u32, ()>, key: u32)
    ensures
        index_keys_of(*old(m)).contains(key) ==> index_keys_of(*final(m)) == index_keys_of(*old(m)),
        !index_keys_of(*old(m)).contains(key) ==> index_keys_of(*final(m)) == index_keys_of(*old(m)).push(key),
{
    m.insert(key, ());
}

/// Groups song performances by show and, within a show, by set name; shows
/// and set names come in the order of their first occurrence, and the
/// performances of a group in their order.
pub fn get_song_performances_by_set<'a>(song_performances: &'a [SongPerformanceJson]) -> (r: Vec<
    (u32, Vec<(SetName, Vec<&'a SongPerformanceJson>)>),
>)
    ensures
        show_groups_view(r@) == grouped_by_show_and_set(song_performances@),
{
    let ghost all = song_performances@;
    let ghost key = |x: SongPerformanceJson| x.show.original_id;
    let mut keys: Vec<u32> = Vec::new();
    let mut members: Vec<Vec<&'a SongPerformanceJson>> = Vec::new();
    let mut index: IndexMap<u32, ()> = index_keys_new();
    let mut i: usize = 0;
    while i < song_performances.len()
        invariant
            0 <= i <= all.len(),
            all == song_performances@,
            key == (|x: SongPerformanceJson| x.show.original_id),
            keys@.len() == members@.len(),
            keys@.len() == grouped(all.take(i as int), key).len(),
            forall|t: int|
                0 <= t < keys@.len() ==> (keys@[t], deref_all(#[trigger] members@[t]@)) == grouped(
                    all.take(i as int),
                    key,
                )[t],
            index_keys_of(index) == keys@,
        decreases all.len() - i,
    {
        let item: &'a SongPerformanceJson = &song_performances[i];
        let k = item.show.original_id;
        let ghost prefix = all.take(i as int);
        let ghost old_view = grouped(prefix, key);
        let ghost old_keys = keys@;
        let ghost old_members = members@;
        assert(all.take(i + 1) == prefix.push(*item));
        proof {
            lemma_grouped_push(prefix, key, *item);
        }
        match index_key_position(&index, k) {
            Some(g) => {
                assert(keys@[g as int] == k);
                assert((keys@[g as int], deref_all(members@[g as int]@)) == old_view[g as int]);
                members[g].push(item);
                assert(deref_all(members@[g as int]@) == deref_all(old_members[g as int]@).push(*item));
            },
            None => {
                assert(!exists|t: int| 0 <= t < old_view.len() && old_view[t].0 == key(*item)) by {
                    if exists|t: int| 0 <= t < old_view.len() && old_view[t].0 == key(*item) {
                        let t = choose|t: int| 0 <= t < old_view.len() && old_view[t].0 == key(*item);
                        assert((keys@[t], deref_all(members@[t]@)) == old_view[t]);
                        assert(keys@[t] == k);
                        assert(keys@.contains(k));
                    }
                }
                index_key_insert(&mut index, k);
                keys.push(k);
                let mut group: Vec<&'a SongPerformanceJson> = Vec::new();
                group.push(item);
                members.push(group);
                assert(deref_all(group@) == seq![*item]);
            },
        }
        proof {
            let new_view = grouped(all.take(i + 1), key);
            assert forall|t: int| 0 <= t < keys@.len() implies (keys@[t], deref_all(#[trigger] members@[t]@))
                == new_view[t] by {
                if t < old_keys.len() {
                    assert(old_view[t] == (old_keys[t], deref_all(old_members[t]@)));
                }
            }
        }
        i += 1;
    }
    assert(all.take(all.len() as int) == all);
    let ghost groups = grouped(all, key);
    let mut out: Vec<(u32, Vec<(SetName, Vec<&'a SongPerformanceJson>)>)> = Vec::new();
    let mut t: usize = 0;
    while t < keys.len()
        invariant
            0 <= t <= keys@.len(),
            keys@.len() == members@.len(),
            keys@.len() == groups.len(),
            forall|u: int| 0 <= u < keys@.len() ==> (keys@[u], deref_all(#[trigger] members@[u]@)) == groups[u],
            out@.len() == t,
            forall|u: int|
                0 <= u < t ==> #[trigger] out@[u].0 == groups[u].0 && set_groups_view(out@[u].1@)
                    == grouped_by_set_name(groups[u].1),
        decreases keys@.len() - t,
    {
        let sets = group_by_set_name(&members[t]);
        out.push((keys[t], sets));
        t += 1;
    }
    assert(show_groups_view(out@) =~= grouped_by_show_and_set(all));
    out
}

// ---------------------------------------------------------------------------
// Shows and their ids in the source data.

/// Each original id of the shows mapped to the show's id; where an original
/// id occurs twice, the later show is kept.
pub open spec fn show_ids_by_original(shows: Seq<ShowJson>) -> Map<u32, u128>
    decreases shows.len(),
{
    if shows.len() == 0 {
        Map::empty()
    } else {
        show_ids_by_original(shows.drop_last()).insert(shows.last().original_id, shows.last().id)
    }
}

/// Maps each show's original id to its id.
pub fn show_original_ids(shows: &[ShowJson]) -> (r: HashMap<u32, u128>)
    ensures
        r@ == show_ids_by_original(shows@),
{
    let mut map: HashMap<u32, u128> = HashMap::new();
    let mut i: usize = 0;
    while i < shows.len()
        invariant
            0 <= i <= shows@.len(),
            map@ == show_ids_by_original(shows@.take(i as int)),
        decreases shows@.len() - i,
    {
        assert(shows@.take(i + 1).drop_last() == shows@.take(i as int));
        map.insert(shows[i].original_id, shows[i].id);
        i += 1;
    }
    assert(shows@.take(shows@.len() as int) == shows@);
    map
}

/// Maps each show id back to an original id that maps to it. Where two
/// original ids map to the same show id, which of them is kept depends on
/// the order in which the map is walked.
pub fn invert_show_original_ids(ids: &HashMap<u32, u128>) -> (r: HashMap<u128, u32>)
    ensures
        forall|id: u128|
            #[trigger] r@.contains_key(id) <==> exists|o: u32| ids@.contains_key(o) && #[trigger] ids@[o] == id,
        forall|id: u128| #[trigger] r@.contains_key(id) ==> ids@.contains_key(r@[id]) && ids@[r@[id]] == id,
{
    let mut map: HashMap<u128, u32> = HashMap::new();
    let ghost entries = ids.iter().remaining();
    for entry in it: ids.iter()
        invariant
            it.seq() == entries,
            forall|i: int|
                0 <= i < entries.len() ==> ids@.contains_key(*entries[i].0) && ids@[*entries[i].0] == *entries[i].1,
            forall|k: u32| #[trigger] ids@.contains_key(k) ==> entries.contains((&k, &ids@[k])),
            forall|id: u128|
                #[trigger] map@.contains_key(id) <==> exists|i: int| 0 <= i < it.index() && *entries[i].1 == id,
            forall|id: u128| #[trigger] map@.contains_key(id) ==> ids@.contains_key(map@[id]) && ids@[map@[id]] == id,
    {
        let (o, id) = entry;
        map.insert(*id, *o);
    }
    proof {
        assert forall|id: u128| #[trigger] map@.contains_key(id) <==> exists|o: u32| ids@.contains_key(o) && #[trigger] ids@[o]
            == id by {
            if exists|o: u32| ids@.contains_key(o) && #[trigger] ids@[o] == id {
                let o = choose|o: u32| ids@.contains_key(o) && #[trigger] ids@[o] == id;
                assert(entries.contains((&o, &ids@[o])));
                let i = choose|i: int| 0 <= i < entries.len() && entries[i] == (&o, &ids@[o]);
                assert(*entries[i].1 == id);
            }
        }
    }
    map
}

// ---------------------------------------------------------------------------
// Venue slugs.

/// The id of the venue with a slug: the last pair that names the slug.
pub open spec fn venue_for_slug(slugs: Seq<(String, u128)>, slug: Seq<char>) -> Option<u128>
    decreases slugs.len(),
{
    if slugs.len() == 0 {
        None
    } else if slugs.last().0@ == slug {
        Some(slugs.last().1)
    } else {
        venue_for_slug(slugs.drop_last(), slug)
    }
}

/// A slug is found exactly when some pair names it, and then the id found
/// is that of the last pair naming it, as a map built from the pairs in
/// order keeps.
pub proof fn law_venue_for_slug_last_pair(slugs: Seq<(String, u128)>, slug: Seq<char>)
    ensures
        venue_for_slug(slugs, slug) is Some <==> exists|i: int| 0 <= i < slugs.len() && #[trigger] slugs[i].0@ == slug,
        venue_for_slug(slugs, slug) is Some ==> exists|i: int|
            0 <= i < slugs.len() && #[trigger] slugs[i].0@ == slug && slugs[i].1 == venue_for_slug(slugs, slug)->0
                && forall|j: int| i < j < slugs.len() ==> #[trigger] slugs[j].0@ != slug,
    decreases slugs.len(),
{
    if slugs.len() > 0 {
        let prev = slugs.drop_last();
        law_venue_for_slug_last_pair(prev, slug);
        let n = slugs.len() - 1;
        assert(slugs[n] == slugs.last());
        if slugs.last().0@ == slug {
            assert(slugs[n].0@ == slug);
        } else {
            if exists|i: int| 0 <= i < slugs.len() && #[trigger] slugs[i].0@ == slug {
                let i = choose|i: int| 0 <= i < slugs.len() && #[trigger] slugs[i].0@ == slug;
                assert(i < n);
                assert(prev[i] == slugs[i]);
            }
            if venue_for_slug(prev, slug) is Some {
                let i = choose|i: int|
                    0 <= i < prev.len() && #[trigger] prev[i].0@ == slug && prev[i].1 == venue_for_slug(prev, slug)->0
                        && forall|j: int| i < j < prev.len() ==> #[trigger] prev[j].0@ != slug;
                assert(slugs[i] == prev[i]);
                assert forall|j: int| i < j < slugs.len() implies #[trigger] slugs[j].0@ != slug by {
                    if j < n {
                        assert(slugs[j] == prev[j]);
                    }
                }
            }
        }
    }
}

/// The id of the venue with a slug, if any pair names the slug.
pub fn find_venue_for_slug(venue_slugs: &[(String, u128)], slug: &String) -> (r: Option<u128>)
    ensures
        r == venue_for_slug(venue_slugs@, slug@),
{
    let mut found: Option<u128> = None;
    let mut i: usize = 0;
    while i < venue_slugs.len()
        invariant
            0 <= i <= venue_slugs@.len(),
            found == venue_for_slug(venue_slugs@.take(i as int), slug@),
        decreases venue_slugs@.len() - i,
    {
        assert(venue_slugs@.take(i + 1).drop_last() == venue_slugs@.take(i as int));
        if venue_slugs[i].0 == *slug {
            found = Some(venue_slugs[i].1);
        }
        i += 1;
    }
    assert(venue_slugs@.take(venue_slugs@.len() as int) == venue_slugs@);
    found
}

impl ShowJson {
    /// The show record of a show read from the seed file, its venue found by
    /// slug; the slug must be known.
    pub fn process(self, venue_slugs: &[(String, u128)]) -> (r: Show)
        requires
            venue_for_slug(venue_slugs@, self.venue.slug@) is Some,
        ensures
            r.id == self.id,
            r.date == self.date,
            r.venue_id == venue_for_slug(venue_slugs@, self.venue.slug@)->0,
    {
        let venue_id = find_venue_for_slug(venue_slugs, &self.venue.slug).unwrap();
        Show { id: self.id, date: self.date, venue_id }
    }
}

// ---------------------------------------------------------------------------
// Sets made from the grouped song performances.

/// A UUID of version 4 (random) in the variant of RFC 9562: its version
/// nibble is 4 and its variant bits are `10`.
pub open spec fn is_uuid_v4(id: u128) -> bool {
    (id >> 76u128) & 0xfu128 == 4 && (id >> 62u128) & 0x3u128 == 2
}

/// A fresh random id, from `uuid::Uuid::new_v4`, as its 128-bit value.
/// Which id comes out is chance; `new_v4` masks in the version nibble 4 and
/// the variant bits `10`, so every outcome is a version-4 UUID.
#[verifier::external_body]
pub(crate) fn new_random_id() -> (r: u128)
    ensures
        is_uuid_v4(r),
{
    uuid::Uuid::new_v4().as_u128()
}

/// The show id and set name of each set made from grouped song
/// performances: one set for each set name of each show, in group order.
pub open spec fn sets_made(groups: Seq<(u32, Seq<(SetName, Seq<SongPerformanceJson>)>)>, ids: Map<u32, u128>) -> Seq<
    (u128, SetName),
>
    decreases groups.len(),
{
    if groups.len() == 0 {
        Seq::empty()
    } else {
        let g = groups.last();
        sets_made(groups.drop_last(), ids) + g.1.map_values(
            |p: (SetName, Seq<SongPerformanceJson>)| (ids[g.0], p.0),
        )
    }
}

/// How many (show, set name) groups there are.
pub open spec fn set_groups_count(groups: Seq<(u32, Seq<(SetName, Seq<SongPerformanceJson>)>)>) -> nat
    decreases groups.len(),
{
    if groups.len() == 0 {
        0
    } else {
        set_groups_count(groups.drop_last()) + groups.last().1.len()
    }
}

/// One set is made for every set name of every show, no more: the sets come
/// show after show, and within a show in the order of its set names, each
/// with the show's id and its set name.
pub proof fn law_one_set_per_show_and_set_name(
    groups: Seq<(u32, Seq<(SetName, Seq<SongPerformanceJson>)>)>,
    ids: Map<u32, u128>,
)
    ensures
        sets_made(groups, ids).len() == set_groups_count(groups),
        forall|t: int, u: int|
            0 <= t < groups.len() && 0 <= u < groups[t].1.len() ==> #[trigger] sets_made(groups, ids)[set_groups_count(
                groups.take(t),
            ) + u] == (ids[groups[t].0], #[trigger] groups[t].1[u].0),
    decreases groups.len(),
{
    if groups.len() > 0 {
        let prev = groups.drop_last();
        law_one_set_per_show_and_set_name(prev, ids);
        let g = groups.last();
        let tail = g.1.map_values(|p: (SetName, Seq<SongPerformanceJson>)| (ids[g.0], p.0));
        assert(sets_made(groups, ids) == sets_made(prev, ids) + tail);
        assert forall|t: int, u: int|
            0 <= t < groups.len() && 0 <= u < groups[t].1.len() implies #[trigger] sets_made(
            groups,
            ids,
        )[set_groups_count(groups.take(t)) + u] == (ids[groups[t].0], #[trigger] groups[t].1[u].0) by {
            if t < groups.len() - 1 {
                assert(groups.take(t) == prev.take(t));
                assert(prev[t] == groups[t]);
                lemma_set_groups_count_prefix(prev, t + 1);
                assert(prev.take(t + 1).drop_last() == prev.take(t));
                assert(prev.take(t + 1).last() == prev[t]);
            } else {
                assert(groups.take(t) == prev);
                assert(groups[t] == g);
            }
        }
    }
}

proof fn lemma_set_groups_count_prefix(groups: Seq<(u32, Seq<(SetName, Seq<SongPerformanceJson>)>)>, k: int)
    requires
        0 <= k <= groups.len(),
    ensures
        set_groups_count(groups.take(k)) <= set_groups_count(groups),
    decreases groups.len(),
{
    if k < groups.len() {
        let prev = groups.drop_last();
        assert(prev.take(k) == groups.take(k));
        lemma_set_groups_count_prefix(prev, k);
    } else {
        assert(groups.take(k) == groups);
    }
}

pub open spec fn show_and_set_name(s: ShowSet) -> (u128, SetName) {
    (s.show_id, s.set_name)
}

/// One set for each set name of each show of the grouped song
/// performances, with a fresh random id, the show found by original id;
/// every show must be known.
pub fn sets_for_song_performances(
    groups: &Vec<(u32, Vec<(SetName, Vec<&SongPerformanceJson>)>)>,
    show_original_ids: &HashMap<u32, u128>,
) -> (r: Vec<ShowSet>)
    requires
        forall|t: int| 0 <= t < groups@.len() ==> show_original_ids@.contains_key(#[trigger] groups@[t].0),
    ensures
        r@.map_values(|s: ShowSet| show_and_set_name(s)) == sets_made(show_groups_view(groups@), show_original_ids@),
        forall|i: int| 0 <= i < r@.len() ==> is_uuid_v4(#[trigger] r@[i].id),
{
    let ghost view = show_groups_view(groups@);
    let mut out: Vec<ShowSet> = Vec::new();
    let mut t: usize = 0;
    while t < groups.len()
        invariant
            0 <= t <= groups@.len(),
            view == show_groups_view(groups@),
            forall|u: int| 0 <= u < groups@.len() ==> show_original_ids@.contains_key(#[trigger] groups@[u].0),
            out@.map_values(|s: ShowSet| show_and_set_name(s)) == sets_made(view.take(t as int), show_original_ids@),
            forall|i: int| 0 <= i < out@.len() ==> is_uuid_v4(#[trigger] out@[i].id),
        decreases groups@.len() - t,
    {
        let show_original_id = groups[t].0;
        let show_id = *show_original_ids.get(&show_original_id).unwrap();
        let sets = &groups[t].1;
        let ghost before = out@.map_values(|s: ShowSet| show_and_set_name(s));
        let ghost names = view[t as int].1;
        assert(names == set_groups_view(sets@));
        let mut u: usize = 0;
        while u < sets.len()
            invariant
                0 <= u <= sets@.len(),
                names == set_groups_view(sets@),
                show_id == show_original_ids@[show_original_id],
                forall|i: int| 0 <= i < out@.len() ==> is_uuid_v4(#[trigger] out@[i].id),
                out@.map_values(|s: ShowSet| show_and_set_name(s)) == before + names.take(u as int).map_values(
                    |p: (SetName, Seq<SongPerformanceJson>)| (show_original_ids@[show_original_id], p.0),
                ),
            decreases sets@.len() - u,
        {
            let ghost old_out = out@;
            out.push(ShowSet { id: new_random_id(), show_id, set_name: sets[u].0 });
            assert(out@.map_values(|s: ShowSet| show_and_set_name(s)) =~= old_out.map_values(
                |s: ShowSet| show_and_set_name(s),
            ).push(show_and_set_name(out@[out@.len() - 1])));
            assert(names.take(u + 1).map_values(
                |p: (SetName, Seq<SongPerformanceJson>)| (show_original_ids@[show_original_id], p.0),
            ) =~= names.take(u as int).map_values(
                |p: (SetName, Seq<SongPerformanceJson>)| (show_original_ids@[show_original_id], p.0),
            ).push((show_id, sets@[u as int].0)));
            u += 1;
        }
        assert(names.take(sets@.len() as int) == names);
        assert(view.take(t + 1).drop_last() == view.take(t as int));
        assert(view.take(t + 1).last() == view[t as int]);
        assert(view[t as int].0 == show_original_id);
        t += 1;
    }
    assert(view.take(groups@.len() as int) == view);
    out
}

// ---------------------------------------------------------------------------
// Set ids by show and set name.

pub open spec fn set_name_code(n: SetName) -> u64 {
    match n {
        SetName::Set1 => 0,
        SetName::Set2 => 1,
        SetName::Set3 => 2,
        SetName::Set4 => 3,
        SetName::Encore => 4,
        SetName::Encore2 => 5,
        SetName::Encore3 => 6,
        SetName::PreShow => 7,
        SetName::Soundcheck => 8,
        SetName::Unknown => 9,
    }
}

/// The key under which the id of the set of a show, by its original id,
/// and a set name is stored.
pub open spec fn set_key(show: u32, name: SetName) -> u64 {
    ((show as u64) * 16 + set_name_code(name)) as u64
}

fn set_name_code_of(name: SetName) -> (r: u64)
    ensures
        r == set_name_code(name),
{
    match name {
        SetName::Set1 => 0,
        SetName::Set2 => 1,
        SetName::Set3 => 2,
        SetName::Set4 => 3,
        SetName::Encore => 4,
        SetName::Encore2 => 5,
        SetName::Encore3 => 6,
        SetName::PreShow => 7,
        SetName::Soundcheck => 8,
        SetName::Unknown => 9,
    }
}

fn set_key_of(show: u32, name: SetName) -> (r: u64)
    ensures
        r == set_key(show, name),
{
    (show as u64) * 16 + set_name_code_of(name)
}

proof fn lemma_set_name_code_injective(a: SetName, b: SetName)
    ensures
        set_name_code(a) as u32 == set_name_code(b) as u32 ==> a == b,
{
}

proof fn lemma_set_key_injective(a: u32, n: SetName, b: u32, m: SetName)
    ensures
        set_key(a, n) == set_key(b, m) ==> a == b && n == m,
{
    if set_key(a, n) == set_key(b, m) {
        assert(a == b) by (nonlinear_arith)
            requires
                (a as u64) * 16 + set_name_code(n) == (b as u64) * 16 + set_name_code(m),
                set_name_code(n) < 16,
                set_name_code(m) < 16,
        ;
    }
}

/// The ids of sets, by the original id of their show and their name.
pub struct SetIds {
    pub by_key: HashMap<u64, u128>,
}

impl View for SetIds {
    type V = Map<(u32, SetName), u128>;

    open spec fn view(&self) -> Map<(u32, SetName), u128> {
        Map::new(
            |k: (u32, SetName)| self.by_key@.contains_key(set_key(k.0, k.1)),
            |k: (u32, SetName)| self.by_key@[set_key(k.0, k.1)],
        )
    }
}

impl SetIds {
    pub fn new() -> (r: SetIds)
        ensures
            r@ == Map::<(u32, SetName), u128>::empty(),
    {
        let r = SetIds { by_key: HashMap::new() };
        assert(r@ =~= Map::<(u32, SetName), u128>::empty());
        r
    }

    pub fn insert(&mut self, show: u32, name: SetName, id: u128)
        ensures
            final(self)@ == old(self)@.insert((show, name), id),
    {
        let ghost before = self@;
        self.by_key.insert(set_key_of(show, name), id);
        assert forall|k: (u32, SetName)| #![auto] true implies (set_key(k.0, k.1) == set_key(show, name)
            <==> k == (show, name)) by {
            lemma_set_key_injective(k.0, k.1, show, name);
        }
        assert(self@ =~= before.insert((show, name), id));
    }

    pub fn get(&self, show: u32, name: SetName) -> (r: Option<u128>)
        ensures
            r == if self@.contains_key((show, name)) {
                Some(self@[(show, name)])
            } else {
                None
            },
    {
        match self.by_key.get(&set_key_of(show, name)) {
            Some(id) => Some(*id),
            None => None,
        }
    }
}

/// Each set's id by the original id of its show and its name, later sets
/// overriding earlier ones.
pub open spec fn set_ids_made(sets: Seq<ShowSet>, original_ids: Map<u128, u32>) -> Map<(u32, SetName), u128>
    decreases sets.len(),
{
    if sets.len() == 0 {
        Map::empty()
    } else {
        let s = sets.last();
        set_ids_made(sets.drop_last(), original_ids).insert((original_ids[s.show_id], s.set_name), s.id)
    }
}

/// Indexes sets by the original id of their show and their name; the show
/// of every set must be known.
pub fn set_ids_by_show_and_name(sets: &[ShowSet], original_ids: &HashMap<u128, u32>) -> (r: SetIds)
    requires
        forall|i: int| 0 <= i < sets@.len() ==> original_ids@.contains_key(#[trigger] sets@[i].show_id),
    ensures
        r@ == set_ids_made(sets@, original_ids@),
{
    let mut ids = SetIds::new();
    let mut i: usize = 0;
    while i < sets.len()
        invariant
            0 <= i <= sets@.len(),
            forall|j: int| 0 <= j < sets@.len() ==> original_ids@.contains_key(#[trigger] sets@[j].show_id),
            ids@ == set_ids_made(sets@.take(i as int), original_ids@),
        decreases sets@.len() - i,
    {
        assert(sets@.take(i + 1).drop_last() == sets@.take(i as int));
        let set = sets[i];
        let show = *original_ids.get(&set.show_id).unwrap();
        ids.insert(show, set.set_name, set.id);
        i += 1;
    }
    assert(sets@.take(sets@.len() as int) == sets@);
    ids
}

// ---------------------------------------------------------------------------
// Events for the song performances.

/// The events for one song performance read from the seed file: one
/// performance record for each of its songs, all with the performance's id.
pub open spec fn performance_events(p: SongPerformanceJson, set_id: u128) -> Seq<Event> {
    p.songs@.map_values(
        |s: SongOnlyId| Event::InsertSongPerformance(SongPerformance { id: p.id, set_id, song_id: s.id }),
    )
}

pub open spec fn performances_events(ps: Seq<SongPerformanceJson>, set_id: u128) -> Seq<Event>
    decreases ps.len(),
{
    if ps.len() == 0 {
        Seq::empty()
    } else {
        performances_events(ps.drop_last(), set_id) + performance_events(ps.last(), set_id)
    }
}

pub open spec fn sets_events(
    show: u32,
    sets: Seq<(SetName, Seq<SongPerformanceJson>)>,
    set_ids: Map<(u32, SetName), u128>,
) -> Seq<Event>
    decreases sets.len(),
{
    if sets.len() == 0 {
        Seq::empty()
    } else {
        sets_events(show, sets.drop_last(), set_ids) + performances_events(
            sets.last().1,
            set_ids[(show, sets.last().0)],
        )
    }
}

/// The events for all grouped song performances, show by show, set by set.
pub open spec fn song_performances_events(
    groups: Seq<(u32, Seq<(SetName, Seq<SongPerformanceJson>)>)>,
    set_ids: Map<(u32, SetName), u128>,
) -> Seq<Event>
    decreases groups.len(),
{
    if groups.len() == 0 {
        Seq::empty()
    } else {
        song_performances_events(groups.drop_last(), set_ids) + sets_events(
            groups.last().0,
            groups.last().1,
            set_ids,
        )
    }
}

/// The events that insert the song performances of grouped performances
/// read from the seed file; the set of every show and set name must be
/// known.
pub fn song_performance_events(
    groups: &Vec<(u32, Vec<(SetName, Vec<&SongPerformanceJson>)>)>,
    set_ids: &SetIds,
) -> (r: Vec<Event>)
    requires
        forall|t: int, u: int|
            0 <= t < groups@.len() && 0 <= u < groups@[t].1@.len() ==> set_ids@.contains_key(
                (groups@[t].0, #[trigger] groups@[t].1@[u].0),
            ),
    ensures
        r@ == song_performances_events(show_groups_view(groups@), set_ids@),
{
    let ghost view = show_groups_view(groups@);
    let mut out: Vec<Event> = Vec::new();
    let mut t: usize = 0;
    while t < groups.len()
        invariant
            0 <= t <= groups@.len(),
            view == show_groups_view(groups@),
            forall|t: int, u: int|
                0 <= t < groups@.len() && 0 <= u < groups@[t].1@.len() ==> set_ids@.contains_key(
                    (groups@[t].0, #[trigger] groups@[t].1@[u].0),
                ),
            out@ == song_performances_events(view.take(t as int), set_ids@),
        decreases groups@.len() - t,
    {
        let show = groups[t].0;
        let sets = &groups[t].1;
        let ghost sets_view = view[t as int].1;
        let ghost before_show = out@;
        assert(sets_view == set_groups_view(sets@));
        let mut u: usize = 0;
        while u < sets.len()
            invariant
                0 <= u <= sets@.len(),
                0 <= t < groups@.len(),
                sets == groups@[t as int].1,
                sets_view == set_groups_view(sets@),
                forall|u: int| 0 <= u < sets@.len() ==> set_ids@.contains_key((show, #[trigger] sets@[u].0)),
                out@ == before_show + sets_events(show, sets_view.take(u as int), set_ids@),
            decreases sets@.len() - u,
        {
            let set_name = sets[u].0;
            let set_id = set_ids.get(show, set_name).unwrap();
            let performances = &sets[u].1;
            let ghost ps = sets_view[u as int].1;
            let ghost before_set = out@;
            assert(ps == deref_all(performances@));
            let mut v: usize = 0;
            while v < performances.len()
                invariant
                    0 <= v <= performances@.len(),
                    ps == deref_all(performances@),
                    out@ == before_set + performances_events(ps.take(v as int), set_id),
                decreases performances@.len() - v,
            {
                let performance: &SongPerformanceJson = performances[v];
                let ghost before_performance = out@;
                let mut w: usize = 0;
                while w < performance.songs.len()
                    invariant
                        0 <= w <= performance.songs@.len(),
                        out@ == before_performance + performance_events(*performance, set_id).take(w as int),
                    decreases performance.songs@.len() - w,
                {
                    out.push(
                        Event::InsertSongPerformance(
                            SongPerformance { id: performance.id, set_id, song_id: performance.songs[w].id },
                        ),
                    );
                    assert(performance_events(*performance, set_id).take(w + 1) =~= performance_events(
                        *performance,
                        set_id,
                    ).take(w as int).push(out@[out@.len() - 1]));
                    w += 1;
                }
                assert(performance_events(*performance, set_id).take(performance.songs@.len() as int)
                    == performance_events(*performance, set_id));
                assert(ps.take(v + 1).drop_last() == ps.take(v as int));
                assert(ps.take(v + 1).last() == *performance);
                v += 1;
            }
            assert(ps.take(performances@.len() as int) == ps);
            assert(sets_view.take(u + 1).drop_last() == sets_view.take(u as int));
            assert(sets_view.take(u + 1).last() == sets_view[u as int]);
            u += 1;
        }
        assert(sets_view.take(sets@.len() as int) == sets_view);
        assert(view.take(t + 1).drop_last() == view.take(t as int));
        assert(view.take(t + 1).last() == view[t as int]);
        t += 1;
    }
    assert(view.take(groups@.len() as int) == view);
    out
}

// ---------------------------------------------------------------------------
// Laws of the grouping.

/// Grouping keeps every item, in the group of its key and nowhere else:
/// group keys are distinct, a group holds only items of its key, and every
/// item is in the group of its key.
pub proof fn law_grouping_partitions<T, K>(items: Seq<T>, key: spec_fn(T) -> K)
    ensures
        forall|a: int, b: int|
            0 <= a < b < grouped(items, key).len() ==> #[trigger] grouped(items, key)[a].0
                != #[trigger] grouped(items, key)[b].0,
        forall|t: int, u: int|
            0 <= t < grouped(items, key).len() && 0 <= u < grouped(items, key)[t].1.len() ==> key(
                #[trigger] grouped(items, key)[t].1[u],
            ) == grouped(items, key)[t].0,
        forall|i: int|
            0 <= i < items.len() ==> exists|t: int|
                0 <= t < grouped(items, key).len() && #[trigger] grouped(items, key)[t].0 == key(
                    #[trigger] items[i],
                ) && grouped(items, key)[t].1.contains(items[i]),
{
    broadcast use vstd::seq_lib::group_filter_ensures;

    let keys = items.map_values(key);
    lemma_first_seen(keys);
    let g = grouped(items, key);
    let f = first_seen(keys);
    assert forall|t: int, u: int| 0 <= t < g.len() && 0 <= u < g[t].1.len() implies key(
        #[trigger] g[t].1[u],
    ) == g[t].0 by {
        let pred = |x: T| key(x) == f[t];
        assert(g[t].1 == items.filter(pred));
        assert(pred(items.filter(pred)[u]));
    }
    assert forall|i: int| 0 <= i < items.len() implies exists|t: int|
        0 <= t < g.len() && #[trigger] g[t].0 == key(#[trigger] items[i]) && g[t].1.contains(items[i]) by {
        assert(keys[i] == key(items[i]));
        assert(keys.contains(key(items[i])));
        assert(f.contains(key(items[i])));
        let t = choose|t: int| 0 <= t < f.len() && f[t] == key(items[i]);
        let pred = |x: T| key(x) == f[t];
        assert(pred(items[i]));
        assert(items.filter(pred).contains(items[i]));
        assert(g[t].0 == key(items[i]));
    }
}

/// Every song performance lands in the set of its set name within the show
/// of its original show id, and a set of a show holds only performances of
/// that show and set name.
pub proof fn law_song_performances_by_show_and_set(items: Seq<SongPerformanceJson>)
    ensures
        forall|t: int, u: int, v: int|
            0 <= t < grouped_by_show_and_set(items).len() && 0 <= u < grouped_by_show_and_set(items)[t].1.len()
                && 0 <= v < grouped_by_show_and_set(items)[t].1[u].1.len() ==> {
                let p = #[trigger] grouped_by_show_and_set(items)[t].1[u].1[v];
                &&& p.show.original_id == grouped_by_show_and_set(items)[t].0
                &&& p.set_name == grouped_by_show_and_set(items)[t].1[u].0
            },
        forall|i: int|
            0 <= i < items.len() ==> exists|t: int, u: int|
                0 <= t < grouped_by_show_and_set(items).len() && 0 <= u
                    < grouped_by_show_and_set(items)[t].1.len()
                    && #[trigger] grouped_by_show_and_set(items)[t].0 == items[i].show.original_id
                    && #[trigger] grouped_by_show_and_set(items)[t].1[u].0 == items[i].set_name
                    && grouped_by_show_and_set(items)[t].1[u].1.contains(#[trigger] items[i]),
{
    let show_key = |x: SongPerformanceJson| x.show.original_id;
    let name_key = |x: SongPerformanceJson| x.set_name;
    let outer = grouped(items, show_key);
    let r = grouped_by_show_and_set(items);
    law_grouping_partitions(items, show_key);
    assert forall|t: int, u: int, v: int|
        0 <= t < r.len() && 0 <= u < r[t].1.len() && 0 <= v < r[t].1[u].1.len() implies {
        let p = #[trigger] r[t].1[u].1[v];
        &&& p.show.original_id == r[t].0
        &&& p.set_name == r[t].1[u].0
    } by {
        law_grouping_partitions(outer[t].1, name_key);
        let p = r[t].1[u].1[v];
        assert(r[t].1 == grouped(outer[t].1, name_key));
        assert(outer[t].1.contains(p)) by {
            broadcast use vstd::seq_lib::group_filter_ensures;

            let f = first_seen(outer[t].1.map_values(name_key));
            let pred = |x: SongPerformanceJson| name_key(x) == f[u];
            assert(r[t].1[u].1 == outer[t].1.filter(pred));
            lemma_filter_member(outer[t].1, pred, v);
        }
        let w = choose|w: int| 0 <= w < outer[t].1.len() && outer[t].1[w] == p;
        assert(show_key(outer[t].1[w]) == outer[t].0);
    }
    assert forall|i: int| 0 <= i < items.len() implies exists|t: int, u: int|
        0 <= t < r.len() && 0 <= u < r[t].1.len() && #[trigger] r[t].0 == items[i].show.original_id
            && #[trigger] r[t].1[u].0 == items[i].set_name && r[t].1[u].1.contains(#[trigger] items[i]) by {
        let t = choose|t: int|
            0 <= t < outer.len() && #[trigger] outer[t].0 == show_key(items[i]) && outer[t].1.contains(
                items[i],
            );
        let w = choose|w: int| 0 <= w < outer[t].1.len() && outer[t].1[w] == items[i];
        law_grouping_partitions(outer[t].1, name_key);
        assert(r[t].1 == grouped(outer[t].1, name_key));
        let u = choose|u: int|
            0 <= u < r[t].1.len() && #[trigger] r[t].1[u].0 == name_key(outer[t].1[w]) && r[t].1[u].1.contains(
                outer[t].1[w],
            );
        assert(r[t].0 == outer[t].0);
    }
}

proof fn lemma_filter_member<T>(s: Seq<T>, pred: spec_fn(T) -> bool, v: int)
    requires
        0 <= v < s.filter(pred).len(),
    ensures
        s.contains(s.filter(pred)[v]),
    decreases s.len(),
{
    reveal_with_fuel(Seq::<_>::filter, 1);
    let t = s.drop_last();
    if pred(s.last()) && v == s.filter(pred).len() - 1 {
        assert(s[s.len() - 1] == s.last());
    } else {
        assert(s.filter(pred)[v] == t.filter(pred)[v]);
        lemma_filter_member(t, pred, v);
        let j = choose|j: int| 0 <= j < t.len() && t[j] == t.filter(pred)[v];
        assert(s[j] == t[j]);
    }
}

// ---------------------------------------------------------------------------
// Sending events in batches.

/// Items cut into consecutive batches of `size`, the last one possibly
/// shorter.
pub open spec fn batches_of<T>(items: Seq<T>, size: nat) -> Seq<Seq<T>>
    decreases items.len(),
{
    if items.len() == 0 || size == 0 {
        Seq::empty()
    } else if items.len() <= size {
        seq![items]
    } else {
        seq![items.take(size as int)] + batches_of(items.skip(size as int), size)
    }
}

/// Cuts items into consecutive batches of `size`, the last one possibly
/// shorter, keeping their order.
pub fn in_batches<T>(items: Vec<T>, size: usize) -> (r: Vec<Vec<T>>)
    requires
        size > 0,
    ensures
        r@.map_values(|b: Vec<T>| b@) == batches_of(items@, size as nat),
{
    let ghost all = items@;
    let mut out: Vec<Vec<T>> = Vec::new();
    let mut rest = items;
    while rest.len() > size
        invariant
            size > 0,
            out@.map_values(|b: Vec<T>| b@) + batches_of(rest@, size as nat) == batches_of(all, size as nat),
        decreases rest@.len(),
    {
        let ghost before = out@.map_values(|b: Vec<T>| b@);
        let ghost current = rest@;
        let tail = rest.split_off(size);
        assert(rest@ == current.take(size as int));
        assert(tail@ == current.skip(size as int));
        out.push(rest);
        assert(out@.map_values(|b: Vec<T>| b@) == before.push(current.take(size as int)));
        assert(before.push(current.take(size as int)) + batches_of(tail@, size as nat) == before + (seq![
            current.take(size as int),
        ] + batches_of(tail@, size as nat)));
        rest = tail;
    }
    if rest.len() > 0 {
        let ghost before = out@.map_values(|b: Vec<T>| b@);
        let ghost last = rest@;
        out.push(rest);
        assert(out@.map_values(|b: Vec<T>| b@) == before.push(last));
        assert(before + batches_of(last, size as nat) == before.push(last));
    } else {
        assert(out@.map_values(|b: Vec<T>| b@) + batches_of(rest@, size as nat) == out@.map_values(
            |b: Vec<T>| b@,
        ));
    }
    out
}

/// Cutting items into batches loses, adds and reorders nothing: the batches
/// joined are the items; every batch holds between one and `size` items,
/// and every batch but the last holds exactly `size`.
pub proof fn law_batches_partition<T>(items: Seq<T>, size: nat)
    requires
        size > 0,
    ensures
        batches_of(items, size).flatten() == items,
        forall|i: int|
            0 <= i < batches_of(items, size).len() ==> 0 < #[trigger] batches_of(items, size)[i].len() <= size,
        forall|i: int|
            0 <= i < batches_of(items, size).len() - 1 ==> #[trigger] batches_of(items, size)[i].len() == size,
    decreases items.len(),
{
    let b = batches_of(items, size);
    if items.len() == 0 {
    } else if items.len() <= size {
        assert(b.drop_first() =~= Seq::<Seq<T>>::empty());
        assert(b.flatten() == b.first() + b.drop_first().flatten());
        assert(b.flatten() =~= items);
    } else {
        let rest = items.skip(size as int);
        law_batches_partition(rest, size);
        let br = batches_of(rest, size);
        assert(b == seq![items.take(size as int)] + br);
        assert(b.drop_first() =~= br);
        assert(b.flatten() == items.take(size as int) + br.flatten());
        assert(items.take(size as int) + rest =~= items);
        assert forall|i: int| 0 <= i < b.len() implies 0 < #[trigger] b[i].len() <= size by {
            if i > 0 {
                assert(b[i] == br[i - 1]);
            }
        }
        assert forall|i: int| 0 <= i < b.len() - 1 implies #[trigger] b[i].len() == size by {
            if i > 0 {
                assert(b[i] == br[i - 1]);
            }
        }
    }
}

// ---------------------------------------------------------------------------
// Checks that what the seeding needs is known.

/// Whether the show of every group is known by its original id.
pub fn all_shows_known(
    groups: &Vec<(u32, Vec<(SetName, Vec<&SongPerformanceJson>)>)>,
    show_original_ids: &HashMap<u32, u128>,
) -> (r: bool)
    ensures
        r == forall|t: int| 0 <= t < groups@.len() ==> show_original_ids@.contains_key(#[trigger] groups@[t].0),
{
    let mut t: usize = 0;
    while t < groups.len()
        invariant
            0 <= t <= groups@.len(),
            forall|u: int| 0 <= u < t ==> show_original_ids@.contains_key(#[trigger] groups@[u].0),
        decreases groups@.len() - t,
    {
        if !show_original_ids.contains_key(&groups[t].0) {
            return false;
        }
        t += 1;
    }
    true
}

/// Whether the show of every set is known by its id.
pub fn all_set_shows_known(sets: &[ShowSet], original_ids: &HashMap<u128, u32>) -> (r: bool)
    ensures
        r == forall|i: int| 0 <= i < sets@.len() ==> original_ids@.contains_key(#[trigger] sets@[i].show_id),
{
    let mut i: usize = 0;
    while i < sets.len()
        invariant
            0 <= i <= sets@.len(),
            forall|j: int| 0 <= j < i ==> original_ids@.contains_key(#[trigger] sets@[j].show_id),
        decreases sets@.len() - i,
    {
        if !original_ids.contains_key(&sets[i].show_id) {
            return false;
        }
        i += 1;
    }
    true
}

/// Whether the set of every show and set name of the groups is known.
pub fn all_sets_known(groups: &Vec<(u32, Vec<(SetName, Vec<&SongPerformanceJson>)>)>, set_ids: &SetIds) -> (r: bool)
    ensures
        r == forall|t: int, u: int|
            0 <= t < groups@.len() && 0 <= u < groups@[t].1@.len() ==> set_ids@.contains_key(
                (groups@[t].0, #[trigger] groups@[t].1@[u].0),
            ),
{
    let mut t: usize = 0;
    while t < groups.len()
        invariant
            0 <= t <= groups@.len(),
            forall|a: int, u: int|
                0 <= a < t && 0 <= u < groups@[a].1@.len() ==> set_ids@.contains_key(
                    (groups@[a].0, #[trigger] groups@[a].1@[u].0),
                ),
        decreases groups@.len() - t,
    {
        let mut u: usize = 0;
        while u < groups[t].1.len()
            invariant
                0 <= t < groups@.len(),
                0 <= u <= groups@[t as int].1@.len(),
                forall|a: int, v: int|
                    0 <= a < t && 0 <= v < groups@[a].1@.len() ==> set_ids@.contains_key(
                        (groups@[a].0, #[trigger] groups@[a].1@[v].0),
                    ),
                forall|v: int|
                    0 <= v < u ==> set_ids@.contains_key((groups@[t as int].0, #[trigger] groups@[t as int].1@[v].0)),
            decreases groups@[t as int].1@.len() - u,
        {
            if set_ids.get(groups[t].0, groups[t].1[u].0).is_none() {
                return false;
            }
            u += 1;
        }
        t += 1;
    }
    true
}

} // verus!
