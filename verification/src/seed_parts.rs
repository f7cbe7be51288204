//! The numbered parts of a seed file: `tracks` may be kept as
//! `tracks-1.json`, `tracks-2.json`, ..., which are joined, in the order of
//! their names, into `tracks.json`.
use vstd::prelude::*;

use crate::regexes::{regex_compiles, regex_is_match, regex_is_valid, regex_matches};
use crate::text::{
    all_ascii_digits, compare_texts, is_ascii_text, lemma_text_before_total,
    lemma_text_before_transitive, text_before,
};

verus! {

// ---------------------------------------------------------------------------
// Which file names are parts.

/// The pattern of the numbered parts of the seed file `root`:
/// `^<root>-\d+\.json`.
pub open spec fn part_pattern_of(root: Seq<char>) -> Seq<char> {
    "^"@ + root + "-\\d+\\.json"@
}

/// Whether the part pattern of a root compiles.
pub open spec fn part_pattern_valid(root: Seq<char>) -> bool {
    regex_compiles(part_pattern_of(root))
}

/// Whether a file name matches the part pattern of a root.
pub open spec fn part_file_match(root: Seq<char>, name: Seq<char>) -> bool {
    regex_matches(part_pattern_of(root), name)
}

/// Builds the part pattern of a root.
pub fn part_pattern(root: &str) -> (r: String)
    ensures
        r@ == part_pattern_of(root@),
{
    let mut pattern = "^".to_owned();
    pattern.append(root);
    pattern.append("-\\d+\\.json");
    pattern
}

/// The characters to which the syntax of `regex` gives a meaning in some
/// place: `regex_syntax::is_meta_character`. Every other character stands
/// for itself wherever it is written outside a class.
pub open spec fn is_regex_meta_char(c: char) -> bool {
    c == '\\' || c == '.' || c == '+' || c == '*' || c == '?' || c == '(' || c == ')' || c == '|' || c == '['
        || c == ']' || c == '{' || c == '}' || c == '^' || c == '$' || c == '#' || c == '&' || c == '-' || c
        == '~'
}

/// A root that holds no regular-expression metacharacter, so that in the
/// expression `^<root>-\d+\.json` it stands for itself.
pub open spec fn is_plain_root(root: Seq<char>) -> bool {
    forall|i: int| 0 <= i < root.len() ==> !is_regex_meta_char(#[trigger] root[i])
}

/// The digits after `<root>-` end at `k`, and `.json` follows them.
pub open spec fn part_number_ends_at(root: Seq<char>, name: Seq<char>, k: int) -> bool {
    &&& root.len() + 1 < k
    &&& k + 5 <= name.len()
    &&& all_ascii_digits(name.subrange(root.len() + 1int, k))
    &&& name.subrange(k, k + 5) == ".json"@
}

/// A name that begins with the root, `-`, one or more ASCII digits and
/// `.json`.
pub open spec fn is_numbered_part(root: Seq<char>, name: Seq<char>) -> bool {
    &&& name.len() > root.len()
    &&& name.subrange(0, root.len() as int) == root
    &&& name[root.len() as int] == '-'
    &&& exists|k: int| #[trigger] part_number_ends_at(root, name, k)
}

/// The longest root for which the expression is promised to compile.
/// `regex::Regex::new` refuses an expression whose compiled automaton takes
/// more than 10 MiB (`regex-1.13.1/src/builders.rs:53`). Each literal
/// character of a root is at most four UTF-8 bytes, and each byte one state
/// of 32 bytes (`regex-automata`'s `thompson::builder`), so a root of this
/// length takes at most about 1.3 MB, with ample room for the rest of the
/// expression.
pub open spec fn short_root_limit() -> nat {
    10000
}

/// Whether the part pattern of a root compiles (by `regex`). A root without
/// metacharacters, of at most `short_root_limit` characters, gives an
/// expression of literal characters well within the size limit, which
/// compiles; a longer root may exceed that limit.
fn part_pattern_compiles(root: &str) -> (r: bool)
    ensures
        r == part_pattern_valid(root@),
        is_plain_root(root@) && root@.len() <= short_root_limit() ==> r,
{
    let pattern = part_pattern(root);
    regex_is_valid(pattern.as_str())
}

/// Whether a file name matches the part pattern of a root, which must
/// compile (by `regex`). `\d` is Unicode-aware, so only for a plain root and
/// an ASCII name does the result reduce to `is_numbered_part`.
fn part_file_matches(root: &str, name: &str) -> (r: bool)
    requires
        part_pattern_valid(root@),
    ensures
        r == part_file_match(root@, name@),
        is_plain_root(root@) && is_ascii_text(name@) ==> (r <==> is_numbered_part(root@, name@)),
{
    let pattern = part_pattern(root);
    regex_is_match(pattern.as_str(), name)
}

// ---------------------------------------------------------------------------
// Keeping names in order.

/// The texts of a list of names.
pub open spec fn texts_of(names: Seq<String>) -> Set<Seq<char>> {
    Set::new(|x: Seq<char>| exists|i: int| 0 <= i < names.len() && #[trigger] names[i]@ == x)
}

/// Names in strictly increasing code-point order: sorted, and none twice.
pub open spec fn strictly_ordered(names: Seq<String>) -> bool {
    forall|i: int, j: int| 0 <= i < j < names.len() ==> text_before(#[trigger] names[i]@, #[trigger] names[j]@)
}

/// Adds a name to a strictly ordered list, where it belongs; a name already
/// there is not added again.
pub fn insert_in_order(names: &mut Vec<String>, name: String)
    requires
        strictly_ordered(old(names)@),
    ensures
        strictly_ordered(final(names)@),
        texts_of(final(names)@) == texts_of(old(names)@).insert(name@),
{
    let ghost before = names@;
    let mut k: usize = 0;
    let mut found_place = false;
    while !found_place && k < names.len()
        invariant
            names@ == before,
            0 <= k <= names@.len(),
            forall|j: int| 0 <= j < k ==> text_before(#[trigger] names@[j]@, name@),
            found_place ==> k < names@.len() && !text_before(names@[k as int]@, name@),
        decreases names@.len() - k + if found_place {
            0int
        } else {
            1int
        },
    {
        if compare_texts(names[k].as_str(), name.as_str()) < 0 {
            k += 1;
        } else {
            found_place = true;
        }
    }
    if found_place && compare_texts(names[k].as_str(), name.as_str()) == 0 {
        assert(texts_of(before).contains(name@)) by {
            assert(before[k as int]@ == name@);
        }
        assert(texts_of(before).insert(name@) =~= texts_of(before));
        return;
    }
    proof {
        if k < before.len() {
            lemma_text_before_total(before[k as int]@, name@);
        }
        assert forall|j: int| k <= j < before.len() implies text_before(name@, #[trigger] before[j]@) by {
            if j > k {
                lemma_text_before_transitive(name@, before[k as int]@, before[j]@);
            }
        }
    }
    names.insert(k, name);
    let ghost after = names@;
    proof {
        assert(after == before.insert(k as int, name));
        assert forall|i: int, j: int| 0 <= i < j < after.len() implies text_before(
            #[trigger] after[i]@,
            #[trigger] after[j]@,
        ) by {
            if i < k {
                assert(after[i] == before[i]);
                if j < k {
                    assert(after[j] == before[j]);
                } else if j > k {
                    assert(after[j] == before[j - 1]);
                    lemma_text_before_transitive(before[i]@, name@, before[j - 1]@);
                }
            } else if i == k {
                assert(after[j] == before[j - 1]);
            } else {
                assert(after[i] == before[i - 1]);
                assert(after[j] == before[j - 1]);
            }
        }
        assert forall|x: Seq<char>| #[trigger] texts_of(after).contains(x) <==> texts_of(before).insert(
            name@,
        ).contains(x) by {
            if texts_of(after).contains(x) {
                let i = choose|i: int| 0 <= i < after.len() && #[trigger] after[i]@ == x;
                if i < k {
                    assert(before[i]@ == x);
                } else if i > k {
                    assert(before[i - 1]@ == x);
                }
            }
            if texts_of(before).contains(x) {
                let i = choose|i: int| 0 <= i < before.len() && #[trigger] before[i]@ == x;
                if i < k {
                    assert(after[i]@ == x);
                } else {
                    assert(after[i + 1]@ == x);
                }
            }
            if x == name@ {
                assert(after[k as int]@ == x);
            }
        }
        assert(texts_of(after) =~= texts_of(before).insert(name@));
    }
}

// ---------------------------------------------------------------------------
// The parts of a seed file.

/// The numbered parts of the seed file `root` among the names of the files
/// in its directory: each name that matches `^<root>-\d+\.json`, once, in
/// code-point order; `None` when that expression does not compile.
pub fn part_files_in_order(file_name_root: &str, file_names: &Vec<String>) -> (r: Option<Vec<String>>)
    ensures
        r is Some <==> part_pattern_valid(file_name_root@),
        is_plain_root(file_name_root@) && file_name_root@.len() <= short_root_limit() ==> r is Some,
        r matches Some(parts) ==> strictly_ordered(parts@) && texts_of(parts@) == texts_of(
            file_names@,
        ).filter(|x: Seq<char>| part_file_match(file_name_root@, x)),
        r matches Some(parts) ==> is_plain_root(file_name_root@) ==> forall|x: Seq<char>|
            is_ascii_text(x) ==> (#[trigger] texts_of(parts@).contains(x) <==> texts_of(file_names@).contains(x)
                && is_numbered_part(file_name_root@, x)),
{
    if !part_pattern_compiles(file_name_root) {
        return None;
    }
    let ghost pred = |x: Seq<char>| part_file_match(file_name_root@, x);
    let mut parts: Vec<String> = Vec::new();
    assert(texts_of(parts@) =~= texts_of(file_names@.take(0)).filter(pred));
    let mut i: usize = 0;
    while i < file_names.len()
        invariant
            part_pattern_valid(file_name_root@),
            pred == (|x: Seq<char>| part_file_match(file_name_root@, x)),
            0 <= i <= file_names@.len(),
            strictly_ordered(parts@),
            texts_of(parts@) == texts_of(file_names@.take(i as int)).filter(pred),
            forall|j: int|
                0 <= j < i ==> is_plain_root(file_name_root@) && is_ascii_text(#[trigger] file_names@[j]@) ==> (
                part_file_match(file_name_root@, file_names@[j]@) <==> is_numbered_part(
                    file_name_root@,
                    file_names@[j]@,
                )),
        decreases file_names@.len() - i,
    {
        let ghost seen = file_names@.take(i as int);
        let ghost next = file_names@.take(i + 1);
        let ghost x = file_names@[i as int]@;
        assert(texts_of(next) =~= texts_of(seen).insert(x)) by {
            assert forall|y: Seq<char>| #[trigger] texts_of(next).contains(y) <==> texts_of(seen).insert(
                x,
            ).contains(y) by {
                if texts_of(next).contains(y) {
                    let j = choose|j: int| 0 <= j < next.len() && #[trigger] next[j]@ == y;
                    if j < i {
                        assert(seen[j]@ == y);
                    }
                }
                if texts_of(seen).contains(y) {
                    let j = choose|j: int| 0 <= j < seen.len() && #[trigger] seen[j]@ == y;
                    assert(next[j]@ == y);
                }
                if y == x {
                    assert(next[i as int]@ == y);
                }
            }
        }
        if part_file_matches(file_name_root, file_names[i].as_str()) {
            insert_in_order(&mut parts, file_names[i].clone());
            assert(texts_of(next).filter(pred) =~= texts_of(seen).filter(pred).insert(x));
        } else {
            assert(texts_of(next).filter(pred) =~= texts_of(seen).filter(pred));
        }
        i += 1;
    }
    assert(file_names@.take(file_names@.len() as int) == file_names@);
    proof {
        if is_plain_root(file_name_root@) {
            assert forall|x: Seq<char>| is_ascii_text(x) implies (#[trigger] texts_of(parts@).contains(x)
                <==> texts_of(file_names@).contains(x) && is_numbered_part(file_name_root@, x)) by {
                if texts_of(file_names@).contains(x) {
                    let j = choose|j: int| 0 <= j < file_names@.len() && #[trigger] file_names@[j]@ == x;
                    assert(is_ascii_text(file_names@[j]@));
                }
            }
        }
    }
    Some(parts)
}

// ---------------------------------------------------------------------------
// The stem of a file name.

/// The part of a file name before its first `.`: the whole name when it
/// has none.
pub open spec fn stem_of(name: Seq<char>) -> Seq<char>
    decreases name.len(),
{
    if name.len() == 0 || name[0] == '.' {
        Seq::empty()
    } else {
        seq![name[0]] + stem_of(name.drop_first())
    }
}

proof fn lemma_stem_is_prefix(name: Seq<char>, k: int)
    requires
        0 <= k <= name.len(),
        forall|j: int| 0 <= j < k ==> #[trigger] name[j] != '.',
        k == name.len() || name[k] == '.',
    ensures
        stem_of(name) == name.take(k),
    decreases k,
{
    if k > 0 {
        let rest = name.drop_first();
        assert forall|j: int| 0 <= j < k - 1 implies #[trigger] rest[j] != '.' by {
            assert(rest[j] == name[j + 1]);
        }
        if k < name.len() {
            assert(rest[k - 1] == name[k]);
        }
        lemma_stem_is_prefix(rest, k - 1);
        assert(name.take(k) =~= seq![name[0]] + rest.take(k - 1));
    } else {
        assert(name.take(0) =~= Seq::<char>::empty());
    }
}

/// The root under which a part's file is read: its name before the first
/// `.`.
pub fn part_file_stem(file_name: &str) -> (r: &str)
    ensures
        r@ == stem_of(file_name@),
{
    let n = file_name.unicode_len();
    let mut k: usize = 0;
    while k < n && file_name.get_char(k) != '.'
        invariant
            n == file_name@.len(),
            0 <= k <= n,
            forall|j: int| 0 <= j < k ==> #[trigger] file_name@[j] != '.',
        decreases n - k,
    {
        k += 1;
    }
    proof {
        lemma_stem_is_prefix(file_name@, k as int);
    }
    file_name.substring_char(0, k)
}

} // verus!
