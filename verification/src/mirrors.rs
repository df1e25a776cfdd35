use vstd::prelude::*;

use crate::cloning::clone_string_vec;
use crate::key_map::{assoc_map, lemma_assoc_map_contains, lemma_assoc_map_index, unique_keys};

verus! {

/// The map denoted by a mirror association list: canonical URL to the
/// ordered list of mirror URLs, at the level of character sequences.
pub open spec fn mirror_map(s: Seq<(String, Vec<String>)>) -> Map<Seq<char>, Seq<Seq<char>>> {
    Map::new(
        |k: Seq<char>| assoc_map(s).contains_key(k),
        |k: Seq<char>| assoc_map(s)[k].deep_view(),
    )
}

/// Finds the index of the entry recorded for `key`, if any.
fn lookup_mirror(entries: &Vec<(String, Vec<String>)>, key: &String) -> (r: Option<usize>)
    requires
        unique_keys(entries@),
    ensures
        match r {
            Some(i) => 0 <= i < entries@.len() && entries@[i as int].0@ == key@
                && mirror_map(entries@).contains_key(key@) && mirror_map(entries@)[key@]
                == entries@[i as int].1.deep_view(),
            None => !mirror_map(entries@).contains_key(key@),
        },
{
    let mut i: usize = 0;
    while i < entries.len()
        invariant
            unique_keys(entries@),
            0 <= i <= entries@.len(),
            forall|j: int| 0 <= j < i ==> entries@[j].0@ != key@,
        decreases entries@.len() - i,
    {
        let pair = &entries[i];
        if pair.0 == *key {
            proof {
                lemma_assoc_map_index(entries@, i as int);
            }
            return Some(i);
        }
        i += 1;
    }
    proof {
        lemma_assoc_map_contains(entries@, key@);
    }
    None
}

/// Merges two mirror maps: union by key; for a URL present in both sides
/// the higher-priority side's mirror list replaces the lower-priority one
/// entirely (no concatenation).
pub fn merge_mirror_lists(a: &Vec<(String, Vec<String>)>, b: &Vec<(String, Vec<String>)>) -> (r:
    Vec<(String, Vec<String>)>)
    requires
        unique_keys(a@),
        unique_keys(b@),
    ensures
        unique_keys(r@),
        mirror_map(r@) == mirror_map(a@).union_prefer_right(mirror_map(b@)),
{
    let ghost target = mirror_map(a@).union_prefer_right(mirror_map(b@));
    let mut r: Vec<(String, Vec<String>)> = Vec::new();
    let mut i: usize = 0;
    while i < a.len()
        invariant
            unique_keys(a@),
            unique_keys(b@),
            target == mirror_map(a@).union_prefer_right(mirror_map(b@)),
            0 <= i <= a@.len(),
            r@.len() == i,
            forall|k: int| 0 <= k < i ==> r@[k].0@ == a@[k].0@,
            forall|k: int|
                0 <= k < i ==> target.contains_key(#[trigger] r@[k].0@) && target[r@[k].0@]
                    == r@[k].1.deep_view(),
            unique_keys(r@),
        decreases a@.len() - i,
    {
        let pair = &a[i];
        proof {
            lemma_assoc_map_index(a@, i as int);
        }
        let merged = match lookup_mirror(b, &pair.0) {
            Some(bi) => clone_string_vec(&b[bi].1),
            None => clone_string_vec(&pair.1),
        };
        r.push((pair.0.clone(), merged));
        i += 1;
    }
    let ghost base_len = r@.len();
    let mut j: usize = 0;
    while j < b.len()
        invariant
            unique_keys(a@),
            unique_keys(b@),
            target == mirror_map(a@).union_prefer_right(mirror_map(b@)),
            0 <= j <= b@.len(),
            base_len == a@.len(),
            r@.len() >= base_len,
            forall|k: int| 0 <= k < base_len ==> r@[k].0@ == a@[k].0@,
            forall|k: int|
                0 <= k < r@.len() ==> target.contains_key(#[trigger] r@[k].0@) && target[r@[k].0@]
                    == r@[k].1.deep_view(),
            unique_keys(r@),
            forall|k: int|
                base_len <= k < r@.len() ==> exists|jj: int|
                    0 <= jj < j && #[trigger] r@[k].0@ == b@[jj].0@,
            forall|jj: int|
                0 <= jj < j ==> mirror_map(a@).contains_key(#[trigger] b@[jj].0@) || exists|k: int|
                    base_len <= k < r@.len() && r@[k].0@ == b@[jj].0@,
        decreases b@.len() - j,
    {
        let pair = &b[j];
        proof {
            lemma_assoc_map_index(b@, j as int);
            lemma_assoc_map_contains(a@, pair.0@);
        }
        let ghost snap = r@;
        if lookup_mirror(a, &pair.0).is_none() {
            r.push((pair.0.clone(), clone_string_vec(&pair.1)));
            proof {
                assert forall|k: int| 0 <= k < snap.len() implies r@[k] == snap[k] by {}
                assert forall|k: int| 0 <= k < snap.len() implies #[trigger] r@[k].0@
                    != pair.0@ by {
                    if k < base_len {
                        if r@[k].0@ == pair.0@ {
                            assert(a@[k].0@ == pair.0@);
                        }
                    } else {
                        let jj = choose|jj: int| 0 <= jj < j && #[trigger] snap[k].0@ == b@[jj].0@;
                        if r@[k].0@ == pair.0@ {
                            assert(b@[jj].0@ == b@[j as int].0@);
                        }
                    }
                }
                assert forall|k: int| base_len <= k < r@.len() implies exists|jj: int|
                    0 <= jj < j + 1 && #[trigger] r@[k].0@ == b@[jj].0@ by {
                    if k < r@.len() - 1 {
                        let jj = choose|jj: int| 0 <= jj < j && #[trigger] snap[k].0@ == b@[jj].0@;
                        assert(0 <= jj < j + 1 && r@[k].0@ == b@[jj].0@);
                    } else {
                        assert(r@[k].0@ == b@[j as int].0@);
                    }
                }
            }
        }
        proof {
            assert forall|jj: int|
                0 <= jj < j + 1 implies mirror_map(a@).contains_key(#[trigger] b@[jj].0@)
                || exists|k: int| base_len <= k < r@.len() && r@[k].0@ == b@[jj].0@ by {
                if jj < j {
                    if !mirror_map(a@).contains_key(b@[jj].0@) {
                        let k = choose|k: int|
                            base_len <= k < snap.len() && snap[k].0@ == b@[jj].0@;
                        assert(r@[k].0@ == b@[jj].0@);
                    }
                } else {
                    if !mirror_map(a@).contains_key(pair.0@) {
                        assert(r@[r@.len() - 1].0@ == pair.0@);
                    }
                }
            }
        }
        j += 1;
    }
    proof {
        assert forall|k: Seq<char>| #[trigger]
            target.contains_key(k) implies mirror_map(r@).contains_key(k) by {
            lemma_assoc_map_contains(a@, k);
            lemma_assoc_map_contains(b@, k);
            lemma_assoc_map_contains(r@, k);
            if mirror_map(a@).contains_key(k) {
                let idx = choose|idx: int| 0 <= idx < a@.len() && a@[idx].0@ == k;
                assert(r@[idx].0@ == k);
            } else {
                let jj = choose|jj: int| 0 <= jj < b@.len() && b@[jj].0@ == k;
                let idx = choose|idx: int|
                    base_len <= idx < r@.len() && r@[idx].0@ == b@[jj].0@;
                assert(r@[idx].0@ == k);
            }
        }
        assert forall|k: Seq<char>| #[trigger]
            mirror_map(r@).contains_key(k) implies target.contains_key(k) && mirror_map(r@)[k]
            == target[k] by {
            lemma_assoc_map_contains(r@, k);
            let idx = choose|idx: int| 0 <= idx < r@.len() && r@[idx].0@ == k;
            lemma_assoc_map_index(r@, idx);
        }
        assert(mirror_map(r@) =~= target);
    }
    r
}

} // verus!
