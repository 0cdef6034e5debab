//! The listing of the board's buttons, ordered by the names they show.

use vstd::prelude::*;

use crate::dumpster_base::{
    lists_entries, lists_values, sorted_by_display_name, values_under_keys, DumpsterBase,
    DumpsterBaseJson,
};
use crate::text::{
    law_lex_le_is_code_point_order, lemma_lex_total, lemma_lex_trans, lex_le, lex_le_str,
    same_code_points,
};

verus! {

/// The number that the page templates show for the zero-based position `count`:
/// one more.
pub fn counter_value(count: u64) -> (r: u64)
    requires
        count < u64::MAX,
    ensures
        r == count + 1,
{
    count + 1
}

/// Where `e` goes in the sorted `sorted`: after every entry whose display name
/// comes no later than its own, counting from the end.
fn insertion_point(sorted: &Vec<DumpsterBaseJson>, e: &DumpsterBaseJson) -> (p: usize)
    ensures
        p <= sorted@.len(),
        p > 0 ==> lex_le(sorted@[p - 1].display_name@, e.display_name@),
        p < sorted@.len() ==> !lex_le(sorted@[p as int].display_name@, e.display_name@),
{
    let mut p = sorted.len();
    while p > 0 && !lex_le_str(sorted[p - 1].display_name.as_str(), e.display_name.as_str())
        invariant
            p <= sorted@.len(),
            p < sorted@.len() ==> !lex_le(sorted@[p as int].display_name@, e.display_name@),
        decreases p,
    {
        p = p - 1;
    }
    p
}

/// Putting `e` where `insertion_point` says keeps the list sorted.
proof fn lemma_insert_sorted(s: Seq<DumpsterBaseJson>, p: int, e: DumpsterBaseJson)
    requires
        sorted_by_display_name(s),
        0 <= p <= s.len(),
        p > 0 ==> lex_le(s[p - 1].display_name@, e.display_name@),
        p < s.len() ==> !lex_le(s[p].display_name@, e.display_name@),
    ensures
        sorted_by_display_name(s.insert(p, e)),
{
    let t = s.insert(p, e);
    assert forall|i: int, j: int|
        #![trigger t[i], t[j]]
        0 <= i && j == i + 1 && j < t.len() implies lex_le(
        t[i].display_name@,
        t[j].display_name@,
    ) by {
        if j < p {
            assert(t[i] == s[i] && t[j] == s[j]);
        } else if j == p {
            assert(t[i] == s[i] && t[j] == e);
        } else if i == p {
            assert(t[i] == e && t[j] == s[p]);
            lemma_lex_total(s[p].display_name@, e.display_name@);
        } else {
            assert(t[i] == s[i - 1] && t[j] == s[i]);
        }
    }
}

/// The entries of the store, ordered by display name (entries that show the
/// same name keep the order in which the store lists them).
pub fn dumpster_index(db: &DumpsterBase) -> (r: Vec<DumpsterBaseJson>)
    ensures
        sorted_by_display_name(r@),
        lists_values(r@, db@),
{
    let list = db.entries();
    let n = list.len();
    let mut r: Vec<DumpsterBaseJson> = Vec::new();
    let ghost mut keys: Seq<Seq<char>> = Seq::empty();
    let mut i: usize = 0;
    while i < n
        invariant
            lists_entries(list@, db@),
            n == list@.len(),
            i <= n,
            keys.len() == r@.len(),
            keys.no_duplicates(),
            forall|q: int|
                #![trigger keys[q]]
                0 <= q < keys.len() ==> db@.contains_key(keys[q]) && db@[keys[q]] == r@[q]@,
            forall|j: int| #![trigger list@[j]] 0 <= j < i ==> keys.contains(list@[j].0@),
            forall|q: int|
                #![trigger keys[q]]
                0 <= q < keys.len() ==> exists|j: int|
                    #![trigger list@[j]]
                    0 <= j < i && list@[j].0@ == keys[q],
            sorted_by_display_name(r@),
        decreases n - i,
    {
        let e = list[i].1.duplicate();
        let p = insertion_point(&r, &e);
        let ghost k = list@[i as int].0@;
        let ghost old_keys = keys;
        let ghost old_r = r@;
        proof {
            lemma_insert_sorted(r@, p as int, e);
        }
        r.insert(p, e);
        proof {
            keys = keys.insert(p as int, k);
            assert forall|q: int| 0 <= q < old_keys.len() implies old_keys[q] != k by {
                let j = choose|j: int| #![trigger list@[j]] 0 <= j < i && list@[j].0@ == old_keys[q];
                assert(list@[j].0@ != list@[i as int].0@);
            }
            assert forall|a: int, b: int| 0 <= a < keys.len() && 0 <= b < keys.len() && a != b
                implies keys[a] != keys[b] by {
                if a < p && b < p {
                    assert(keys[a] == old_keys[a] && keys[b] == old_keys[b]);
                } else if a == p {
                    if b < p {
                        assert(keys[b] == old_keys[b]);
                    } else {
                        assert(keys[b] == old_keys[b - 1]);
                    }
                } else if b == p {
                    if a < p {
                        assert(keys[a] == old_keys[a]);
                    } else {
                        assert(keys[a] == old_keys[a - 1]);
                    }
                } else if a < p {
                    assert(keys[a] == old_keys[a] && keys[b] == old_keys[b - 1]);
                } else if b < p {
                    assert(keys[a] == old_keys[a - 1] && keys[b] == old_keys[b]);
                } else {
                    assert(keys[a] == old_keys[a - 1] && keys[b] == old_keys[b - 1]);
                }
            }
            assert forall|q: int| #![trigger keys[q]] 0 <= q < keys.len() implies db@.contains_key(
                keys[q],
            ) && db@[keys[q]] == r@[q]@ by {
                if q < p {
                    assert(keys[q] == old_keys[q] && r@[q] == old_r[q]);
                } else if q > p {
                    assert(keys[q] == old_keys[q - 1] && r@[q] == old_r[q - 1]);
                } else {
                    assert(keys[q] == k && r@[q] == e);
                }
            }
            assert forall|j: int| #![trigger list@[j]] 0 <= j < i + 1 implies keys.contains(
                list@[j].0@,
            ) by {
                if j < i {
                    let q = choose|q: int| 0 <= q < old_keys.len() && old_keys[q] == list@[j].0@;
                    if q < p {
                        assert(keys[q] == old_keys[q]);
                    } else {
                        assert(keys[q + 1] == old_keys[q]);
                    }
                } else {
                    assert(keys[p as int] == k);
                }
            }
            assert forall|q: int| #![trigger keys[q]] 0 <= q < keys.len() implies exists|j: int|
                #![trigger list@[j]]
                0 <= j < i + 1 && list@[j].0@ == keys[q] by {
                if q < p {
                    assert(keys[q] == old_keys[q]);
                } else if q > p {
                    assert(keys[q] == old_keys[q - 1]);
                } else {
                    assert(list@[i as int].0@ == keys[q]);
                }
            }
        }
        i = i + 1;
    }
    proof {
        assert forall|k: Seq<char>| #![trigger db@.contains_key(k)] db@.contains_key(k) implies keys.contains(k) by {
            let j = choose|j: int| #![trigger list@[j]] 0 <= j < list@.len() && list@[j].0@ == k;
        }
        assert(values_under_keys(keys, r@, db@));
    }
    r
}

/// A list sorted by display name has every display name no later than every one
/// after it, not only the next one.
pub proof fn law_sorted_pairwise(s: Seq<DumpsterBaseJson>, i: int, j: int)
    requires
        sorted_by_display_name(s),
        0 <= i <= j < s.len(),
    ensures
        lex_le(s[i].display_name@, s[j].display_name@),
    decreases j - i,
{
    if i == j {
        lemma_lex_total(s[i].display_name@, s[i].display_name@);
    } else {
        law_sorted_pairwise(s, i, j - 1);
        assert(lex_le(s[j - 1].display_name@, s[j].display_name@));
        lemma_lex_trans(s[i].display_name@, s[j - 1].display_name@, s[j].display_name@);
    }
}

/// In a listing sorted by display name, each name comes no later than the next
/// in `str` order: it is a start of the next, or at the first position where
/// they differ its character has the smaller code point (so "10 seconds" comes
/// before "airhorn").
pub proof fn law_listing_in_str_order(s: Seq<DumpsterBaseJson>, i: int)
    requires
        sorted_by_display_name(s),
        0 <= i,
        i + 1 < s.len(),
    ensures
        ({
            let a = s[i].display_name@;
            let b = s[i + 1].display_name@;
            (a.len() <= b.len() && same_code_points(a, b, a.len() as int)) || exists|k: int|
                0 <= k < a.len() && k < b.len() && same_code_points(a, b, k) && (#[trigger] a[k] as u32)
                    < (b[k] as u32)
        }),
{
    assert(lex_le(s[i].display_name@, s[i + 1].display_name@));
    law_lex_le_is_code_point_order(s[i].display_name@, s[i + 1].display_name@);
}

} // verus!
