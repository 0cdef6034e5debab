//! Character-level helpers on strings, with their mathematical meaning.

use vstd::prelude::*;

verus! {

/// Position of the first `c` in `s`, or `s.len()` when `c` does not occur.
pub open spec fn index_of(s: Seq<char>, c: char) -> nat
    decreases s.len(),
{
    if s.len() == 0 {
        0
    } else if s[0] == c {
        0
    } else {
        1 + index_of(s.drop_first(), c)
    }
}

/// What `index_of` means: no `c` before it, and `c` at it unless it is the end.
pub proof fn lemma_index_of(s: Seq<char>, c: char)
    ensures
        index_of(s, c) <= s.len(),
        forall|j: int| 0 <= j < index_of(s, c) ==> s[j] != c,
        index_of(s, c) < s.len() ==> s[index_of(s, c) as int] == c,
    decreases s.len(),
{
    if s.len() > 0 && s[0] != c {
        lemma_index_of(s.drop_first(), c);
        assert forall|j: int| 0 <= j < index_of(s, c) implies s[j] != c by {
            if j > 0 {
                assert(s[j] == s.drop_first()[j - 1]);
            }
        }
    }
}

/// A position with the defining properties is `index_of`.
pub proof fn lemma_index_of_unique(s: Seq<char>, c: char, k: nat)
    requires
        k <= s.len(),
        forall|j: int| 0 <= j < k ==> s[j] != c,
        k < s.len() ==> s[k as int] == c,
    ensures
        index_of(s, c) == k,
{
    lemma_index_of(s, c);
    if index_of(s, c) < k {
        assert(s[index_of(s, c) as int] != c);
    }
    if index_of(s, c) > k {
        assert(s[k as int] != c);
    }
}

/// The first piece of a split at '.' holds no '.' and begins the sequence.
pub proof fn lemma_stem(s: Seq<char>)
    ensures
        stem(s).len() <= s.len(),
        forall|j: int| 0 <= j < stem(s).len() ==> #[trigger] stem(s)[j] != '.' && stem(s)[j] == s[j],
{
    lemma_index_of(s, '.');
}

/// Finds the first `c` in `s`; the length of `s` (in characters) when there is none.
pub fn find_char(s: &str, c: char) -> (k: usize)
    ensures
        k == index_of(s@, c),
{
    let n = s.unicode_len();
    let mut i: usize = 0;
    while i < n
        invariant
            n == s@.len(),
            i <= n,
            forall|j: int| 0 <= j < i ==> s@[j] != c,
        decreases n - i,
    {
        if s.get_char(i) == c {
            proof {
                lemma_index_of_unique(s@, c, i as nat);
            }
            return i;
        }
        i = i + 1;
    }
    proof {
        lemma_index_of_unique(s@, c, n as nat);
    }
    n
}


/// The first piece of `s` split at '.': all of `s` before its first '.'.
pub open spec fn stem(s: Seq<char>) -> Seq<char> {
    s.take(index_of(s, '.') as int)
}

/// What follows the first '.' of `s`.
pub open spec fn after_first_dot(s: Seq<char>) -> Seq<char> {
    s.skip(index_of(s, '.') as int + 1)
}

/// The second piece of `s` split at '.': what lies between its first and second '.'
/// (or between its first '.' and its end).
pub open spec fn second_piece(s: Seq<char>) -> Seq<char> {
    stem(after_first_dot(s))
}

/// `s` holds a '.'.
pub open spec fn has_dot(s: Seq<char>) -> bool {
    index_of(s, '.') < s.len()
}

/// Whether `s` holds a '.'.
pub fn holds_dot(s: &str) -> (r: bool)
    ensures
        r == has_dot(s@),
{
    let k = find_char(s, '.');
    k < s.unicode_len()
}

/// The first piece of `s` split at '.'.
pub fn stem_of(s: &str) -> (r: String)
    ensures
        r@ == stem(s@),
{
    let k = find_char(s, '.');
    proof {
        lemma_index_of(s@, '.');
    }
    s.substring_char(0, k).to_owned()
}

/// The second piece of `s` split at '.'; `s` must hold a '.'.
pub fn second_piece_of(s: &str) -> (r: String)
    requires
        has_dot(s@),
    ensures
        r@ == second_piece(s@),
{
    let k = find_char(s, '.');
    let n = s.unicode_len();
    let rest = s.substring_char(k + 1, n);
    assert(rest@ =~= after_first_dot(s@));
    let m = find_char(rest, '.');
    proof {
        lemma_index_of(rest@, '.');
    }
    rest.substring_char(0, m).to_owned()
}

/// `p` occurs in `s` starting at position `i`.
pub open spec fn occurs_at(s: Seq<char>, p: Seq<char>, i: int) -> bool {
    0 <= i && i + p.len() <= s.len() && s.subrange(i, i + p.len()) == p
}

/// `p` occurs somewhere in `s`, as `str::contains` asks.
pub open spec fn contains_seq(s: Seq<char>, p: Seq<char>) -> bool {
    exists|i: int| occurs_at(s, p, i)
}

/// Whether `p` occurs in `s`.
pub fn contains_str(s: &str, p: &str) -> (b: bool)
    ensures
        b == contains_seq(s@, p@),
{
    let n = s.unicode_len();
    let m = p.unicode_len();
    if m > n {
        assert forall|i: int| !occurs_at(s@, p@, i) by {}
        return false;
    }
    if m == 0 {
        assert(s@.subrange(0, 0) =~= p@);
        assert(occurs_at(s@, p@, 0));
        return true;
    }
    let mut i: usize = 0;
    while i <= n - m
        invariant
            n == s@.len(),
            m == p@.len(),
            0 < m <= n,
            i <= n - m + 1,
            forall|q: int| 0 <= q < i ==> !occurs_at(s@, p@, q),
        decreases n - m + 1 - i,
    {
        let mut j: usize = 0;
        let mut same = true;
        while j < m
            invariant
                n == s@.len(),
                m == p@.len(),
                i + m <= n,
                j <= m,
                same ==> forall|t: int| 0 <= t < j ==> s@[i + t] == p@[t],
                !same ==> !occurs_at(s@, p@, i as int),
            decreases m - j,
        {
            if s.get_char(i + j) != p.get_char(j) {
                if same {
                    assert(s@.subrange(i as int, i + m)[j as int] == s@[i + j]);
                }
                same = false;
            }
            j = j + 1;
        }
        if same {
            assert(s@.subrange(i as int, i + m) =~= p@);
            assert(occurs_at(s@, p@, i as int));
            return true;
        }
        i = i + 1;
    }
    assert forall|q: int| !occurs_at(s@, p@, q) by {
        if q >= i {
            assert(q + m > n);
        }
    }
    false
}

/// `a` comes no later than `b` in the lexicographic order of their characters,
/// the order in which `str` compares.
pub open spec fn lex_le(a: Seq<char>, b: Seq<char>) -> bool
    decreases a.len(),
{
    if a.len() == 0 {
        true
    } else if b.len() == 0 {
        false
    } else if (a[0] as u32) < (b[0] as u32) {
        true
    } else if (a[0] as u32) > (b[0] as u32) {
        false
    } else {
        lex_le(a.drop_first(), b.drop_first())
    }
}

/// Any two sequences are ordered one way or the other.
pub proof fn lemma_lex_total(a: Seq<char>, b: Seq<char>)
    ensures
        lex_le(a, b) || lex_le(b, a),
    decreases a.len(),
{
    if a.len() > 0 && b.len() > 0 && (a[0] as u32) == (b[0] as u32) {
        lemma_lex_total(a.drop_first(), b.drop_first());
    }
}

/// The order is transitive.
pub proof fn lemma_lex_trans(a: Seq<char>, b: Seq<char>, c: Seq<char>)
    requires
        lex_le(a, b),
        lex_le(b, c),
    ensures
        lex_le(a, c),
    decreases a.len(),
{
    if a.len() > 0 && b.len() > 0 && c.len() > 0 {
        if (a[0] as u32) == (b[0] as u32) && (b[0] as u32) == (c[0] as u32) {
            lemma_lex_trans(a.drop_first(), b.drop_first(), c.drop_first());
        }
    }
}

/// Dropping a common prefix does not change the order.
proof fn lemma_lex_skip(a: Seq<char>, b: Seq<char>, i: int)
    requires
        0 <= i <= a.len(),
        i <= b.len(),
        forall|j: int| 0 <= j < i ==> (a[j] as u32) == (b[j] as u32),
    ensures
        lex_le(a, b) == lex_le(a.skip(i), b.skip(i)),
    decreases i,
{
    if i > 0 {
        assert((a[0] as u32) == (b[0] as u32));
        lemma_lex_skip(a.drop_first(), b.drop_first(), i - 1);
        assert(a.drop_first().skip(i - 1) =~= a.skip(i));
        assert(b.drop_first().skip(i - 1) =~= b.skip(i));
    } else {
        assert(a.skip(0) =~= a);
        assert(b.skip(0) =~= b);
    }
}

/// Whether `a` comes no later than `b` in the lexicographic order.
pub fn lex_le_str(a: &str, b: &str) -> (r: bool)
    ensures
        r == lex_le(a@, b@),
{
    let n = a.unicode_len();
    let m = b.unicode_len();
    let mut i: usize = 0;
    while i < n && i < m
        invariant
            n == a@.len(),
            m == b@.len(),
            i <= n,
            i <= m,
            forall|j: int| 0 <= j < i ==> (a@[j] as u32) == (b@[j] as u32),
        decreases n - i,
    {
        let x = a.get_char(i) as u32;
        let y = b.get_char(i) as u32;
        if x != y {
            proof {
                lemma_lex_skip(a@, b@, i as int);
                assert(a@.skip(i as int)[0] as u32 == x);
                assert(b@.skip(i as int)[0] as u32 == y);
            }
            return x < y;
        }
        i = i + 1;
    }
    proof {
        lemma_lex_skip(a@, b@, i as int);
    }
    n <= m
}

/// `c` is one of the decimal digits '0' to '9'.
pub open spec fn is_digit(c: char) -> bool {
    48 <= (c as u32) && (c as u32) <= 57
}

/// Every character of `s` is a decimal digit.
pub open spec fn all_digits(s: Seq<char>) -> bool {
    forall|i: int| 0 <= i < s.len() ==> is_digit(#[trigger] s[i])
}

/// The number that the decimal digits `s` write (0 for no digits).
pub open spec fn decimal_value(s: Seq<char>) -> nat
    decreases s.len(),
{
    if s.len() == 0 {
        0
    } else {
        decimal_value(s.drop_last()) * 10 + ((s.last() as u32) - 48) as nat
    }
}

/// Dropping digits from the end never makes the number larger.
proof fn lemma_decimal_prefix(s: Seq<char>, k: int)
    requires
        all_digits(s),
        0 <= k <= s.len(),
    ensures
        decimal_value(s.take(k)) <= decimal_value(s),
    decreases s.len(),
{
    if k == s.len() {
        assert(s.take(k) =~= s);
    } else {
        let t = s.drop_last();
        assert(all_digits(t)) by {
            assert forall|i: int| 0 <= i < t.len() implies is_digit(#[trigger] t[i]) by {
                assert(t[i] == s[i]);
            }
        }
        lemma_decimal_prefix(t, k);
        assert(t.take(k) =~= s.take(k));
    }
}

/// The number written by `s` in decimal digits: none unless `s` is one or more
/// digits and nothing else, and the number fits in a `usize`.
pub fn parse_decimal(s: &str) -> (r: Option<usize>)
    ensures
        match r {
            Some(n) => s@.len() > 0 && all_digits(s@) && n == decimal_value(s@),
            None => !(s@.len() > 0 && all_digits(s@) && decimal_value(s@) <= usize::MAX),
        },
{
    let n = s.unicode_len();
    if n == 0 {
        return None;
    }
    let mut v: usize = 0;
    let mut i: usize = 0;
    while i < n
        invariant
            n == s@.len(),
            i <= n,
            all_digits(s@.take(i as int)),
            v == decimal_value(s@.take(i as int)),
        decreases n - i,
    {
        let c = s.get_char(i) as u32;
        if c < 48 || c > 57 {
            assert(!is_digit(s@[i as int]));
            return None;
        }
        let ghost next = s@.take(i + 1);
        assert(next.drop_last() =~= s@.take(i as int));
        assert(next.last() == s@[i as int]);
        assert(all_digits(next)) by {
            assert forall|j: int| 0 <= j < next.len() implies is_digit(#[trigger] next[j]) by {
                if j < i {
                    assert(next[j] == s@.take(i as int)[j]);
                }
            }
        }
        match v.checked_mul(10) {
            Some(w) => match w.checked_add((c - 48) as usize) {
                Some(x) => {
                    v = x;
                },
                None => {
                    proof {
                        if all_digits(s@) {
                            lemma_decimal_prefix(s@, i + 1);
                        }
                    }
                    return None;
                },
            },
            None => {
                proof {
                    if all_digits(s@) {
                        lemma_decimal_prefix(s@, i + 1);
                    }
                }
                return None;
            },
        }
        i = i + 1;
    }
    assert(s@.take(n as int) =~= s@);
    Some(v)
}

/// The first `k` characters of `a` and `b` have the same code points.
pub open spec fn same_code_points(a: Seq<char>, b: Seq<char>, k: int) -> bool {
    forall|j: int| 0 <= j < k ==> (#[trigger] a[j] as u32) == (b[j] as u32)
}

/// `lex_le` is the order in which `str` compares: `a` comes no later than `b`
/// exactly when `a` is a start of `b`, or when at the first position where they
/// differ `a`'s character has the smaller code point.
pub proof fn law_lex_le_is_code_point_order(a: Seq<char>, b: Seq<char>)
    ensures
        lex_le(a, b) <==> ((a.len() <= b.len() && same_code_points(a, b, a.len() as int))
            || exists|k: int|
            0 <= k < a.len() && k < b.len() && same_code_points(a, b, k) && (#[trigger] a[k] as u32)
                < (b[k] as u32)),
    decreases a.len(),
{
    if a.len() == 0 {
    } else if b.len() == 0 {
    } else {
        let a1 = a.drop_first();
        let b1 = b.drop_first();
        if (a[0] as u32) < (b[0] as u32) {
            assert(same_code_points(a, b, 0));
            assert((a[0] as u32) < (b[0] as u32));
        } else if (a[0] as u32) > (b[0] as u32) {
            assert forall|k: int|
                !(0 <= k < a.len() && k < b.len() && same_code_points(a, b, k) && (
                #[trigger] a[k] as u32) < (b[k] as u32)) by {
                if 0 < k && same_code_points(a, b, k) {
                    assert((a[0] as u32) == (b[0] as u32));
                }
            }
        } else {
            law_lex_le_is_code_point_order(a1, b1);
            if a.len() <= b.len() && same_code_points(a, b, a.len() as int) {
                assert forall|j: int| 0 <= j < a1.len() implies (#[trigger] a1[j] as u32) == (
                b1[j] as u32) by {
                    assert((a[j + 1] as u32) == (b[j + 1] as u32));
                }
            }
            if a1.len() <= b1.len() && same_code_points(a1, b1, a1.len() as int) {
                assert forall|j: int| 0 <= j < a.len() implies (#[trigger] a[j] as u32) == (
                b[j] as u32) by {
                    if j > 0 {
                        assert((a1[j - 1] as u32) == (b1[j - 1] as u32));
                    }
                }
            }
            if exists|k: int|
                0 <= k < a.len() && k < b.len() && same_code_points(a, b, k) && (
                #[trigger] a[k] as u32) < (b[k] as u32) {
                let k = choose|k: int|
                    0 <= k < a.len() && k < b.len() && same_code_points(a, b, k) && (
                    #[trigger] a[k] as u32) < (b[k] as u32);
                assert(k > 0);
                assert forall|j: int| 0 <= j < k - 1 implies (#[trigger] a1[j] as u32) == (
                b1[j] as u32) by {
                    assert((a[j + 1] as u32) == (b[j + 1] as u32));
                }
                assert(same_code_points(a1, b1, k - 1));
                assert(a1[k - 1] == a[k] && b1[k - 1] == b[k]);
                assert((a1[k - 1] as u32) < (b1[k - 1] as u32));
            }
            if exists|k: int|
                0 <= k < a1.len() && k < b1.len() && same_code_points(a1, b1, k) && (
                #[trigger] a1[k] as u32) < (b1[k] as u32) {
                let k = choose|k: int|
                    0 <= k < a1.len() && k < b1.len() && same_code_points(a1, b1, k) && (
                    #[trigger] a1[k] as u32) < (b1[k] as u32);
                assert forall|j: int| 0 <= j < k + 1 implies (#[trigger] a[j] as u32) == (
                b[j] as u32) by {
                    if j > 0 {
                        assert((a1[j - 1] as u32) == (b1[j - 1] as u32));
                    }
                }
                assert(same_code_points(a, b, k + 1));
                assert(a[k + 1] == a1[k] && b[k + 1] == b1[k]);
                assert((a[k + 1] as u32) < (b[k + 1] as u32));
            }
        }
    }
}

/// `contains_seq` holds whenever `p` occurs in `s`, at any position.
pub proof fn law_contains_anywhere(s: Seq<char>, p: Seq<char>, i: int)
    requires
        0 <= i,
        i + p.len() <= s.len(),
        s.subrange(i, i + p.len()) == p,
    ensures
        contains_seq(s, p),
{
    assert(occurs_at(s, p, i));
}

/// `contains_seq` holds only where `p` occurs in `s` at some position.
pub proof fn law_contains_only_where_it_occurs(s: Seq<char>, p: Seq<char>)
    requires
        contains_seq(s, p),
    ensures
        exists|i: int| 0 <= i && i + p.len() <= s.len() && #[trigger] s.subrange(i, i + p.len()) == p,
{
    let i = choose|i: int| occurs_at(s, p, i);
    assert(0 <= i && i + p.len() <= s.len() && s.subrange(i, i + p.len()) == p);
}

} // verus!
