//! The store of sounds: one entry per file name, as the board keeps it.

use std::sync::RwLock;
use vstd::prelude::*;

use crate::text::{lemma_stem, lex_le, stem, stem_of};

verus! {

/// The declaration that lets the lock that guards the store stand in a field.
#[verifier::external_type_specification]
#[verifier::external_body]
#[verifier::reject_recursive_types(T)]
pub struct ExRwLock<T: ?Sized>(RwLock<T>);

/// What an entry of the store holds, as character sequences.
pub struct EntryView {
    pub full_file_name: Seq<char>,
    pub without_extention: Seq<char>,
    pub display_name: Seq<char>,
}

/// One sound of the board: its file name, that name without its extension,
/// and the name its button shows.
#[derive(Debug, PartialEq, Eq)]
pub struct DumpsterBaseJson {
    pub full_file_name: String,
    pub without_extention: String,
    pub display_name: String,
}

impl View for DumpsterBaseJson {
    type V = EntryView;

    open spec fn view(&self) -> EntryView {
        EntryView {
            full_file_name: self.full_file_name@,
            without_extention: self.without_extention@,
            display_name: self.display_name@,
        }
    }
}

/// The entry that a sound file gets when it joins the board: its name, and
/// twice the part of the name before the first '.'.
pub open spec fn file_entry(name: Seq<char>) -> EntryView {
    EntryView { full_file_name: name, without_extention: stem(name), display_name: stem(name) }
}

/// `e` with its display name replaced by `name`.
pub open spec fn with_display_name(e: EntryView, name: Seq<char>) -> EntryView {
    EntryView { full_file_name: e.full_file_name, without_extention: e.without_extention, display_name: name }
}

impl DumpsterBaseJson {
    /// A copy of the entry.
    pub fn duplicate(&self) -> (r: Self)
        ensures
            r@ == self@,
    {
        DumpsterBaseJson {
            full_file_name: self.full_file_name.clone(),
            without_extention: self.without_extention.clone(),
            display_name: self.display_name.clone(),
        }
    }
}

/// The entry of the sound file `name`.
pub fn entry_for_file(name: &str) -> (e: DumpsterBaseJson)
    ensures
        e@ == file_entry(name@),
{
    let stem_name = stem_of(name);
    DumpsterBaseJson {
        full_file_name: name.to_owned(),
        without_extention: stem_name.clone(),
        display_name: stem_name,
    }
}

/// `list` holds each key of `m` exactly once, each with the entry that `m` gives it.
pub open spec fn lists_entries(
    list: Seq<(String, DumpsterBaseJson)>,
    m: Map<Seq<char>, EntryView>,
) -> bool {
    &&& forall|i: int, j: int|
        #![trigger list[i], list[j]]
        0 <= i < j < list.len() ==> list[i].0@ != list[j].0@
    &&& forall|i: int|
        #![trigger list[i]]
        0 <= i < list.len() ==> m.contains_key(list[i].0@) && m[list[i].0@] == list[i].1@
    &&& forall|k: Seq<char>|
        #![trigger m.contains_key(k)]
        m.contains_key(k) ==> exists|i: int| #![trigger list[i]] 0 <= i < list.len() && list[i].0@ == k
}

/// `vals` are the entries of `m`, the one of `keys[i]` at `i`, where `keys` holds
/// every key of `m` exactly once.
pub open spec fn values_under_keys(
    keys: Seq<Seq<char>>,
    vals: Seq<DumpsterBaseJson>,
    m: Map<Seq<char>, EntryView>,
) -> bool {
    &&& keys.len() == vals.len()
    &&& keys.no_duplicates()
    &&& forall|i: int|
        #![trigger keys[i]]
        0 <= i < keys.len() ==> m.contains_key(keys[i]) && m[keys[i]] == vals[i]@
    &&& forall|k: Seq<char>| #![trigger m.contains_key(k)] m.contains_key(k) ==> keys.contains(k)
}

/// `vals` lists the entries of `m`, one for each key, in some order.
pub open spec fn lists_values(vals: Seq<DumpsterBaseJson>, m: Map<Seq<char>, EntryView>) -> bool {
    exists|keys: Seq<Seq<char>>| #[trigger] values_under_keys(keys, vals, m)
}

/// Each entry's display name comes no later than the next one's.
pub open spec fn sorted_by_display_name(s: Seq<DumpsterBaseJson>) -> bool {
    forall|i: int, j: int|
        #![trigger s[i], s[j]]
        0 <= i && j == i + 1 && j < s.len() ==> lex_le(s[i].display_name@, s[j].display_name@)
}

/// The map that `list` makes when its pairs are put in, in order: each key with
/// the entry of its last pair.
pub open spec fn pairs_map(list: Seq<(String, DumpsterBaseJson)>) -> Map<Seq<char>, EntryView>
    decreases list.len(),
{
    if list.len() == 0 {
        Map::empty()
    } else {
        pairs_map(list.drop_last()).insert(list.last().0@, list.last().1@)
    }
}

/// What `pairs_map` holds of a list whose keys are distinct: each pair's key
/// with its entry, and no other key.
proof fn lemma_pairs_map_distinct(l: Seq<(String, DumpsterBaseJson)>)
    requires
        forall|i: int, j: int| #![trigger l[i], l[j]] 0 <= i < j < l.len() ==> l[i].0@ != l[j].0@,
    ensures
        forall|j: int|
            #![trigger l[j]]
            0 <= j < l.len() ==> pairs_map(l).contains_key(l[j].0@) && pairs_map(l)[l[j].0@]
                == l[j].1@,
        forall|k: Seq<char>|
            #![trigger pairs_map(l).contains_key(k)]
            pairs_map(l).contains_key(k) ==> exists|j: int| #![trigger l[j]] 0 <= j < l.len() && l[j].0@ == k,
    decreases l.len(),
{
    if l.len() > 0 {
        let t = l.drop_last();
        let n = l.len() - 1;
        assert forall|i: int, j: int| #![trigger t[i], t[j]] 0 <= i < j < t.len() implies t[i].0@
            != t[j].0@ by {
            assert(t[i] == l[i] && t[j] == l[j]);
        }
        lemma_pairs_map_distinct(t);
        assert forall|j: int| #![trigger l[j]] 0 <= j < l.len() implies pairs_map(l).contains_key(
            l[j].0@,
        ) && pairs_map(l)[l[j].0@] == l[j].1@ by {
            if j < n {
                assert(t[j] == l[j]);
                assert(l[j].0@ != l[n].0@);
            }
        }
        assert forall|k: Seq<char>| #![trigger pairs_map(l).contains_key(k)] pairs_map(
            l,
        ).contains_key(k) implies exists|j: int| #![trigger l[j]] 0 <= j < l.len() && l[j].0@ == k by {
            if k == l[n].0@ {
                assert(l[n].0@ == k);
            } else {
                assert(pairs_map(t).contains_key(k));
                let j = choose|j: int| #![trigger t[j]] 0 <= j < t.len() && t[j].0@ == k;
                assert(l[j] == t[j]);
            }
        }
    }
}

/// Rebuilding a store from the listing of its entries gives the same store.
pub proof fn law_rebuild_from_entries(list: Seq<(String, DumpsterBaseJson)>, m: Map<Seq<char>, EntryView>)
    requires
        lists_entries(list, m),
    ensures
        pairs_map(list) == m,
{
    lemma_pairs_map_distinct(list);
    assert forall|k: Seq<char>| pairs_map(list).contains_key(k) <==> m.contains_key(k) by {
        if pairs_map(list).contains_key(k) {
            let j = choose|j: int| #![trigger list[j]] 0 <= j < list.len() && list[j].0@ == k;
        }
        if m.contains_key(k) {
            let j = choose|j: int| #![trigger list[j]] 0 <= j < list.len() && list[j].0@ == k;
        }
    }
    assert forall|k: Seq<char>| #[trigger] m.contains_key(k) implies pairs_map(list)[k] == m[k] by {
        let j = choose|j: int| #![trigger list[j]] 0 <= j < list.len() && list[j].0@ == k;
    }
    assert(pairs_map(list) =~= m);
}

/// The store behind the lock that the request handlers share.
pub struct RwLockedDumpster {
    pub dumpster_base_struct: RwLock<DumpsterBase>,
}

/// The entries of the store in a list, with the map that the list stands for.
struct EntryList {
    entries: Vec<(String, DumpsterBaseJson)>,
    map: Ghost<Map<Seq<char>, EntryView>>,
}

impl View for EntryList {
    type V = Map<Seq<char>, EntryView>;

    closed spec fn view(&self) -> Map<Seq<char>, EntryView> {
        self.map@
    }
}

impl EntryList {
    /// The list holds each key of the map once, with its entry.
    spec fn wf(&self) -> bool {
        lists_entries(self.entries@, self.map@)
    }

    /// An empty list.
    fn new() -> (r: Self)
        ensures
            r.wf(),
            r@ == Map::<Seq<char>, EntryView>::empty(),
    {
        EntryList { entries: Vec::new(), map: Ghost(Map::empty()) }
    }

    /// The position of `key` in the list.
    fn find(&self, key: &str) -> (r: Option<usize>)
        requires
            self.wf(),
        ensures
            match r {
                Some(i) => i < self.entries@.len() && self.entries@[i as int].0@ == key@,
                None => !self@.contains_key(key@),
            },
    {
        let k = key.to_owned();
        let n = self.entries.len();
        let mut i: usize = 0;
        while i < n
            invariant
                self.wf(),
                n == self.entries@.len(),
                k@ == key@,
                i <= n,
                forall|j: int| 0 <= j < i ==> self.entries@[j].0@ != key@,
            decreases n - i,
        {
            if self.entries[i].0 == k {
                return Some(i);
            }
            i = i + 1;
        }
        None
    }

    /// Whether `key` has an entry.
    fn contains_key(&self, key: &str) -> (r: bool)
        requires
            self.wf(),
        ensures
            r == self@.contains_key(key@),
    {
        match self.find(key) {
            Some(_) => true,
            None => false,
        }
    }

    /// The entry of `key`, if it has one.
    fn get(&self, key: &str) -> (r: Option<&DumpsterBaseJson>)
        requires
            self.wf(),
        ensures
            match r {
                Some(e) => self@.contains_key(key@) && e@ == self@[key@],
                None => !self@.contains_key(key@),
            },
    {
        match self.find(key) {
            Some(i) => Some(&self.entries[i].1),
            None => None,
        }
    }

    /// Gives `key` the entry `value`; returns the entry it had before, if any.
    fn insert(&mut self, key: String, value: DumpsterBaseJson) -> (prev: Option<DumpsterBaseJson>)
        requires
            old(self).wf(),
        ensures
            final(self).wf(),
            final(self)@ == old(self)@.insert(key@, value@),
            match prev {
                Some(v) => old(self)@.contains_key(key@) && v@ == old(self)@[key@],
                None => !old(self)@.contains_key(key@),
            },
    {
        let ghost old_entries = self.entries@;
        let ghost old_map = self.map@;
        let ghost k = key@;
        let ghost v = value@;
        match self.find(key.as_str()) {
            Some(i) => {
                let (_, prev) = self.entries.remove(i);
                self.entries.insert(i, (key, value));
                self.map = Ghost(old_map.insert(k, v));
                proof {
                    assert(old_map.contains_key(k));
                    let ne = self.entries@;
                    assert forall|a: int| 0 <= a < ne.len() implies ne[a] == (if a == i {
                        ne[a]
                    } else {
                        old_entries[a]
                    }) by {}
                    assert forall|a: int, b: int| 0 <= a < b < ne.len() implies ne[a].0@
                        != ne[b].0@ by {
                        assert(old_entries[a].0@ != old_entries[b].0@);
                    }
                    assert forall|a: int| 0 <= a < ne.len() implies self.map@.contains_key(
                        ne[a].0@,
                    ) && self.map@[ne[a].0@] == ne[a].1@ by {
                        if a != i {
                            assert(old_entries[a].0@ != old_entries[i as int].0@);
                        }
                    }
                    assert forall|q: Seq<char>| self.map@.contains_key(q) implies exists|a: int|
                        #![trigger ne[a]]
                        0 <= a < ne.len() && ne[a].0@ == q by {
                        if q != k {
                            let a = choose|a: int|
                                #![trigger old_entries[a]]
                                0 <= a < old_entries.len() && old_entries[a].0@ == q;
                            assert(ne[a] == old_entries[a]);
                        } else {
                            assert(ne[i as int].0@ == q);
                        }
                    }
                }
                Some(prev)
            },
            None => {
                self.entries.push((key, value));
                self.map = Ghost(old_map.insert(k, v));
                proof {
                    let ne = self.entries@;
                    let n = old_entries.len() as int;
                    assert forall|a: int| 0 <= a < n implies ne[a] == old_entries[a] by {}
                    assert forall|a: int, b: int| 0 <= a < b < ne.len() implies ne[a].0@
                        != ne[b].0@ by {
                        if b == n {
                            assert(old_map.contains_key(old_entries[a].0@));
                        } else {
                            assert(old_entries[a].0@ != old_entries[b].0@);
                        }
                    }
                    assert forall|a: int| 0 <= a < ne.len() implies self.map@.contains_key(
                        ne[a].0@,
                    ) && self.map@[ne[a].0@] == ne[a].1@ by {
                        if a < n {
                            assert(old_map.contains_key(old_entries[a].0@));
                        }
                    }
                    assert forall|q: Seq<char>| self.map@.contains_key(q) implies exists|a: int|
                        #![trigger ne[a]]
                        0 <= a < ne.len() && ne[a].0@ == q by {
                        if q != k {
                            let a = choose|a: int|
                                #![trigger old_entries[a]]
                                0 <= a < old_entries.len() && old_entries[a].0@ == q;
                            assert(ne[a] == old_entries[a]);
                        } else {
                            assert(ne[n].0@ == q);
                        }
                    }
                }
                None
            },
        }
    }

    /// Takes the entry of `key` out of the store, with its key.
    fn remove_entry(&mut self, key: &str) -> (r: Option<(String, DumpsterBaseJson)>)
        requires
            old(self).wf(),
        ensures
            final(self).wf(),
            final(self)@ == old(self)@.remove(key@),
            match r {
                Some(p) => old(self)@.contains_key(key@) && p.0@ == key@ && p.1@ == old(self)@[key@],
                None => !old(self)@.contains_key(key@),
            },
    {
        let ghost old_entries = self.entries@;
        let ghost old_map = self.map@;
        match self.find(key) {
            Some(i) => {
                let p = self.entries.remove(i);
                self.map = Ghost(old_map.remove(key@));
                proof {
                    let ne = self.entries@;
                    assert forall|a: int| 0 <= a < ne.len() implies ne[a] == (if a < i {
                        old_entries[a]
                    } else {
                        old_entries[a + 1]
                    }) by {}
                    assert forall|a: int, b: int| 0 <= a < b < ne.len() implies ne[a].0@
                        != ne[b].0@ by {
                        if a < i && b < i {
                            assert(old_entries[a].0@ != old_entries[b].0@);
                        } else if a < i {
                            assert(old_entries[a].0@ != old_entries[b + 1].0@);
                        } else {
                            assert(old_entries[a + 1].0@ != old_entries[b + 1].0@);
                        }
                    }
                    assert forall|a: int| 0 <= a < ne.len() implies self.map@.contains_key(
                        ne[a].0@,
                    ) && self.map@[ne[a].0@] == ne[a].1@ by {
                        if a < i {
                            assert(old_entries[a].0@ != old_entries[i as int].0@);
                        } else {
                            assert(old_entries[a + 1].0@ != old_entries[i as int].0@);
                        }
                    }
                    assert forall|q: Seq<char>| self.map@.contains_key(q) implies exists|a: int|
                        #![trigger ne[a]]
                        0 <= a < ne.len() && ne[a].0@ == q by {
                        let a = choose|a: int|
                            #![trigger old_entries[a]]
                            0 <= a < old_entries.len() && old_entries[a].0@ == q;
                        if a < i {
                            assert(ne[a] == old_entries[a]);
                        } else {
                            assert(a != i);
                            assert(ne[a - 1] == old_entries[a]);
                        }
                    }
                }
                Some(p)
            },
            None => {
                assert(old_map.remove(key@) =~= old_map);
                None
            },
        }
    }

    /// Gives the entry of `key` the display name `name`, leaving the rest as it was.
    fn set_display_name(&mut self, key: &str, name: String)
        requires
            old(self).wf(),
            old(self)@.contains_key(key@),
        ensures
            final(self).wf(),
            final(self)@ == old(self)@.insert(key@, with_display_name(old(self)@[key@], name@)),
    {
        let i = match self.find(key) {
            Some(i) => i,
            None => {
                proof {
                    assert(false);
                }
                return ;
            },
        };
        let k = self.entries[i].0.clone();
        let mut e = self.entries[i].1.duplicate();
        e.display_name = name;
        self.insert(k, e);
    }

    /// Every entry with its key, each key once.
    fn entries(&self) -> (r: Vec<(String, DumpsterBaseJson)>)
        requires
            self.wf(),
        ensures
            lists_entries(r@, self@),
    {
        let n = self.entries.len();
        let mut r: Vec<(String, DumpsterBaseJson)> = Vec::new();
        let mut i: usize = 0;
        while i < n
            invariant
                self.wf(),
                n == self.entries@.len(),
                i <= n,
                r@.len() == i,
                forall|j: int|
                    #![trigger r@[j]]
                    0 <= j < i ==> r@[j].0@ == self.entries@[j].0@ && r@[j].1@
                        == self.entries@[j].1@,
            decreases n - i,
        {
            let key = self.entries[i].0.clone();
            let value = self.entries[i].1.duplicate();
            r.push((key, value));
            i = i + 1;
        }
        proof {
            let es = self.entries@;
            assert forall|a: int, b: int| 0 <= a < b < r@.len() implies r@[a].0@ != r@[b].0@ by {
                assert(es[a].0@ != es[b].0@);
            }
            assert forall|q: Seq<char>| self@.contains_key(q) implies exists|a: int|
                #![trigger r@[a]]
                0 <= a < r@.len() && r@[a].0@ == q by {
                let a = choose|a: int| #![trigger es[a]] 0 <= a < es.len() && es[a].0@ == q;
                assert(r@[a].0@ == q);
            }
        }
        r
    }
}

/// The sounds of the board, each under its key (the file name it was added by).
///
/// The store keeps its own list of (key, entry) pairs rather than a
/// `HashMap<String, _>`: vstd specifies `HashMap` only for keys whose hashing it
/// models (integers, `bool` and the like), and for `String` keys it states
/// nothing of `insert`, `get` or `remove`.
pub struct DumpsterBase {
    list: EntryList,
}

impl View for DumpsterBase {
    type V = Map<Seq<char>, EntryView>;

    closed spec fn view(&self) -> Map<Seq<char>, EntryView> {
        self.list@
    }
}

impl DumpsterBase {
    /// The list behind the store holds each of its keys once.
    #[verifier::type_invariant]
    spec fn well_formed(&self) -> bool {
        self.list.wf()
    }

    /// An empty store.
    pub fn new() -> (r: Self)
        ensures
            r@ == Map::<Seq<char>, EntryView>::empty(),
    {
        DumpsterBase { list: EntryList::new() }
    }

    /// Whether `key` has an entry.
    pub fn contains_key(&self, key: &str) -> (r: bool)
        ensures
            r == self@.contains_key(key@),
    {
        proof {
            use_type_invariant(self);
        }
        self.list.contains_key(key)
    }

    /// The entry of `key`, if it has one.
    pub fn get(&self, key: &str) -> (r: Option<&DumpsterBaseJson>)
        ensures
            match r {
                Some(e) => self@.contains_key(key@) && e@ == self@[key@],
                None => !self@.contains_key(key@),
            },
    {
        proof {
            use_type_invariant(self);
        }
        self.list.get(key)
    }

    /// Gives `key` the entry `value`; returns the entry it had before, if any.
    pub fn insert(&mut self, key: String, value: DumpsterBaseJson) -> (prev: Option<DumpsterBaseJson>)
        ensures
            final(self)@ == old(self)@.insert(key@, value@),
            match prev {
                Some(v) => old(self)@.contains_key(key@) && v@ == old(self)@[key@],
                None => !old(self)@.contains_key(key@),
            },
    {
        proof {
            use_type_invariant(&*self);
        }
        let mut list = EntryList::new();
        std::mem::swap(&mut list, &mut self.list);
        let prev = list.insert(key, value);
        self.list = list;
        prev
    }

    /// Takes the entry of `key` out of the store, with its key.
    pub fn remove_entry(&mut self, key: &str) -> (r: Option<(String, DumpsterBaseJson)>)
        ensures
            final(self)@ == old(self)@.remove(key@),
            match r {
                Some(p) => old(self)@.contains_key(key@) && p.0@ == key@ && p.1@ == old(self)@[key@],
                None => !old(self)@.contains_key(key@),
            },
    {
        proof {
            use_type_invariant(&*self);
        }
        let mut list = EntryList::new();
        std::mem::swap(&mut list, &mut self.list);
        let r = list.remove_entry(key);
        self.list = list;
        r
    }

    /// Gives the entry of `key` the display name `name`, leaving the rest as it was.
    pub fn set_display_name(&mut self, key: &str, name: String)
        requires
            old(self)@.contains_key(key@),
        ensures
            final(self)@ == old(self)@.insert(key@, with_display_name(old(self)@[key@], name@)),
    {
        proof {
            use_type_invariant(&*self);
        }
        let mut list = EntryList::new();
        std::mem::swap(&mut list, &mut self.list);
        list.set_display_name(key, name);
        self.list = list;
    }

    /// Every entry with its key, each key once.
    pub fn entries(&self) -> (r: Vec<(String, DumpsterBaseJson)>)
        ensures
            lists_entries(r@, self@),
    {
        proof {
            use_type_invariant(self);
        }
        self.list.entries()
    }

    /// The store that `list` makes when its pairs are put in, in order.
    pub fn from_entries(list: &Vec<(String, DumpsterBaseJson)>) -> (r: Self)
        ensures
            r@ == pairs_map(list@),
    {
        let mut r = DumpsterBase::new();
        let n = list.len();
        let mut i: usize = 0;
        while i < n
            invariant
                n == list@.len(),
                i <= n,
                r@ == pairs_map(list@.take(i as int)),
            decreases n - i,
        {
            r.insert(list[i].0.clone(), list[i].1.duplicate());
            assert(list@.take(i + 1).drop_last() =~= list@.take(i as int));
            i = i + 1;
        }
        assert(list@.take(n as int) =~= list@);
        r
    }

    /// Adds the sound file `filename` under its own name, with the entry it gets
    /// when it joins the board.
    pub fn add_file(&mut self, filename: String)
        ensures
            final(self)@ == old(self)@.insert(filename@, file_entry(filename@)),
    {
        let entry = entry_for_file(filename.as_str());
        self.insert(filename, entry);
    }

    /// The store of the sound files `names`: each name under itself, with the
    /// entry it gets when it joins the board.
    pub fn from_file_names(names: &Vec<String>) -> (r: Self)
        ensures
            forall|k: Seq<char>|
                #![trigger r@.contains_key(k)]
                r@.contains_key(k) <==> exists|i: int|
                    #![trigger names@[i]]
                    0 <= i < names@.len() && names@[i]@ == k,
            forall|k: Seq<char>| #![trigger r@[k]] r@.contains_key(k) ==> r@[k] == file_entry(k),
    {
        let mut r = DumpsterBase::new();
        let n = names.len();
        let mut i: usize = 0;
        while i < n
            invariant
                n == names@.len(),
                i <= n,
                forall|k: Seq<char>|
                    #![trigger r@.contains_key(k)]
                    r@.contains_key(k) <==> exists|j: int|
                        #![trigger names@[j]]
                        0 <= j < i && names@[j]@ == k,
                forall|k: Seq<char>| #![trigger r@[k]] r@.contains_key(k) ==> r@[k] == file_entry(k),
            decreases n - i,
        {
            let ghost before = r@;
            r.add_file(names[i].clone());
            proof {
                assert forall|k: Seq<char>| r@.contains_key(k) implies exists|j: int|
                    #![trigger names@[j]]
                    0 <= j < i + 1 && names@[j]@ == k by {
                    if k != names@[i as int]@ {
                        assert(before.contains_key(k));
                    }
                }
                assert forall|k: Seq<char>|
                    (exists|j: int| #![trigger names@[j]] 0 <= j < i + 1 && names@[j]@ == k) implies r@.contains_key(k) by {
                    let j = choose|j: int| #![trigger names@[j]] 0 <= j < i + 1 && names@[j]@ == k;
                    if j < i {
                        assert(before.contains_key(k));
                    }
                }
            }
            i = i + 1;
        }
        r
    }
}

/// Reading a key after `insert` gives the entry written; every other key keeps
/// what it had.
pub proof fn law_get_after_insert(
    before: Map<Seq<char>, EntryView>,
    key: Seq<char>,
    value: EntryView,
    other: Seq<char>,
)
    requires
        other != key,
    ensures
        before.insert(key, value).contains_key(key),
        before.insert(key, value)[key] == value,
        before.insert(key, value).contains_key(other) == before.contains_key(other),
        before.contains_key(other) ==> before.insert(key, value)[other] == before[other],
{
}

/// After `remove_entry` the key is gone and every other key keeps what it had;
/// removing a key that is not there changes nothing.
pub proof fn law_remove(before: Map<Seq<char>, EntryView>, key: Seq<char>, other: Seq<char>)
    requires
        other != key,
    ensures
        !before.remove(key).contains_key(key),
        before.remove(key).contains_key(other) == before.contains_key(other),
        before.contains_key(other) ==> before.remove(key)[other] == before[other],
        !before.contains_key(key) ==> before.remove(key) == before,
{
    if !before.contains_key(key) {
        assert(before.remove(key) =~= before);
    }
}

/// Renaming a sound changes only the name its button shows: its file, and so
/// what plays, stays; every other sound stays as it was.
pub proof fn law_rename_keeps_file(
    before: Map<Seq<char>, EntryView>,
    key: Seq<char>,
    name: Seq<char>,
    other: Seq<char>,
)
    requires
        before.contains_key(key),
        other != key,
    ensures
        ({
            let after = before.insert(key, with_display_name(before[key], name));
            &&& after.dom() == before.dom()
            &&& after[key].display_name == name
            &&& after[key].full_file_name == before[key].full_file_name
            &&& after[key].without_extention == before[key].without_extention
            &&& before.contains_key(other) ==> after[other] == before[other]
        }),
{
    let after = before.insert(key, with_display_name(before[key], name));
    assert(after.dom() =~= before.dom());
}

/// A file that joins the board is stored under its own name, its entry names
/// that file, and the name its button shows is the start of the file name up
/// to the first '.', which holds no '.'.
pub proof fn law_file_entry(before: Map<Seq<char>, EntryView>, name: Seq<char>)
    ensures
        ({
            let after = before.insert(name, file_entry(name));
            &&& after.contains_key(name)
            &&& after[name].full_file_name == name
            &&& after[name].display_name == after[name].without_extention
            &&& after[name].display_name.len() <= name.len()
            &&& forall|j: int|
                0 <= j < after[name].display_name.len() ==> #[trigger] after[name].display_name[j]
                    != '.' && after[name].display_name[j] == name[j]
        }),
{
    lemma_stem(name);
}

/// The entry of a file shows the file name up to its first '.': the longest start
/// of the name without '.', so the name goes on with '.' after it, or ends there.
pub proof fn law_entry_is_name_up_to_first_dot(name: Seq<char>)
    ensures
        ({
            let e = file_entry(name);
            let d = e.display_name;
            &&& e.full_file_name == name
            &&& e.without_extention == d
            &&& d.len() <= name.len()
            &&& forall|j: int| 0 <= j < d.len() ==> #[trigger] name[j] != '.' && d[j] == name[j]
            &&& (d.len() == name.len() || name[d.len() as int] == '.')
        }),
{
    lemma_stem(name);
    crate::text::lemma_index_of(name, '.');
}

} // verus!
