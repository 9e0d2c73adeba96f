//! A map from text keys to values, kept in key order.
use crate::text;
use vstd::prelude::*;

verus! {

/// Every key stands before every later one.
pub open spec fn ascending(keys: Seq<Seq<char>>) -> bool {
    forall|i: int, j: int|
        #![trigger keys[i], keys[j]]
        0 <= i < j < keys.len() ==> text::before(keys[i], keys[j])
}

/// The members of a finite set of texts in dictionary order.
pub open spec fn sorted(keys: Set<Seq<char>>) -> Seq<Seq<char>> {
    choose|s: Seq<Seq<char>>| ascending(s) && #[trigger] s.to_set() == keys
}

/// A text map in key order. Each key occurs once.
pub struct Table<V> {
    entries: Vec<(String, V)>,
}

spec fn keys_of<V>(entries: Seq<(String, V)>) -> Seq<Seq<char>> {
    Seq::new(entries.len(), |i: int| entries[i].0@)
}

spec fn position<V>(entries: Seq<(String, V)>, key: Seq<char>) -> int {
    choose|i: int| 0 <= i < entries.len() && #[trigger] keys_of(entries)[i] == key
}

spec fn contents<V>(entries: Seq<(String, V)>) -> Map<Seq<char>, V> {
    Map::new(
        |key: Seq<char>| keys_of(entries).contains(key),
        |key: Seq<char>| entries[position(entries, key)].1,
    )
}

impl<V> View for Table<V> {
    type V = Map<Seq<char>, V>;

    closed spec fn view(&self) -> Map<Seq<char>, V> {
        contents(self.entries@)
    }
}

/// A map of values seen as a map of what they stand for.
pub open spec fn deep<V: DeepView>(m: Map<Seq<char>, V>) -> Map<Seq<char>, V::V> {
    Map::new(|key: Seq<char>| m.dom().contains(key), |key: Seq<char>| m[key].deep_view())
}

impl<V: DeepView> DeepView for Table<V> {
    type V = Map<Seq<char>, V::V>;

    open spec fn deep_view(&self) -> Map<Seq<char>, V::V> {
        deep(self@)
    }
}

/// Two ascending sequences with the same members are the same sequence.
pub proof fn ascending_is_unique(a: Seq<Seq<char>>, b: Seq<Seq<char>>)
    requires
        ascending(a),
        ascending(b),
        a.to_set() == b.to_set(),
    ensures
        a == b,
    decreases a.len(),
{
    if a.len() == 0 {
        if b.len() > 0 {
            assert(b.to_set().contains(b[0]));
            assert(a.to_set().contains(b[0]));
        }
        assert(a =~= b);
    } else {
        assert(a.to_set().contains(a.last()));
        assert(b.to_set().contains(a.last()));
        let i = choose|i: int| 0 <= i < b.len() && b[i] == a.last();
        assert(b.to_set().contains(b.last()));
        assert(a.to_set().contains(b.last()));
        let j = choose|j: int| 0 <= j < a.len() && a[j] == b.last();
        if i < b.len() - 1 {
            assert(text::before(b[i], b[b.len() - 1]));
            if j < a.len() - 1 {
                assert(text::before(a[j], a[a.len() - 1]));
                text::before_is_asymmetric(a.last(), b.last());
            } else {
                text::before_is_irreflexive(a.last());
            }
        }
        assert(a.last() == b.last());
        let x = a.drop_last();
        let y = b.drop_last();
        assert forall|k: Seq<char>| x.to_set().contains(k) == y.to_set().contains(k) by {
            if x.to_set().contains(k) {
                let m = choose|m: int| 0 <= m < x.len() && x[m] == k;
                assert(a[m] == k);
                assert(text::before(a[m], a[a.len() - 1]));
                text::before_is_asymmetric(k, a.last());
                assert(a.to_set().contains(k));
                assert(b.to_set().contains(k));
                let n = choose|n: int| 0 <= n < b.len() && b[n] == k;
                assert(y[n] == k);
            }
            if y.to_set().contains(k) {
                let m = choose|m: int| 0 <= m < y.len() && y[m] == k;
                assert(b[m] == k);
                assert(text::before(b[m], b[b.len() - 1]));
                text::before_is_asymmetric(k, b.last());
                assert(b.to_set().contains(k));
                assert(a.to_set().contains(k));
                let n = choose|n: int| 0 <= n < a.len() && a[n] == k;
                assert(x[n] == k);
            }
        }
        assert(x.to_set() =~= y.to_set());
        ascending_is_unique(x, y);
        assert(a =~= x.push(a.last()));
        assert(b =~= y.push(b.last()));
    }
}

/// An ascending sequence is the sorted form of its own set of members.
pub proof fn ascending_is_sorted(s: Seq<Seq<char>>)
    requires
        ascending(s),
    ensures
        sorted(s.to_set()) == s,
{
    ascending_is_unique(s, sorted(s.to_set()));
}

/// An ascending sequence with one more text in its place.
spec fn inserted(s: Seq<Seq<char>>, a: Seq<char>) -> Seq<Seq<char>>
    decreases s.len(),
{
    if s.len() == 0 || text::before(s.last(), a) {
        s.push(a)
    } else {
        inserted(s.drop_last(), a).push(s.last())
    }
}

proof fn inserted_is_ascending(s: Seq<Seq<char>>, a: Seq<char>)
    requires
        ascending(s),
        !s.contains(a),
    ensures
        ascending(inserted(s, a)),
        inserted(s, a).to_set() == s.to_set().insert(a),
    decreases s.len(),
{
    let t = inserted(s, a);
    if s.len() == 0 || text::before(s.last(), a) {
        assert forall|i: int, j: int| #![trigger t[i], t[j]] 0 <= i < j < t.len() implies text::before(
            t[i],
            t[j],
        ) by {
            if j == s.len() && i < s.len() - 1 {
                assert(text::before(s[i], s[s.len() - 1]));
                text::before_is_transitive(s[i], s.last(), a);
            }
        }
    } else {
        let rest = s.drop_last();
        assert forall|i: int, j: int|
            #![trigger rest[i], rest[j]]
            0 <= i < j < rest.len() implies text::before(rest[i], rest[j]) by {
            assert(text::before(s[i], s[j]));
        }
        assert(!rest.contains(a)) by {
            if rest.contains(a) {
                let i = choose|i: int| 0 <= i < rest.len() && rest[i] == a;
                assert(s[i] == a);
            }
        }
        inserted_is_ascending(rest, a);
        let front = inserted(rest, a);
        assert(s[s.len() - 1] == s.last());
        text::before_is_total(a, s.last());
        assert forall|i: int, j: int| #![trigger t[i], t[j]] 0 <= i < j < t.len() implies text::before(
            t[i],
            t[j],
        ) by {
            if j == front.len() {
                assert(front.to_set().contains(front[i]));
                if front[i] != a {
                    assert(rest.contains(front[i]));
                    let n = choose|n: int| 0 <= n < rest.len() && rest[n] == front[i];
                    assert(text::before(s[n], s[s.len() - 1]));
                }
            } else {
                assert(text::before(front[i], front[j]));
            }
        }
    }
    assert forall|k: Seq<char>| t.to_set().contains(k) == s.to_set().insert(a).contains(k) by {
        if s.len() == 0 || text::before(s.last(), a) {
            if t.contains(k) {
                let i = choose|i: int| 0 <= i < t.len() && t[i] == k;
                if i < s.len() {
                    assert(s[i] == k);
                }
            }
            if s.contains(k) {
                let i = choose|i: int| 0 <= i < s.len() && s[i] == k;
                assert(t[i] == k);
            }
            assert(t[s.len() as int] == a);
        } else {
            let rest = s.drop_last();
            let front = inserted(rest, a);
            if t.contains(k) {
                let i = choose|i: int| 0 <= i < t.len() && t[i] == k;
                if i < front.len() {
                    assert(front.to_set().contains(k));
                    if k != a {
                        let n = choose|n: int| 0 <= n < rest.len() && rest[n] == k;
                        assert(s[n] == k);
                    }
                }
            }
            if s.contains(k) || k == a {
                if k == a {
                    assert(front.to_set().contains(k));
                } else {
                    let i = choose|i: int| 0 <= i < s.len() && s[i] == k;
                    if i < rest.len() {
                        assert(rest[i] == k);
                        assert(front.to_set().contains(k));
                    }
                }
                if front.contains(k) {
                    let n = choose|n: int| 0 <= n < front.len() && front[n] == k;
                    assert(t[n] == k);
                } else {
                    assert(t[front.len() as int] == k);
                }
            }
        }
    }
    assert(t.to_set() =~= s.to_set().insert(a));
}

/// Every finite set of texts can be put in order.
pub proof fn finite_is_sorted(keys: Set<Seq<char>>)
    requires
        keys.finite(),
    ensures
        ascending(sorted(keys)),
        sorted(keys).to_set() == keys,
    decreases keys.len(),
{
    if keys.len() == 0 {
        let none = Seq::<Seq<char>>::empty();
        assert(none.to_set() =~= keys);
        assert(ascending(none));
    } else {
        let a = keys.choose();
        finite_is_sorted(keys.remove(a));
        let rest = sorted(keys.remove(a));
        assert(!rest.contains(a)) by {
            if rest.contains(a) {
                assert(rest.to_set().contains(a));
            }
        }
        inserted_is_ascending(rest, a);
        assert(inserted(rest, a).to_set() =~= keys);
    }
}

/// The members of a set in order are each there once.
pub proof fn sorted_has_no_duplicates(keys: Set<Seq<char>>)
    requires
        keys.finite(),
    ensures
        sorted(keys).no_duplicates(),
        sorted(keys).len() == keys.len(),
{
    finite_is_sorted(keys);
    let s = sorted(keys);
    assert forall|i: int, j: int| 0 <= i < s.len() && 0 <= j < s.len() && i != j implies s[i]
        != s[j] by {
        if i < j {
            assert(text::before(s[i], s[j]));
            text::before_is_asymmetric(s[i], s[j]);
        } else {
            assert(text::before(s[j], s[i]));
            text::before_is_asymmetric(s[j], s[i]);
        }
    }
    s.unique_seq_to_set();
}

proof fn positions<V>(entries: Seq<(String, V)>)
    requires
        ascending(keys_of(entries)),
    ensures
        forall|i: int|
            #![trigger entries[i]]
            0 <= i < entries.len() ==> position(entries, entries[i].0@) == i && contents(
                entries,
            ).dom().contains(entries[i].0@) && contents(entries)[entries[i].0@] == entries[i].1,
        contents(entries).dom() == keys_of(entries).to_set(),
        sorted(contents(entries).dom()) == keys_of(entries),
{
    let keys = keys_of(entries);
    assert forall|i: int| #![trigger entries[i]] 0 <= i < entries.len() implies position(
        entries,
        entries[i].0@,
    ) == i && contents(entries).dom().contains(entries[i].0@) && contents(
        entries,
    )[entries[i].0@] == entries[i].1 by {
        let key = entries[i].0@;
        assert(keys[i] == key);
        let p = position(entries, key);
        assert(0 <= p < entries.len() && keys[p] == key);
        if p < i {
            assert(text::before(keys[p], keys[i]));
            text::before_is_irreflexive(key);
        } else if i < p {
            assert(text::before(keys[i], keys[p]));
            text::before_is_irreflexive(key);
        }
        assert(keys.contains(key));
    }
    assert(contents(entries).dom() =~= keys.to_set());
    ascending_is_sorted(keys);
}

impl<V> Table<V> {
    #[verifier::type_invariant]
    spec fn in_order(self) -> bool {
        ascending(keys_of(self.entries@))
    }

    /// The empty table.
    pub fn new() -> (r: Self)
        ensures
            r@ == Map::<Seq<char>, V>::empty(),
    {
        let entries: Vec<(String, V)> = Vec::new();
        proof {
            assert(contents(entries@) =~= Map::<Seq<char>, V>::empty());
        }
        Table { entries }
    }

    /// How many keys there are.
    pub fn len(&self) -> (r: usize)
        ensures
            r == sorted(self@.dom()).len(),
            ascending(sorted(self@.dom())),
            sorted(self@.dom()).to_set() == self@.dom(),
    {
        proof {
            use_type_invariant(self);
            positions(self.entries@);
        }
        self.entries.len()
    }

    /// The entry at position `i` in key order.
    pub fn entry(&self, i: usize) -> (r: (&String, &V))
        requires
            i < sorted(self@.dom()).len(),
        ensures
            r.0@ == sorted(self@.dom())[i as int],
            self@.dom().contains(r.0@),
            *r.1 == self@[r.0@],
    {
        proof {
            use_type_invariant(self);
            positions(self.entries@);
            assert(self.entries@[i as int].0@ == keys_of(self.entries@)[i as int]);
        }
        (&self.entries[i].0, &self.entries[i].1)
    }

    /// Where `key` stands, or where it would have to be put.
    fn find(&self, key: &str) -> (r: (bool, usize))
        ensures
            r.1 <= self.entries@.len(),
            forall|i: int|
                0 <= i < r.1 ==> text::before(#[trigger] keys_of(self.entries@)[i], key@),
            r.0 ==> r.1 < self.entries@.len() && self.entries@[r.1 as int].0@ == key@,
            !r.0 ==> !self@.dom().contains(key@),
            !r.0 ==> forall|i: int|
                r.1 <= i < self.entries@.len() ==> text::before(
                    key@,
                    #[trigger] keys_of(self.entries@)[i],
                ),
    {
        proof {
            use_type_invariant(self);
        }
        let ghost keys = keys_of(self.entries@);
        let mut i: usize = 0;
        while i < self.entries.len() && text::is_before(self.entries[i].0.as_str(), key)
            invariant
                0 <= i <= self.entries@.len(),
                keys == keys_of(self.entries@),
                forall|j: int| 0 <= j < i ==> text::before(#[trigger] keys[j], key@),
            decreases self.entries@.len() - i,
        {
            assert(keys[i as int] == self.entries@[i as int].0@);
            i += 1;
        }
        if i < self.entries.len() && text::same(self.entries[i].0.as_str(), key) {
            return (true, i);
        }
        proof {
            assert forall|j: int| i <= j < keys.len() implies text::before(
                key@,
                #[trigger] keys[j],
            ) by {
                assert(keys[i as int] == self.entries@[i as int].0@);
                text::before_is_total(keys[i as int], key@);
                if i < j {
                    assert(text::before(keys[i as int], keys[j]));
                    text::before_is_transitive(key@, keys[i as int], keys[j]);
                }
            }
            if keys.contains(key@) {
                let j = choose|j: int| 0 <= j < keys.len() && keys[j] == key@;
                text::before_is_irreflexive(key@);
                if j < i {
                    assert(text::before(keys[j], key@));
                } else {
                    assert(text::before(key@, keys[j]));
                }
            }
        }
        (false, i)
    }

    /// The value under `key`.
    pub fn get(&self, key: &str) -> (r: Option<&V>)
        ensures
            r is Some <==> self@.dom().contains(key@),
            r matches Some(v) ==> *v == self@[key@],
    {
        proof {
            use_type_invariant(self);
            positions(self.entries@);
        }
        let (found, i) = self.find(key);
        if found {
            assert(self.entries@[i as int].0@ == key@);
            Some(&self.entries[i].1)
        } else {
            None
        }
    }

    /// Whether `key` is there.
    pub fn contains_key(&self, key: &str) -> (r: bool)
        ensures
            r == self@.dom().contains(key@),
    {
        self.get(key).is_some()
    }

    /// Puts `value` under `key`, in place of what stood there.
    pub fn insert(&mut self, key: String, value: V)
        ensures
            final(self)@ == old(self)@.insert(key@, value),
    {
        proof {
            use_type_invariant(&*self);
            positions(self.entries@);
        }
        let (found, i) = self.find(key.as_str());
        let mut entries: Vec<(String, V)> = Vec::new();
        let ghost before_keys = keys_of(self.entries@);
        let ghost start = self.entries@;
        std::mem::swap(&mut entries, &mut self.entries);
        let ghost k = key@;
        let ghost v = value;
        if found {
            entries.set(i, (key, value));
            proof {
                assert(keys_of(entries@) =~= before_keys);
                positions(entries@);
                assert(entries@[i as int].0@ == k);
                assert forall|q: Seq<char>| contents(start).dom().contains(q) && q != k implies contents(
                    entries@,
                )[q] == contents(start)[q] by {
                    let n = choose|n: int| 0 <= n < start.len() && keys_of(start)[n] == q;
                    assert(start[n].0@ == q);
                    assert(entries@[n] == start[n]);
                }
                assert(start[i as int].0@ == k);
                assert(contents(entries@) =~= contents(start).insert(k, v));
            }
        } else {
            entries.insert(i, (key, value));
            proof {
                let keys = keys_of(entries@);
                assert(keys =~= before_keys.insert(i as int, k));
                assert forall|a: int, b: int|
                    #![trigger keys[a], keys[b]]
                    0 <= a < b < keys.len() implies text::before(keys[a], keys[b]) by {
                    let x = if a < i { a } else { a - 1 };
                    let y = if b < i { b } else { b - 1 };
                    if a != i && b != i {
                        assert(keys[a] == before_keys[x] && keys[b] == before_keys[y]);
                        assert(text::before(before_keys[x], before_keys[y]));
                    } else if a == i {
                        assert(keys[b] == before_keys[y]);
                    } else {
                        assert(keys[a] == before_keys[x]);
                    }
                }
                positions(entries@);
                assert(entries@[i as int].0@ == k);
                assert forall|q: Seq<char>| contents(start).dom().contains(q) implies contents(
                    entries@,
                ).dom().contains(q) && contents(entries@)[q] == contents(start)[q] by {
                    let n = choose|n: int| 0 <= n < start.len() && keys_of(start)[n] == q;
                    assert(start[n].0@ == q);
                    let m = if n < i { n } else { n + 1 };
                    assert(entries@[m] == start[n]);
                }
                assert forall|q: Seq<char>| contents(entries@).dom().contains(q) && q != k implies contents(
                    start,
                ).dom().contains(q) by {
                    let n = choose|n: int| 0 <= n < entries@.len() && keys_of(entries@)[n] == q;
                    assert(entries@[n].0@ == q);
                    let m = if n < i { n } else { n - 1 };
                    assert(start[m] == entries@[n]);
                }
                assert(contents(entries@) =~= contents(start).insert(k, v));
            }
        }
        self.entries = entries;
    }

    /// Takes `key` out and hands back what stood under it.
    pub fn remove(&mut self, key: &str) -> (r: Option<V>)
        ensures
            final(self)@ == old(self)@.remove(key@),
            r is Some <==> old(self)@.dom().contains(key@),
            r matches Some(v) ==> v == old(self)@[key@],
    {
        proof {
            use_type_invariant(&*self);
            positions(self.entries@);
        }
        let (found, i) = self.find(key);
        if !found {
            assert(self@ =~= self@.remove(key@));
            return None;
        }
        let mut entries: Vec<(String, V)> = Vec::new();
        let ghost start = self.entries@;
        let ghost before_keys = keys_of(start);
        std::mem::swap(&mut entries, &mut self.entries);
        let taken: (String, V) = entries.remove(i);
        proof {
            let keys = keys_of(entries@);
            assert(keys =~= before_keys.remove(i as int));
            assert forall|a: int, b: int|
                #![trigger keys[a], keys[b]]
                0 <= a < b < keys.len() implies text::before(keys[a], keys[b]) by {
                let x = if a < i { a } else { a + 1 };
                let y = if b < i { b } else { b + 1 };
                assert(keys[a] == before_keys[x] && keys[b] == before_keys[y]);
                assert(text::before(before_keys[x], before_keys[y]));
            }
            positions(entries@);
            assert(start[i as int].0@ == key@);
            assert forall|q: Seq<char>| contents(entries@).dom().contains(q) implies q != key@
                && contents(start).dom().contains(q) && contents(entries@)[q] == contents(
                start,
            )[q] by {
                let n = choose|n: int| 0 <= n < entries@.len() && keys_of(entries@)[n] == q;
                assert(entries@[n].0@ == q);
                let m = if n < i { n } else { n + 1 };
                assert(start[m] == entries@[n]);
                assert(before_keys[m] == q);
                assert(before_keys[i as int] == key@);
                if m < i {
                    assert(text::before(before_keys[m], before_keys[i as int]));
                    text::before_is_asymmetric(before_keys[m], before_keys[i as int]);
                } else {
                    assert(text::before(before_keys[i as int], before_keys[m]));
                    text::before_is_asymmetric(before_keys[i as int], before_keys[m]);
                }
            }
            assert forall|q: Seq<char>| contents(start).dom().contains(q) && q != key@ implies contents(
                entries@,
            ).dom().contains(q) by {
                let n = choose|n: int| 0 <= n < start.len() && keys_of(start)[n] == q;
                assert(start[n].0@ == q);
                assert(n != i);
                let m = if n < i { n } else { n - 1 };
                assert(entries@[m] == start[n]);
            }
            assert(contents(entries@) =~= contents(start).remove(key@));
        }
        self.entries = entries;
        Some(taken.1)
    }

    /// Replaces the value at position `i` in key order.
    pub fn replace(&mut self, i: usize, value: V)
        requires
            i < sorted(old(self)@.dom()).len(),
        ensures
            final(self)@ == old(self)@.insert(sorted(old(self)@.dom())[i as int], value),
            final(self)@.dom() == old(self)@.dom(),
    {
        proof {
            use_type_invariant(&*self);
            positions(self.entries@);
            assert(keys_of(self.entries@)[i as int] == self.entries@[i as int].0@);
        }
        let key: String = self.entries[i].0.clone();
        self.insert(key, value);
        proof {
            assert(self@.dom() =~= old(self)@.dom());
        }
    }
}

/// One more item of a sequence is one more member of its set.
pub proof fn set_grows(all: Seq<Seq<char>>, i: int)
    requires
        0 <= i < all.len(),
    ensures
        all.take(i + 1).to_set() == all.take(i).to_set().insert(all[i]),
{
    let now = all.take(i + 1);
    let before = all.take(i);
    assert forall|q: Seq<char>| now.to_set().contains(q) == before.to_set().insert(
        all[i],
    ).contains(q) by {
        if now.contains(q) {
            let j = choose|j: int| 0 <= j < now.len() && now[j] == q;
            if j < i {
                assert(before[j] == q);
            }
        }
        if before.contains(q) {
            let j = choose|j: int| 0 <= j < before.len() && before[j] == q;
            assert(now[j] == q);
        }
        assert(now[i] == all[i]);
    }
    assert(now.to_set() =~= before.to_set().insert(all[i]));
}

impl Table<()> {
    /// Adds every item.
    pub fn add_all(&mut self, items: &Vec<String>)
        ensures
            final(self)@.dom() == old(self)@.dom().union(items.deep_view().to_set()),
    {
        let ghost start = self@.dom();
        let ghost all = items.deep_view();
        let mut i: usize = 0;
        proof {
            assert(all.take(0).to_set() =~= Set::<Seq<char>>::empty());
            assert(self@.dom() =~= start.union(all.take(0).to_set()));
        }
        while i < items.len()
            invariant
                i <= items@.len(),
                all == items.deep_view(),
                self@.dom() == start.union(all.take(i as int).to_set()),
            decreases items@.len() - i,
        {
            self.insert(items[i].clone(), ());
            proof {
                set_grows(all, i as int);
                assert(all[i as int] == items@[i as int]@);
                assert(self@.dom() =~= start.union(all.take(i + 1).to_set()));
            }
            i += 1;
        }
        proof {
            assert(all.take(i as int) =~= all);
        }
    }
}

impl<V> Table<V> {
    /// The keys in order.
    pub fn keys(&self) -> (r: Vec<String>)
        ensures
            r.deep_view() == sorted(self@.dom()),
            ascending(r.deep_view()),
            r.deep_view().to_set() == self@.dom(),
    {
        let ghost all = sorted(self@.dom());
        let mut out: Vec<String> = Vec::new();
        let n: usize = self.len();
        let mut i: usize = 0;
        while i < n
            invariant
                i <= n,
                n == sorted(self@.dom()).len(),
                all == sorted(self@.dom()),
                out@.len() == i,
                forall|j: int| 0 <= j < i ==> (#[trigger] out@[j])@ == all[j],
            decreases n - i,
        {
            let (key, _) = self.entry(i);
            out.push(key.clone());
            i += 1;
        }
        proof {
            assert(out.deep_view() =~= all);
            use_type_invariant(self);
            positions(self.entries@);
        }
        out
    }
}

impl Table<String> {
    /// A table with the same entries.
    pub fn copy(&self) -> (r: Self)
        ensures
            r@ == self@,
    {
        let keys: Vec<String> = self.keys();
        let ghost all = keys.deep_view();
        let mut out: Table<String> = Table::new();
        let mut i: usize = 0;
        proof {
            assert(self@.restrict(all.take(0).to_set()) =~= Map::<Seq<char>, String>::empty());
        }
        while i < keys.len()
            invariant
                i <= keys@.len(),
                all == keys.deep_view(),
                all.to_set() == self@.dom(),
                out@ == self@.restrict(all.take(i as int).to_set()),
            decreases keys@.len() - i,
        {
            let ghost k = keys@[i as int]@;
            proof {
                assert(all[i as int] == k);
                assert(all.to_set().contains(k));
            }
            if let Some(v) = self.get(keys[i].as_str()) {
                out.insert(keys[i].clone(), v.clone());
            }
            proof {
                set_grows(all, i as int);
                assert(self@.restrict(all.take(i as int).to_set()).insert(k, self@[k])
                    =~= self@.restrict(all.take(i + 1).to_set()));
            }
            i += 1;
        }
        proof {
            assert(all.take(i as int) =~= all);
            assert(self@.restrict(all.to_set()) =~= self@);
        }
        out
    }
}

} // verus!
