//! Paths in order: the lexicographic order of strings, and maps and sets whose
//! keys are kept in it.

use crate::text;
use vstd::prelude::*;

verus! {

broadcast use vstd::seq::group_seq_axioms;

/// Whether `a` comes strictly before `b`: at the first place where they differ,
/// `a` has ended or holds the smaller code point.
pub open spec fn before(a: Seq<char>, b: Seq<char>) -> bool
    decreases a.len(),
{
    if b.len() == 0 {
        false
    } else if a.len() == 0 {
        true
    } else if a[0] == b[0] {
        before(a.skip(1), b.skip(1))
    } else {
        (a[0] as int) < (b[0] as int)
    }
}

/// No string comes before itself.
pub proof fn before_irreflexive(a: Seq<char>)
    ensures
        !before(a, a),
    decreases a.len(),
{
    if a.len() > 0 {
        before_irreflexive(a.skip(1));
    }
}

/// The order is transitive.
pub proof fn before_transitive(a: Seq<char>, b: Seq<char>, c: Seq<char>)
    requires
        before(a, b),
        before(b, c),
    ensures
        before(a, c),
    decreases a.len(),
{
    if a.len() > 0 && b.len() > 0 && c.len() > 0 && a[0] == b[0] && b[0] == c[0] {
        before_transitive(a.skip(1), b.skip(1), c.skip(1));
    }
}

/// Of two different strings one comes before the other.
pub proof fn before_total(a: Seq<char>, b: Seq<char>)
    ensures
        a == b || before(a, b) || before(b, a),
    decreases a.len(),
{
    if a.len() == 0 && b.len() == 0 {
        assert(a =~= b);
    } else if a.len() > 0 && b.len() > 0 {
        if a[0] == b[0] {
            before_total(a.skip(1), b.skip(1));
            if a.skip(1) == b.skip(1) {
                assert(a =~= seq![a[0]] + a.skip(1));
                assert(b =~= seq![b[0]] + b.skip(1));
            }
        } else {
            assert(a[0] as int != b[0] as int);
        }
    }
}

/// A string comes before every proper extension of itself.
pub proof fn before_extension(a: Seq<char>, suffix: Seq<char>)
    requires
        suffix.len() > 0,
    ensures
        before(a, a + suffix),
    decreases a.len(),
{
    if a.len() > 0 {
        before_extension(a.skip(1), suffix);
        assert((a + suffix).skip(1) =~= a.skip(1) + suffix);
    }
}

/// Whether `a` comes strictly before `b`.
pub fn precedes(a: &str, b: &str) -> (out: bool)
    ensures
        out == before(a@, b@),
{
    let left = text::chars_of(a);
    let right = text::chars_of(b);
    let mut i: usize = 0;
    assert(left@.skip(0) =~= a@);
    assert(right@.skip(0) =~= b@);
    while i < left.len() && i < right.len() && left[i] == right[i]
        invariant
            i <= left@.len(),
            i <= right@.len(),
            before(left@.skip(i as int), right@.skip(i as int)) == before(a@, b@),
        decreases left.len() - i,
    {
        assert(left@.skip(i as int).skip(1) =~= left@.skip(i + 1));
        assert(right@.skip(i as int).skip(1) =~= right@.skip(i + 1));
        i += 1;
    }
    if i >= right.len() {
        false
    } else if i >= left.len() {
        true
    } else {
        text::code(left[i]) < text::code(right[i])
    }
}

/// Whether strings stand in strictly ascending order.
pub open spec fn ascending(keys: Seq<Seq<char>>) -> bool {
    forall|i: int, j: int| 0 <= i < j < keys.len() ==> before(#[trigger] keys[i], #[trigger] keys[j])
}

/// The strings of an ascending sequence differ from one another.
pub proof fn ascending_distinct(keys: Seq<Seq<char>>, i: int, j: int)
    requires
        ascending(keys),
        0 <= i < keys.len(),
        0 <= j < keys.len(),
        keys[i] == keys[j],
    ensures
        i == j,
{
    before_irreflexive(keys[i]);
}

/// An ascending sequence is determined by what it holds.
pub proof fn ascending_unique(a: Seq<Seq<char>>, b: Seq<Seq<char>>)
    requires
        ascending(a),
        ascending(b),
        forall|k: Seq<char>| a.contains(k) <==> b.contains(k),
    ensures
        a == b,
    decreases a.len(),
{
    if a.len() == 0 {
        if b.len() > 0 {
            assert(b.contains(b[0]));
            assert(a.contains(b[0]));
        }
        assert(a =~= b);
    } else {
        assert(a.contains(a.last()));
        assert(b.contains(a.last()));
        assert(b.len() > 0);
        assert(b.contains(b.last()));
        assert(a.contains(b.last()));
        let i = choose|i: int| 0 <= i < a.len() && a[i] == b.last();
        let j = choose|j: int| 0 <= j < b.len() && b[j] == a.last();
        if i < a.len() - 1 && j < b.len() - 1 {
            before_transitive(a.last(), b.last(), a.last());
            before_irreflexive(a.last());
        }
        assert(a.last() == b.last());
        let a1 = a.drop_last();
        let b1 = b.drop_last();
        assert forall|k: Seq<char>| a1.contains(k) <==> b1.contains(k) by {
            if a1.contains(k) {
                let m = choose|m: int| 0 <= m < a1.len() && a1[m] == k;
                assert(a[m] == k);
                assert(a.contains(k));
                let n = choose|n: int| 0 <= n < b.len() && b[n] == k;
                if n == b.len() - 1 {
                    before_irreflexive(k);
                }
                assert(b1[n] == k);
            }
            if b1.contains(k) {
                let m = choose|m: int| 0 <= m < b1.len() && b1[m] == k;
                assert(b[m] == k);
                assert(b.contains(k));
                let n = choose|n: int| 0 <= n < a.len() && a[n] == k;
                if n == a.len() - 1 {
                    before_irreflexive(k);
                }
                assert(a1[n] == k);
            }
        }
        ascending_unique(a1, b1);
        assert(a =~= a1.push(a.last()));
        assert(b =~= b1.push(b.last()));
    }
}

/// The paths of a map, in ascending order.
pub open spec fn keys_of<T>(m: Map<Seq<char>, T>) -> Seq<Seq<char>> {
    choose|keys: Seq<Seq<char>>|
        ascending(keys) && forall|k: Seq<char>| #[trigger] keys.contains(k) <==> m.contains_key(k)
}

/// The paths of a set, in ascending order.
pub open spec fn listed(s: Set<Seq<char>>) -> Seq<Seq<char>> {
    choose|keys: Seq<Seq<char>>|
        ascending(keys) && forall|k: Seq<char>| #[trigger] keys.contains(k) <==> s.contains(k)
}

proof fn placed_in_order(keys: Seq<Seq<char>>, key: Seq<char>) -> (out: Seq<Seq<char>>)
    requires
        ascending(keys),
        !keys.contains(key),
    ensures
        ascending(out),
        forall|k: Seq<char>| #[trigger] out.contains(k) <==> keys.contains(k) || k == key,
    decreases keys.len(),
{
    if keys.len() == 0 {
        let out = seq![key];
        assert forall|k: Seq<char>| #[trigger] out.contains(k) <==> keys.contains(k) || k == key by {
            assert(out[0] == key);
        }
        out
    } else if before(keys.last(), key) {
        let out = keys.push(key);
        assert forall|i: int, j: int| 0 <= i < j < out.len() implies before(
            #[trigger] out[i],
            #[trigger] out[j],
        ) by {
            if j == keys.len() && i < keys.len() - 1 {
                assert(before(keys[i], keys[keys.len() - 1]));
                before_transitive(keys[i], keys.last(), key);
            }
        }
        assert forall|k: Seq<char>| #[trigger] out.contains(k) <==> keys.contains(k) || k == key by {
            assert(out[keys.len() as int] == key);
            if keys.contains(k) {
                let m = choose|m: int| 0 <= m < keys.len() && keys[m] == k;
                assert(out[m] == k);
            }
        }
        out
    } else {
        let fewer = keys.drop_last();
        let last = keys.last();
        assert(keys.contains(last)) by {
            assert(keys[keys.len() - 1] == last);
        }
        before_total(last, key);
        assert forall|k: Seq<char>| fewer.contains(k) implies keys.contains(k) by {
            let m = choose|m: int| 0 <= m < fewer.len() && fewer[m] == k;
            assert(keys[m] == k);
        }
        let placed = placed_in_order(fewer, key);
        let out = placed.push(last);
        assert forall|i: int, j: int| 0 <= i < j < out.len() implies before(
            #[trigger] out[i],
            #[trigger] out[j],
        ) by {
            if j == placed.len() {
                assert(placed.contains(placed[i]));
                if placed[i] != key {
                    let m = choose|m: int| 0 <= m < fewer.len() && fewer[m] == placed[i];
                    assert(before(keys[m], keys[keys.len() - 1]));
                }
            }
        }
        assert forall|k: Seq<char>| #[trigger] out.contains(k) <==> keys.contains(k) || k == key by {
            assert(out[placed.len() as int] == last);
            if placed.contains(k) {
                let m = choose|m: int| 0 <= m < placed.len() && placed[m] == k;
                assert(out[m] == k);
            }
            if keys.contains(k) && k != last {
                let m = choose|m: int| 0 <= m < keys.len() && keys[m] == k;
                assert(fewer[m] == k);
                assert(fewer.contains(k));
            }
            if out.contains(k) && k != last {
                let m = choose|m: int| 0 <= m < out.len() && out[m] == k;
                assert(placed[m] == k);
                assert(placed.contains(k));
            }
        }
        out
    }
}

proof fn ascending_of(s: Set<Seq<char>>) -> (out: Seq<Seq<char>>)
    requires
        s.finite(),
    ensures
        ascending(out),
        forall|k: Seq<char>| #[trigger] out.contains(k) <==> s.contains(k),
    decreases s.len(),
{
    if s.len() == 0 {
        let out = Seq::<Seq<char>>::empty();
        assert(s =~= Set::empty());
        out
    } else {
        let key = s.choose();
        let rest = ascending_of(s.remove(key));
        assert(!rest.contains(key));
        placed_in_order(rest, key)
    }
}

/// The paths of a finite map are in ascending order and are all of them.
pub proof fn keys_of_is_sound<T>(m: Map<Seq<char>, T>)
    requires
        m.dom().finite(),
    ensures
        ascending(keys_of(m)),
        forall|k: Seq<char>| #[trigger] keys_of(m).contains(k) <==> m.contains_key(k),
{
    let keys = ascending_of(m.dom());
    assert forall|k: Seq<char>| #[trigger] keys.contains(k) <==> m.contains_key(k) by {
        assert(m.dom().contains(k) <==> m.contains_key(k));
    }
    assert(ascending(keys) && forall|k: Seq<char>| #[trigger]
        keys.contains(k) <==> m.contains_key(k));
}

/// The paths of a finite set, in order, are its members.
pub proof fn listed_is_sound(s: Set<Seq<char>>)
    requires
        s.finite(),
    ensures
        ascending(listed(s)),
        forall|k: Seq<char>| #[trigger] listed(s).contains(k) <==> s.contains(k),
{
    let keys = ascending_of(s);
    assert(ascending(keys) && forall|k: Seq<char>| #[trigger]
        keys.contains(k) <==> s.contains(k));
}

/// A map from paths to values, its paths in ascending order.
#[derive(Debug)]
pub struct PathMap<T> {
    names: Vec<String>,
    values: Vec<T>,
}

impl<T> View for PathMap<T> {
    type V = Map<Seq<char>, T>;

    closed spec fn view(&self) -> Map<Seq<char>, T> {
        Map::new(
            |k: Seq<char>| self.keys().contains(k),
            |k: Seq<char>| self.values@[self.keys().index_of(k)],
        )
    }
}

impl<T> PathMap<T> {
    /// The paths of the map, in order.
    pub closed spec fn keys(&self) -> Seq<Seq<char>> {
        text::views(self.names@)
    }

    /// The values of the map, in the order of their paths.
    pub closed spec fn items(&self) -> Seq<T> {
        self.values@
    }

    /// The map is in order and complete.
    pub closed spec fn wf(&self) -> bool {
        &&& self.names@.len() == self.values@.len()
        &&& ascending(self.keys())
    }

    /// What `wf` says of the paths, the values and the view.
    pub proof fn facts(&self)
        requires
            self.wf(),
        ensures
            ascending(self.keys()),
            self.keys().len() == self.items().len(),
            forall|k: Seq<char>| #[trigger] self@.contains_key(k) <==> self.keys().contains(k),
            forall|i: int|
                0 <= i < self.keys().len() ==> self@.contains_key(#[trigger] self.keys()[i])
                    && self@[self.keys()[i]] == self.items()[i],
            self@.dom().finite(),
            self.keys() == keys_of(self@),
    {
        assert forall|i: int| 0 <= i < self.keys().len() implies self@.contains_key(
            #[trigger] self.keys()[i],
        ) && self@[self.keys()[i]] == self.items()[i] by {
            let k = self.keys()[i];
            assert(self.keys().contains(k));
            ascending_distinct(self.keys(), i, self.keys().index_of(k));
        }
        assert(self@.dom() =~= self.keys().to_set());
        vstd::seq_lib::seq_to_set_is_finite(self.keys());
        assert(ascending(self.keys()) && forall|k: Seq<char>| #[trigger]
            self.keys().contains(k) <==> self@.contains_key(k));
        ascending_unique(self.keys(), keys_of(self@));
    }

    /// The empty map.
    pub fn new() -> (out: Self)
        ensures
            out.wf(),
            out@ == Map::<Seq<char>, T>::empty(),
            out.keys() == Seq::<Seq<char>>::empty(),
    {
        let out = PathMap { names: Vec::new(), values: Vec::new() };
        assert(out.keys() =~= Seq::<Seq<char>>::empty());
        assert(out@ =~= Map::<Seq<char>, T>::empty());
        out
    }

    /// How many paths the map holds.
    pub fn len(&self) -> (out: usize)
        requires
            self.wf(),
        ensures
            out == self.keys().len(),
            out == self.items().len(),
    {
        self.names.len()
    }

    /// The path at a position.
    pub fn key(&self, i: usize) -> (out: &String)
        requires
            self.wf(),
            i < self.keys().len(),
        ensures
            out@ == self.keys()[i as int],
    {
        &self.names[i]
    }

    /// The value at a position.
    pub fn item(&self, i: usize) -> (out: &T)
        requires
            self.wf(),
            i < self.keys().len(),
        ensures
            *out == self.items()[i as int],
    {
        &self.values[i]
    }

    /// How many paths come before `key`.
    fn position(&self, key: &str) -> (out: usize)
        requires
            self.wf(),
        ensures
            out <= self.keys().len(),
            forall|i: int| 0 <= i < out ==> before(#[trigger] self.keys()[i], key@),
            forall|i: int|
                out <= i < self.keys().len() ==> !before(#[trigger] self.keys()[i], key@),
    {
        let mut low: usize = 0;
        let mut high: usize = self.names.len();
        while low < high
            invariant
                self.wf(),
                low <= high <= self.keys().len(),
                forall|j: int| 0 <= j < low ==> before(#[trigger] self.keys()[j], key@),
                forall|j: int|
                    high <= j < self.keys().len() ==> !before(#[trigger] self.keys()[j], key@),
            decreases high - low,
        {
            let middle: usize = low + (high - low) / 2;
            assert(self.keys()[middle as int] == self.names@[middle as int]@);
            if precedes(&self.names[middle], key) {
                proof {
                    assert forall|j: int| 0 <= j < middle implies before(
                        #[trigger] self.keys()[j],
                        key@,
                    ) by {
                        before_transitive(self.keys()[j], self.keys()[middle as int], key@);
                    }
                }
                low = middle + 1;
            } else {
                proof {
                    assert forall|j: int| middle < j < self.keys().len() implies !before(
                        #[trigger] self.keys()[j],
                        key@,
                    ) by {
                        if before(self.keys()[j], key@) {
                            before_transitive(self.keys()[middle as int], self.keys()[j], key@);
                        }
                    }
                }
                high = middle;
            }
        }
        low
    }

    /// Where `key` stands, if the map holds it.
    fn find(&self, key: &str) -> (out: Option<usize>)
        requires
            self.wf(),
        ensures
            match out {
                Some(i) => i < self.keys().len() && self.keys()[i as int] == key@,
                None => !self.keys().contains(key@),
            },
    {
        let i: usize = self.position(key);
        if i < self.names.len() && text::same(&self.names[i], key) {
            assert(self.keys()[i as int] == self.names@[i as int]@);
            Some(i)
        } else {
            proof {
                assert forall|j: int| 0 <= j < self.keys().len() implies self.keys()[j]
                    != key@ by {
                    before_irreflexive(key@);
                    if i < j {
                        assert(self.keys()[i as int] == self.names@[i as int]@);
                        before_total(self.keys()[i as int], key@);
                        assert(before(self.keys()[i as int], self.keys()[j]));
                    } else if i == j {
                        assert(self.keys()[i as int] == self.names@[i as int]@);
                    }
                }
            }
            None
        }
    }

    /// The value of a path.
    pub fn get(&self, key: &str) -> (out: Option<&T>)
        requires
            self.wf(),
        ensures
            match out {
                Some(value) => self@.contains_key(key@) && *value == self@[key@],
                None => !self@.contains_key(key@),
            },
    {
        proof {
            self.facts();
        }
        match self.find(key) {
            Some(i) => Some(&self.values[i]),
            None => None,
        }
    }

    /// Whether the map holds a path.
    pub fn contains(&self, key: &str) -> (out: bool)
        requires
            self.wf(),
        ensures
            out == self@.contains_key(key@),
    {
        proof {
            self.facts();
        }
        match self.find(key) {
            Some(i) => true,
            None => false,
        }
    }

    /// Sets the value of a path.
    pub fn insert(&mut self, key: String, value: T)
        requires
            old(self).wf(),
        ensures
            final(self).wf(),
            final(self)@ == old(self)@.insert(key@, value),
    {
        proof {
            self.facts();
        }
        let i: usize = self.position(&key);
        let ghost keys = self.keys();
        let ghost items = self.items();
        if i < self.names.len() && text::same(&self.names[i], &key) {
            assert(keys[i as int] == self.names@[i as int]@);
            self.values.set(i, value);
            assert(self.keys() == keys);
            proof {
                self.facts();
                assert forall|k: Seq<char>| #![auto] self@.contains_key(k) implies self@[k]
                    == old(self)@.insert(key@, value)[k] by {
                    let j = choose|j: int| 0 <= j < keys.len() && keys[j] == k;
                    if j == i {
                    } else {
                        if k == key@ {
                            ascending_distinct(keys, i as int, j);
                        }
                        assert(self.items()[j] == items[j]);
                        assert(self@[self.keys()[j]] == self.items()[j]);
                        assert(old(self)@[keys[j]] == items[j]);
                    }
                }
                assert(keys.contains(key@));
                assert(self@ =~= old(self)@.insert(key@, value));
            }
        } else {
            let ghost name = key@;
            self.names.insert(i, key);
            self.values.insert(i, value);
            proof {
                assert(self.keys() =~= keys.insert(i as int, name));
                assert(self.items() =~= items.insert(i as int, value));
                assert forall|a: int, b: int| 0 <= a < b < self.keys().len() implies before(
                    #[trigger] self.keys()[a],
                    #[trigger] self.keys()[b],
                ) by {
                    if a < i && b > i {
                        assert(before(keys[a], keys[b - 1]));
                    } else if a > i {
                        assert(before(keys[a - 1], keys[b - 1]));
                    } else if b < i {
                        assert(before(keys[a], keys[b]));
                    } else if a == i {
                        assert(!before(keys[b - 1], name));
                        assert(!before(keys[i as int], name));
                        assert(old(self).names@[i as int]@ == keys[i as int]);
                        before_total(keys[i as int], name);
                        if b - 1 > i {
                            before_transitive(name, keys[i as int], keys[b - 1]);
                        }
                    }
                }
                self.facts();
                assert forall|k: Seq<char>| #![auto] self@.contains_key(k) <==> old(
                    self,
                )@.insert(name, value).contains_key(k) by {
                    if self.keys().contains(k) {
                        let j = choose|j: int| 0 <= j < self.keys().len() && self.keys()[j] == k;
                        if j < i {
                            assert(keys[j] == k);
                        } else if j > i {
                            assert(keys[j - 1] == k);
                        }
                    }
                    if keys.contains(k) {
                        let j = choose|j: int| 0 <= j < keys.len() && keys[j] == k;
                        if j < i {
                            assert(self.keys()[j] == k);
                        } else {
                            assert(self.keys()[j + 1] == k);
                        }
                    }
                    assert(self.keys()[i as int] == name);
                }
                assert forall|k: Seq<char>| #![auto] self@.contains_key(k) implies self@[k] == old(
                    self,
                )@.insert(name, value)[k] by {
                    let j = choose|j: int| 0 <= j < self.keys().len() && self.keys()[j] == k;
                    assert(self@[self.keys()[j]] == self.items()[j]);
                    if j < i {
                        assert(keys[j] == k);
                        ascending_distinct_from(self.keys(), j, i as int);
                    } else if j > i {
                        assert(keys[j - 1] == k);
                        ascending_distinct_from(self.keys(), i as int, j);
                    }
                }
                assert(self@ =~= old(self)@.insert(name, value));
            }
        }
    }
}

proof fn ascending_distinct_from(keys: Seq<Seq<char>>, i: int, j: int)
    requires
        ascending(keys),
        0 <= i < j < keys.len(),
    ensures
        keys[i] != keys[j],
{
    before_irreflexive(keys[i]);
}

/// A set of paths, in ascending order.
#[derive(Debug)]
pub struct PathSet {
    paths: PathMap<()>,
}

impl View for PathSet {
    type V = Set<Seq<char>>;

    closed spec fn view(&self) -> Set<Seq<char>> {
        self.paths@.dom()
    }
}

impl PathSet {
    /// The paths of the set, in order.
    pub closed spec fn keys(&self) -> Seq<Seq<char>> {
        self.paths.keys()
    }

    /// The set is in order.
    pub closed spec fn wf(&self) -> bool {
        self.paths.wf()
    }

    /// What `wf` says of the paths and the view.
    pub proof fn facts(&self)
        requires
            self.wf(),
        ensures
            ascending(self.keys()),
            forall|k: Seq<char>| #[trigger] self@.contains(k) <==> self.keys().contains(k),
            self@.finite(),
            self@.len() == self.keys().len(),
    {
        self.paths.facts();
        let keys = self.keys();
        assert forall|i: int, j: int| 0 <= i < keys.len() && 0 <= j < keys.len() && i
            != j implies keys[i] != keys[j] by {
            if i < j {
                ascending_distinct_from(keys, i, j);
            } else {
                ascending_distinct_from(keys, j, i);
            }
        }
        keys.unique_seq_to_set();
        assert(self@ =~= keys.to_set());
    }

    /// The paths of a set that is in order are those of its view, in order.
    pub proof fn keys_are_listed(&self)
        requires
            self.wf(),
        ensures
            self.keys() == listed(self@),
    {
        self.facts();
        let keys = self.keys();
        assert(ascending(keys) && forall|k: Seq<char>| #[trigger]
            keys.contains(k) <==> self@.contains(k));
        ascending_unique(keys, listed(self@));
    }

    /// The empty set.
    pub fn new() -> (out: Self)
        ensures
            out.wf(),
            out@ == Set::<Seq<char>>::empty(),
            out.keys() == Seq::<Seq<char>>::empty(),
    {
        let out = PathSet { paths: PathMap::new() };
        assert(out@ =~= Set::<Seq<char>>::empty());
        out
    }

    /// How many paths the set holds.
    pub fn len(&self) -> (out: usize)
        requires
            self.wf(),
        ensures
            out == self.keys().len(),
    {
        self.paths.len()
    }

    /// The path at a position.
    pub fn key(&self, i: usize) -> (out: &String)
        requires
            self.wf(),
            i < self.keys().len(),
        ensures
            out@ == self.keys()[i as int],
    {
        self.paths.key(i)
    }

    /// Whether the set holds a path.
    pub fn contains(&self, key: &str) -> (out: bool)
        requires
            self.wf(),
        ensures
            out == self@.contains(key@),
    {
        self.paths.contains(key)
    }

    /// Adds a path to the set.
    pub fn insert(&mut self, key: String)
        requires
            old(self).wf(),
        ensures
            final(self).wf(),
            final(self)@ == old(self)@.insert(key@),
    {
        self.paths.insert(key, ());
        assert(self@ =~= old(self)@.insert(key@));
    }
}

/// Of two strings that agree up to a place, the one with the smaller code point
/// there comes before the other.
pub proof fn first_difference_decides(a: Seq<char>, b: Seq<char>, at: int)
    requires
        0 <= at < a.len(),
        at < b.len(),
        forall|i: int| 0 <= i < at ==> a[i] == b[i],
    ensures
        (a[at] as int) < (b[at] as int) ==> before(a, b) && !before(b, a),
    decreases at,
{
    if at > 0 {
        let x = a.skip(1);
        let y = b.skip(1);
        assert(a[0] == b[0]);
        assert forall|i: int| 0 <= i < at - 1 implies x[i] == y[i] by {
            assert(a[i + 1] == b[i + 1]);
        }
        first_difference_decides(x, y, at - 1);
    }
}

} // verus!
