//! Maps from strings to values, kept in the order of their keys.

use vstd::prelude::*;
use vstd::utf8::encode_utf8;

verus! {

/// `a` and `b` agree on their first `k` bytes, and right after those `a` ends or holds the smaller
/// byte.
pub open spec fn parts_at(a: Seq<u8>, b: Seq<u8>, k: int) -> bool {
    &&& 0 <= k <= a.len()
    &&& k < b.len()
    &&& forall|i: int| #![trigger a[i]] #![trigger b[i]] 0 <= i < k ==> a[i] == b[i]
    &&& k == a.len() || a[k] < b[k]
}

/// `a` comes strictly before `b` in the order of strings, which goes by their bytes.
pub open spec fn string_before(a: Seq<char>, b: Seq<char>) -> bool {
    exists|k: int| parts_at(encode_utf8(a), encode_utf8(b), k)
}

/// Strings go by their bytes: where two strings agree on some first bytes, the one that has the
/// smaller byte behind those comes first, and so does the one that ends there.
pub proof fn lemma_strings_go_by_their_bytes(a: Seq<char>, b: Seq<char>, k: int)
    requires
        0 <= k <= encode_utf8(a).len(),
        k < encode_utf8(b).len(),
        encode_utf8(a).take(k) == encode_utf8(b).take(k),
    ensures
        k == encode_utf8(a).len() ==> string_before(a, b),
        k < encode_utf8(a).len() && encode_utf8(a)[k] < encode_utf8(b)[k] ==> string_before(a, b),
        k < encode_utf8(a).len() && encode_utf8(b)[k] < encode_utf8(a)[k] ==> string_before(b, a),
{
    let (x, y) = (encode_utf8(a), encode_utf8(b));
    assert forall|i: int| 0 <= i < k implies x[i] == y[i] by {
        assert(x.take(k)[i] == y.take(k)[i]);
    }
    if k == x.len() || x[k] < y[k] {
        assert(parts_at(x, y, k));
    } else if y[k] < x[k] {
        assert(parts_at(y, x, k));
    }
}

/// No string comes before itself.
pub proof fn lemma_before_irreflexive(a: Seq<char>)
    ensures
        !string_before(a, a),
{
}

/// The order of strings is transitive.
pub proof fn lemma_before_transitive(a: Seq<char>, b: Seq<char>, c: Seq<char>)
    requires
        string_before(a, b),
        string_before(b, c),
    ensures
        string_before(a, c),
{
    let (x, y, z) = (encode_utf8(a), encode_utf8(b), encode_utf8(c));
    let j = choose|k: int| parts_at(x, y, k);
    let k = choose|k: int| parts_at(y, z, k);
    let m = if j < k {
        j
    } else {
        k
    };
    assert forall|i: int| 0 <= i < m implies x[i] == z[i] by {
        assert(x[i] == y[i]);
        assert(y[i] == z[i]);
    }
    assert(parts_at(x, z, m));
}

/// Of two different strings, one comes before the other.
pub proof fn lemma_before_total(a: Seq<char>, b: Seq<char>)
    requires
        a != b,
    ensures
        string_before(a, b) || string_before(b, a),
{
    let (x, y) = (encode_utf8(a), encode_utf8(b));
    vstd::utf8::encode_utf8_decode_utf8(a);
    vstd::utf8::encode_utf8_decode_utf8(b);
    assert(x != y);
    lemma_parting_point(x, y, 0);
}

proof fn lemma_parting_point(x: Seq<u8>, y: Seq<u8>, k: int)
    requires
        x != y,
        0 <= k <= x.len(),
        k <= y.len(),
        forall|i: int| 0 <= i < k ==> x[i] == y[i],
    ensures
        (exists|j: int| parts_at(x, y, j)) || (exists|j: int| parts_at(y, x, j)),
    decreases x.len() - k,
{
    if k == x.len() {
        if k == y.len() {
            assert(x =~= y);
        }
        assert(parts_at(x, y, k));
    } else if k == y.len() {
        assert(parts_at(y, x, k));
    } else if x[k] < y[k] {
        assert(parts_at(x, y, k));
    } else if y[k] < x[k] {
        assert(parts_at(y, x, k));
    } else {
        lemma_parting_point(x, y, k + 1);
    }
}

/// Whether `a` comes strictly before `b`.
pub fn precedes(a: &str, b: &str) -> (r: bool)
    ensures
        r == string_before(a@, b@),
{
    let x: &[u8] = a.as_bytes();
    let y: &[u8] = b.as_bytes();
    let mut k: usize = 0;
    while k < x.len() && k < y.len() && x[k] == y[k]
        invariant
            x@ == encode_utf8(a@),
            y@ == encode_utf8(b@),
            0 <= k <= x.len(),
            k <= y.len(),
            forall|i: int| 0 <= i < k ==> x@[i] == y@[i],
        decreases x.len() - k,
    {
        k = k + 1;
    }
    let r: bool = if k == y.len() {
        false
    } else if k == x.len() {
        true
    } else {
        x[k] < y[k]
    };
    proof {
        if r {
            assert(parts_at(x@, y@, k as int));
        } else {
            assert forall|j: int| !parts_at(x@, y@, j) by {
                if parts_at(x@, y@, j) {
                    if j < k {
                        assert(x@[j] == y@[j]);
                    } else if j > k {
                        assert(x@[k as int] == y@[k as int]);
                    }
                }
            }
        }
    }
    r
}

/// The entries stand in strictly ascending order of their keys.
pub open spec fn ascending<V>(entries: Seq<(String, V)>) -> bool {
    forall|i: int, j: int|
        0 <= i < j < entries.len() ==> string_before(
            (#[trigger] entries[i]).0@,
            (#[trigger] entries[j]).0@,
        )
}

/// Some entry has the key `key`.
pub open spec fn has_key<V>(entries: Seq<(String, V)>, key: Seq<char>) -> bool {
    exists|i: int| 0 <= i < entries.len() && (#[trigger] entries[i]).0@ == key
}

/// The value that stands under `key`, where there is one.
pub open spec fn value_of<V>(entries: Seq<(String, V)>, key: Seq<char>) -> V {
    entries[choose|i: int| 0 <= i < entries.len() && (#[trigger] entries[i]).0@ == key].1
}

/// The entries as a map.
pub open spec fn map_of<V>(entries: Seq<(String, V)>) -> Map<Seq<char>, V> {
    Map::new(|key: Seq<char>| has_key(entries, key), |key: Seq<char>| value_of(entries, key))
}

/// An entry's value is the one that the map holds under the entry's key.
pub proof fn lemma_map_of_entry<V>(entries: Seq<(String, V)>, i: int)
    requires
        ascending(entries),
        0 <= i < entries.len(),
    ensures
        map_of(entries).contains_key(entries[i].0@),
        map_of(entries)[entries[i].0@] == entries[i].1,
{
    let key = entries[i].0@;
    let j = choose|j: int| 0 <= j < entries.len() && (#[trigger] entries[j]).0@ == key;
    assert(entries[i].0@ == key);
    lemma_before_irreflexive(key);
}

/// Two lists of entries in ascending order that have the same keys have them at the same places.
pub proof fn lemma_same_keys<V, W>(a: Seq<(String, V)>, b: Seq<(String, W)>)
    requires
        ascending(a),
        ascending(b),
        forall|key: Seq<char>| #[trigger] has_key(a, key) == has_key(b, key),
    ensures
        a.len() == b.len(),
        forall|i: int| 0 <= i < a.len() ==> (#[trigger] a[i]).0@ == b[i].0@,
{
    let shorter = if a.len() < b.len() {
        a.len()
    } else {
        b.len()
    };
    lemma_same_first_keys(a, b, shorter);
    if shorter < a.len() {
        let key = a[shorter as int].0@;
        assert(has_key(a, key));
        assert(has_key(b, key));
        let j = choose|j: int| 0 <= j < b.len() && (#[trigger] b[j]).0@ == key;
        assert(string_before(a[j].0@, a[shorter as int].0@));
        lemma_before_irreflexive(key);
    }
    if shorter < b.len() {
        let key = b[shorter as int].0@;
        assert(has_key(b, key));
        assert(has_key(a, key));
        let j = choose|j: int| 0 <= j < a.len() && (#[trigger] a[j]).0@ == key;
        assert(a[j].0@ == b[j].0@);
        assert(string_before(b[j].0@, b[shorter as int].0@));
        lemma_before_irreflexive(key);
    }
}

proof fn lemma_same_first_keys<V, W>(a: Seq<(String, V)>, b: Seq<(String, W)>, n: nat)
    requires
        ascending(a),
        ascending(b),
        forall|key: Seq<char>| #[trigger] has_key(a, key) == has_key(b, key),
        n <= a.len(),
        n <= b.len(),
    ensures
        forall|i: int| 0 <= i < n ==> (#[trigger] a[i]).0@ == b[i].0@,
    decreases n,
{
    if n > 0 {
        let last = n - 1;
        lemma_same_first_keys(a, b, last as nat);
        let (k, l) = (a[last].0@, b[last].0@);
        if k != l {
            assert(has_key(a, k) && has_key(b, l));
            assert(has_key(b, k) && has_key(a, l));
            let p = choose|j: int| 0 <= j < b.len() && (#[trigger] b[j]).0@ == k;
            let q = choose|j: int| 0 <= j < a.len() && (#[trigger] a[j]).0@ == l;
            lemma_before_irreflexive(k);
            lemma_before_irreflexive(l);
            if p < last {
                assert(a[p].0@ == b[p].0@);
                assert(string_before(a[p].0@, a[last].0@));
            }
            if q < last {
                assert(a[q].0@ == b[q].0@);
                assert(string_before(b[q].0@, b[last].0@));
            }
            assert(string_before(b[last].0@, b[p].0@));
            assert(string_before(a[last].0@, a[q].0@));
            lemma_before_transitive(k, l, k);
        }
    }
}

/// A map from strings to values. Its entries stand in ascending order of their keys, and no key
/// occurs twice.
#[derive(Debug, PartialEq, Eq)]
pub struct StringMap<V> {
    entries: Vec<(String, V)>,
}

impl<V> View for StringMap<V> {
    type V = Map<Seq<char>, V>;

    open spec fn view(&self) -> Map<Seq<char>, V> {
        map_of(self.entries())
    }
}

impl<V> StringMap<V> {
    /// The entries in their order.
    pub closed spec fn entries(&self) -> Seq<(String, V)> {
        self.entries@
    }

    #[verifier::type_invariant]
    spec fn in_order(self) -> bool {
        ascending(self.entries@)
    }

    /// The map without entries.
    pub fn new() -> (r: StringMap<V>)
        ensures
            r@ == Map::<Seq<char>, V>::empty(),
            r.entries() == Seq::<(String, V)>::empty(),
    {
        let r = StringMap { entries: Vec::new() };
        assert(r@ =~= Map::<Seq<char>, V>::empty());
        r
    }

    /// The entries in their order, to read.
    pub fn as_entries(&self) -> (r: &Vec<(String, V)>)
        ensures
            r@ == self.entries(),
            ascending(r@),
    {
        proof {
            use_type_invariant(self);
        }
        &self.entries
    }

    /// The entries in their order.
    pub fn into_entries(self) -> (r: Vec<(String, V)>)
        ensures
            r@ == self.entries(),
            ascending(r@),
    {
        proof {
            use_type_invariant(&self);
        }
        self.entries
    }

    /// The place of the first entry whose key does not come before `key`.
    fn position(&self, key: &str) -> (r: usize)
        ensures
            r <= self.entries().len(),
            forall|i: int| 0 <= i < r ==> string_before((#[trigger] self.entries()[i]).0@, key@),
            r < self.entries().len() ==> !string_before(self.entries()[r as int].0@, key@),
    {
        let mut i: usize = 0;
        while i < self.entries.len()
            invariant
                i <= self.entries().len(),
                forall|j: int|
                    0 <= j < i ==> string_before((#[trigger] self.entries()[j]).0@, key@),
            decreases self.entries@.len() - i,
        {
            if !precedes(self.entries[i].0.as_str(), key) {
                return i;
            }
            i = i + 1;
        }
        i
    }

    /// The value under `key`.
    pub fn get(&self, key: &str) -> (r: Option<&V>)
        ensures
            match r {
                Some(value) => self@.contains_key(key@) && *value == self@[key@],
                None => !self@.contains_key(key@),
            },
    {
        proof {
            use_type_invariant(self);
        }
        let i = self.position(key);
        let ghost entries = self.entries();
        if i < self.entries.len() && !precedes(key, self.entries[i].0.as_str()) {
            proof {
                if entries[i as int].0@ != key@ {
                    lemma_before_total(entries[i as int].0@, key@);
                }
                lemma_map_of_entry(entries, i as int);
            }
            Some(&self.entries[i].1)
        } else {
            proof {
                assert forall|j: int| 0 <= j < entries.len() implies (#[trigger] entries[j]).0@
                    != key@ by {
                    lemma_before_irreflexive(key@);
                    if j > i {
                        assert(string_before(entries[i as int].0@, entries[j].0@));
                        if entries[j].0@ == key@ {
                            assert(false);
                        }
                    }
                }
            }
            None
        }
    }

    /// Whether there is a value under `key`.
    pub fn contains_key(&self, key: &str) -> (r: bool)
        ensures
            r == self@.contains_key(key@),
    {
        self.get(key).is_some()
    }

    /// Puts `value` under `key`, in place of the value that may stand there.
    pub fn insert(&mut self, key: String, value: V)
        ensures
            final(self)@ == old(self)@.insert(key@, value),
    {
        proof {
            use_type_invariant(&*self);
        }
        let i = self.position(key.as_str());
        let ghost before = self.entries();
        let mut entries: Vec<(String, V)> = Vec::new();
        core::mem::swap(&mut entries, &mut self.entries);
        let found: bool = i < entries.len() && !precedes(key.as_str(), entries[i].0.as_str());
        if found {
            proof {
                if before[i as int].0@ != key@ {
                    lemma_before_total(before[i as int].0@, key@);
                }
            }
            let kept: String = entries[i].0.clone();
            entries.set(i, (kept, value));
        } else {
            entries.insert(i, (key, value));
        }
        let ghost after = entries@;
        proof {
            lemma_inserted(before, after, i as int, key, value, found);
        }
        self.entries = entries;
    }
}

proof fn lemma_inserted<V>(
    before: Seq<(String, V)>,
    after: Seq<(String, V)>,
    i: int,
    key: String,
    value: V,
    found: bool,
)
    requires
        ascending(before),
        0 <= i <= before.len(),
        forall|j: int| 0 <= j < i ==> string_before((#[trigger] before[j]).0@, key@),
        found ==> i < before.len() && before[i].0@ == key@ && after == before.update(
            i,
            (before[i].0, value),
        ),
        !found ==> after == before.insert(i, (key, value)),
        !found && i < before.len() ==> string_before(key@, before[i].0@),
    ensures
        ascending(after),
        map_of(after) =~= map_of(before).insert(key@, value),
{
    assert forall|j: int, k: int| 0 <= j < k < after.len() implies string_before(
        (#[trigger] after[j]).0@,
        (#[trigger] after[k]).0@,
    ) by {
        if !found {
            if j == i {
                if k - 1 > i {
                    assert(string_before(before[i].0@, before[k - 1].0@));
                    lemma_before_transitive(key@, before[i].0@, before[k - 1].0@);
                }
            } else if k == i {
                assert(after[j] == before[j]);
            } else if k > i {
                let jj = if j > i {
                    j - 1
                } else {
                    j
                };
                assert(string_before(before[jj].0@, before[k - 1].0@));
            } else {
                assert(string_before(before[j].0@, before[k].0@));
            }
        } else {
            assert(string_before(before[j].0@, before[k].0@));
        }
    }
    let old_map = map_of(before);
    let new_map = map_of(after);
    lemma_map_of_entry(after, i);
    assert forall|k: Seq<char>| new_map.contains_key(k) == old_map.insert(
        key@,
        value,
    ).contains_key(k) by {
        if has_key(after, k) {
            let j = choose|j: int| 0 <= j < after.len() && (#[trigger] after[j]).0@ == k;
            if j != i {
                let jj = if !found && j > i {
                    j - 1
                } else {
                    j
                };
                assert(before[jj].0@ == k);
            }
        }
        if has_key(before, k) {
            let j = choose|j: int| 0 <= j < before.len() && (#[trigger] before[j]).0@ == k;
            let jj = if !found && j >= i {
                j + 1
            } else {
                j
            };
            assert(after[jj].0@ == k);
        }
        assert(after[i].0@ == key@);
    }
    assert forall|k: Seq<char>| new_map.contains_key(k) implies new_map[k] == old_map.insert(
        key@,
        value,
    )[k] by {
        let j = choose|j: int| 0 <= j < after.len() && (#[trigger] after[j]).0@ == k;
        lemma_map_of_entry(after, j);
        if j != i {
            lemma_before_irreflexive(k);
            assert(k != key@);
            let jj = if !found && j > i {
                j - 1
            } else {
                j
            };
            assert(before[jj] == after[j]);
            lemma_map_of_entry(before, jj);
        }
    }
}

impl<V: Clone> Clone for StringMap<V> {
    fn clone(&self) -> (r: Self)
        ensures
            r.entries().len() == self.entries().len(),
            forall|i: int|
                0 <= i < self.entries().len() ==> (#[trigger] r.entries()[i]).0
                    == self.entries()[i].0 && cloned::<V>(self.entries()[i].1, r.entries()[i].1),
    {
        proof {
            use_type_invariant(self);
        }
        let mut entries: Vec<(String, V)> = Vec::new();
        let mut i: usize = 0;
        while i < self.entries.len()
            invariant
                i <= self.entries@.len(),
                entries@.len() == i,
                forall|j: int|
                    0 <= j < i ==> (#[trigger] entries@[j]).0 == self.entries@[j].0 && cloned::<V>(
                        self.entries@[j].1,
                        entries@[j].1,
                    ),
            decreases self.entries@.len() - i,
        {
            entries.push((self.entries[i].0.clone(), self.entries[i].1.clone()));
            i = i + 1;
        }
        assert forall|j: int, k: int| 0 <= j < k < entries@.len() implies string_before(
            (#[trigger] entries@[j]).0@,
            (#[trigger] entries@[k]).0@,
        ) by {
            assert(string_before(self.entries@[j].0@, self.entries@[k].0@));
        }
        StringMap { entries }
    }
}

} // verus!
