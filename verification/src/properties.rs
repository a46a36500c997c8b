//! Custom properties of an entity: values stored under text keys, each entry with its own id.
//!
//! The store is generic in the value it holds; the engine's property value type (which
//! carries floating-point numbers) is supplied by the host.
use crate::text::{decimal, lemma_decimal_injective, lemma_decimal_len, push_decimal, str_eq};
use vstd::prelude::*;
use vstd::set_lib::{lemma_int_range, lemma_len_subset, lemma_map_size, set_int_range};

verus! {

/// One custom property.
#[derive(Debug, Clone)]
pub struct Property<V> {
    /// Unique within its store, handed out in increasing order.
    pub id: u64,
    pub key: String,
    pub value: V,
}

/// `i` is the position of the first property of `s` whose key is `key`.
pub open spec fn is_first_key<V>(s: Seq<Property<V>>, key: Seq<char>, i: int) -> bool {
    &&& 0 <= i < s.len()
    &&& s[i].key@ == key
    &&& forall|j: int| 0 <= j < i ==> (#[trigger] s[j]).key@ != key
}

/// Some property of `s` has the key `key`.
pub open spec fn has_property<V>(s: Seq<Property<V>>, key: Seq<char>) -> bool {
    exists|i: int| 0 <= i < s.len() && (#[trigger] s[i]).key@ == key
}

/// The position of the first property of `s` whose key is `key`.
pub open spec fn first_key_index<V>(s: Seq<Property<V>>, key: Seq<char>) -> int {
    choose|i: int| is_first_key(s, key, i)
}

/// The properties once `set_property(key, value)` has run on `s` with the next id `next_id`:
/// the first property with that key gets the value, or a new property is appended.
pub open spec fn set_in<V>(s: Seq<Property<V>>, next_id: u64, key: String, value: V) -> Seq<
    Property<V>,
> {
    if has_property(s, key@) {
        let i = first_key_index(s, key@);
        s.update(i, Property { id: s[i].id, key: s[i].key, value })
    } else {
        s.push(Property { id: next_id, key, value })
    }
}

/// When some property has the key, the first one is found.
pub proof fn lemma_first_key_exists<V>(s: Seq<Property<V>>, key: Seq<char>)
    requires
        has_property(s, key),
    ensures
        is_first_key(s, key, first_key_index(s, key)),
    decreases s.len(),
{
    if s[0].key@ == key {
        assert(is_first_key(s, key, 0));
    } else {
        let t = s.drop_first();
        let i = choose|i: int| 0 <= i < s.len() && (#[trigger] s[i]).key@ == key;
        assert(t[i - 1].key@ == key);
        lemma_first_key_exists(t, key);
        let k = first_key_index(t, key);
        assert forall|j: int| 0 <= j < k + 1 implies (#[trigger] s[j]).key@ != key by {
            if j > 0 {
                assert(s[j] == t[j - 1]);
            }
        }
        assert(is_first_key(s, key, k + 1));
    }
}

/// The properties of `s` other than those with the id `id`, in order.
pub open spec fn without_id<V>(s: Seq<Property<V>>, id: u64) -> Seq<Property<V>>
    decreases s.len(),
{
    if s.len() == 0 {
        s
    } else if s.last().id == id {
        without_id(s.drop_last(), id)
    } else {
        without_id(s.drop_last(), id).push(s.last())
    }
}

/// `i` is the position of the first property of `s` whose id is `id`.
pub open spec fn is_first_id<V>(s: Seq<Property<V>>, id: u64, i: int) -> bool {
    &&& 0 <= i < s.len()
    &&& s[i].id == id
    &&& forall|j: int| 0 <= j < i ==> (#[trigger] s[j]).id != id
}

/// The `c`-th key offered for a new property: `new_property`, then `new_property_1`,
/// `new_property_2`, and so on.
pub open spec fn candidate_key(c: nat) -> Seq<char> {
    if c == 0 {
        "new_property"@
    } else {
        "new_property_"@ + decimal(c)
    }
}

/// The key a new property gets in `s`: the first candidate key that no property uses.
pub open spec fn is_fresh_key<V>(s: Seq<Property<V>>, key: Seq<char>) -> bool {
    exists|k: nat|
        key == candidate_key(k) && !has_property(s, candidate_key(k)) && forall|j: nat|
            j < k ==> has_property(s, #[trigger] candidate_key(j))
}

/// Different positions give different candidate keys.
proof fn lemma_candidate_injective(a: nat, b: nat)
    requires
        candidate_key(a) == candidate_key(b),
    ensures
        a == b,
{
    reveal_strlit("new_property");
    reveal_strlit("new_property_");
    lemma_decimal_len(a);
    lemma_decimal_len(b);
    if a != 0 && b != 0 {
        assert(candidate_key(a).subrange(13, candidate_key(a).len() as int) =~= decimal(a));
        assert(candidate_key(b).subrange(13, candidate_key(b).len() as int) =~= decimal(b));
        lemma_decimal_injective(a, b);
    } else if a == 0 && b != 0 {
        assert(candidate_key(a).len() == 12);
        assert(candidate_key(b).len() >= 14);
    } else if a != 0 && b == 0 {
        assert(candidate_key(b).len() == 12);
        assert(candidate_key(a).len() >= 14);
    }
}

/// When the first `n` candidate keys are all in use, there are at least `n` properties.
proof fn lemma_used_candidates_bound<V>(s: Seq<Property<V>>, n: nat)
    requires
        forall|j: nat| j < n ==> has_property(s, #[trigger] candidate_key(j)),
    ensures
        n <= s.len(),
{
    let keys = s.map_values(|p: Property<V>| p.key@);
    let f = |j: int| candidate_key(j as nat);
    let idx = set_int_range(0, n as int);
    let used = idx.map(f);
    lemma_int_range(0, n as int);
    assert forall|x: int, y: int| idx.contains(x) && idx.contains(y) && #[trigger] f(x) == #[trigger] f(y) implies x == y by {
        lemma_candidate_injective(x as nat, y as nat);
    }
    lemma_map_size(idx, used, f);
    assert forall|k: Seq<char>| used.contains(k) implies keys.to_set().contains(k) by {
        let x = choose|x: int| idx.contains(x) && f(x) == k;
        assert(has_property(s, candidate_key(x as nat)));
        let i = choose|i: int| 0 <= i < s.len() && (#[trigger] s[i]).key@ == candidate_key(x as nat);
        assert(keys[i] == k);
    }
    keys.lemma_cardinality_of_set();
    lemma_len_subset(used, keys.to_set());
}

/// The properties of an entity, queried by key from scripts.
#[derive(Debug, Clone)]
pub struct CustomProperties<V> {
    pub custom_properties: Vec<Property<V>>,
    /// The id that the next new property gets.
    pub next_id: u64,
}

impl<V> CustomProperties<V> {
    /// Every id is unique and below `next_id`.
    pub open spec fn wf(&self) -> bool {
        &&& forall|i: int|
            0 <= i < self.custom_properties@.len() ==> (#[trigger] self.custom_properties@[i]).id
                < self.next_id
        &&& forall|i: int, j: int|
            0 <= i < self.custom_properties@.len() && 0 <= j < self.custom_properties@.len() && i
                != j ==> (#[trigger] self.custom_properties@[i]).id
                != (#[trigger] self.custom_properties@[j]).id
    }

    /// An empty set of properties.
    pub fn new() -> (r: Self)
        ensures
            r.wf(),
            r.custom_properties@ == Seq::<Property<V>>::empty(),
            r.next_id == 0,
    {
        CustomProperties { custom_properties: Vec::new(), next_id: 0 }
    }

    /// The position of the first property with the key `key`.
    fn find(&self, key: &str) -> (r: Option<usize>)
        ensures
            r matches Some(i) ==> is_first_key(self.custom_properties@, key@, i as int),
            r is None ==> !has_property(self.custom_properties@, key@),
    {
        let mut i: usize = 0;
        while i < self.custom_properties.len()
            invariant
                i <= self.custom_properties@.len(),
                forall|j: int| 0 <= j < i ==> (#[trigger] self.custom_properties@[j]).key@ != key@,
            decreases self.custom_properties@.len() - i,
        {
            if str_eq(self.custom_properties[i].key.as_str(), key) {
                return Some(i);
            }
            i = i + 1;
        }
        None
    }

    /// Sets the value under `key`: the first property with that key gets `value`, or, when no
    /// property has it, a new property is appended with the next id.
    pub fn set_property(&mut self, key: String, value: V)
        requires
            has_property(old(self).custom_properties@, key@) || old(self).next_id < u64::MAX,
        ensures
            final(self).custom_properties@ == set_in(
                old(self).custom_properties@,
                old(self).next_id,
                key,
                value,
            ),
            final(self).next_id == (if has_property(old(self).custom_properties@, key@) {
                old(self).next_id
            } else {
                (old(self).next_id + 1) as u64
            }),
            old(self).wf() ==> final(self).wf(),
    {
        match self.find(key.as_str()) {
            Some(i) => {
                proof {
                    assert(has_property(self.custom_properties@, key@)) by {
                        assert(self.custom_properties@[i as int].key@ == key@);
                    }
                    lemma_first_key_exists(self.custom_properties@, key@);
                    let k = first_key_index(self.custom_properties@, key@);
                    if k < i {
                        assert(self.custom_properties@[k].key@ != key@);
                    }
                    if i < k {
                        assert(self.custom_properties@[i as int].key@ != key@);
                    }
                }
                let old_entry = self.custom_properties.remove(i);
                let entry = Property { id: old_entry.id, key: old_entry.key, value };
                self.custom_properties.insert(i, entry);
            },
            None => {
                let id = self.next_id;
                self.custom_properties.push(Property { id, key, value });
                self.next_id = id + 1;
            },
        }
    }

    /// The value of the first property with the key `key`.
    pub fn get_property(&self, key: &str) -> (r: Option<&V>)
        ensures
            r is Some <==> has_property(self.custom_properties@, key@),
            r matches Some(v) ==> *v == self.custom_properties@[first_key_index(
                self.custom_properties@,
                key@,
            )].value,
    {
        match self.find(key) {
            Some(i) => {
                proof {
                    assert(has_property(self.custom_properties@, key@)) by {
                        assert(self.custom_properties@[i as int].key@ == key@);
                    }
                    lemma_first_key_exists(self.custom_properties@, key@);
                    let k = first_key_index(self.custom_properties@, key@);
                    if k < i {
                        assert(self.custom_properties@[k].key@ != key@);
                    }
                    if i < k {
                        assert(self.custom_properties@[i as int].key@ != key@);
                    }
                }
                Some(&self.custom_properties[i].value)
            },
            None => None,
        }
    }

    /// Appends a property under `key` with the next id, whether or not the key is already
    /// used.
    pub fn add_property(&mut self, key: String, value: V)
        requires
            old(self).next_id < u64::MAX,
        ensures
            final(self).custom_properties@ == old(self).custom_properties@.push(
                Property { id: old(self).next_id, key, value },
            ),
            final(self).next_id == old(self).next_id + 1,
            old(self).wf() ==> final(self).wf(),
    {
        let id = self.next_id;
        self.custom_properties.push(Property { id, key, value });
        self.next_id = id + 1;
    }
}

impl<V> CustomProperties<V> {
    /// Whether some property has the key `key`.
    fn uses_key(&self, key: &str) -> (r: bool)
        ensures
            r == has_property(self.custom_properties@, key@),
    {
        match self.find(key) {
            Some(i) => {
                assert(self.custom_properties@[i as int].key@ == key@);
                true
            },
            None => false,
        }
    }

    /// Deletes every property with the id `id`, keeping the order of the others.
    pub fn remove_property(&mut self, id: u64)
        ensures
            final(self).custom_properties@ == without_id(old(self).custom_properties@, id),
            final(self).next_id == old(self).next_id,
            old(self).wf() ==> final(self).wf(),
    {
        let ghost orig = self.custom_properties@;
        let mut kept: Vec<Property<V>> = Vec::new();
        while self.custom_properties.len() > 0
            invariant
                self.next_id == old(self).next_id,
                self.custom_properties@.len() <= orig.len(),
                self.custom_properties@ == orig.take(self.custom_properties@.len() as int),
                without_id(orig, id) == without_id(self.custom_properties@, id) + kept@.reverse(),
            decreases self.custom_properties@.len(),
        {
            let ghost before = self.custom_properties@;
            let p = self.custom_properties.pop().unwrap();
            assert(before == self.custom_properties@.push(p));
            assert(before.drop_last() =~= self.custom_properties@);
            assert(self.custom_properties@ =~= orig.take(self.custom_properties@.len() as int));
            if p.id != id {
                let ghost k0 = kept@;
                kept.push(p);
                assert(kept@.reverse() =~= seq![p] + k0.reverse());
                assert(without_id(before, id) == without_id(self.custom_properties@, id).push(p));
                assert(without_id(self.custom_properties@, id).push(p) + k0.reverse()
                    =~= without_id(self.custom_properties@, id) + kept@.reverse());
            }
        }
        assert(without_id(self.custom_properties@, id) =~= Seq::<Property<V>>::empty());
        while kept.len() > 0
            invariant
                self.next_id == old(self).next_id,
                without_id(orig, id) == self.custom_properties@ + kept@.reverse(),
            decreases kept@.len(),
        {
            let ghost k0 = kept@;
            let p = kept.pop().unwrap();
            assert(k0 == kept@.push(p));
            assert(k0.reverse() =~= seq![p] + kept@.reverse());
            self.custom_properties.push(p);
        }
        assert(kept@.reverse() =~= Seq::<Property<V>>::empty());
        assert(self.custom_properties@ =~= without_id(orig, id));
        proof {
            lemma_without_id_sub(orig, id);
            let f = self.custom_properties@;
            if old(self).wf() {
                assert forall|i: int| 0 <= i < f.len() implies (#[trigger] f[i]).id < self.next_id by {
                    let k = choose|k: int| 0 <= k < orig.len() && orig[k] == f[i];
                    assert(orig[k].id < self.next_id);
                }
                assert forall|i: int, j: int| 0 <= i < f.len() && 0 <= j < f.len() && i != j implies (#[trigger] f[i]).id != (#[trigger] f[j]).id by {
                    if i < j {
                        let (a, b) = choose|a: int, b: int| 0 <= a < b < orig.len() && orig[a] == #[trigger] f[i] && orig[b] == #[trigger] f[j];
                        assert(orig[a].id != orig[b].id);
                    } else {
                        let (a, b) = choose|a: int, b: int| 0 <= a < b < orig.len() && orig[a] == #[trigger] f[j] && orig[b] == #[trigger] f[i];
                        assert(orig[a].id != orig[b].id);
                    }
                }
            }
        }
    }

    /// Gives the first property with the id `id` the key `new_key`; `false`, with nothing
    /// changed, when no property has that id.
    pub fn rename_property(&mut self, id: u64, new_key: String) -> (r: bool)
        ensures
            r == exists|i: int| 0 <= i < old(self).custom_properties@.len()
                && (#[trigger] old(self).custom_properties@[i]).id == id,
            r ==> exists|i: int|
                is_first_id(old(self).custom_properties@, id, i)
                    && final(self).custom_properties@ == old(self).custom_properties@.update(
                    i,
                    Property {
                        id,
                        key: new_key,
                        value: old(self).custom_properties@[i].value,
                    },
                ),
            !r ==> final(self).custom_properties@ == old(self).custom_properties@,
            final(self).next_id == old(self).next_id,
            old(self).wf() ==> final(self).wf(),
    {
        let mut i: usize = 0;
        while i < self.custom_properties.len()
            invariant
                self.custom_properties@ == old(self).custom_properties@,
                self.next_id == old(self).next_id,
                i <= self.custom_properties@.len(),
                forall|j: int| 0 <= j < i ==> (#[trigger] self.custom_properties@[j]).id != id,
            decreases self.custom_properties@.len() - i,
        {
            if self.custom_properties[i].id == id {
                let old_entry = self.custom_properties.remove(i);
                let entry = Property { id: old_entry.id, key: new_key, value: old_entry.value };
                self.custom_properties.insert(i, entry);
                assert(is_first_id(old(self).custom_properties@, id, i as int));
                assert(self.custom_properties@ =~= old(self).custom_properties@.update(
                    i as int,
                    Property { id, key: new_key, value: old(self).custom_properties@[i as int].value },
                ));
                return true;
            }
            i = i + 1;
        }
        false
    }

    /// The key a new property gets: the first of `new_property`, `new_property_1`,
    /// `new_property_2`, ... that no property uses.
    pub fn new_property_key(&self) -> (r: String)
        ensures
            is_fresh_key(self.custom_properties@, r@),
    {
        let ghost s = self.custom_properties@;
        let n = self.custom_properties.len();
        let mut key = "new_property".to_owned();
        let mut counter: u128 = 1;
        proof {
            assert(key@ == candidate_key(0));
        }
        while self.uses_key(key.as_str())
            invariant
                s == self.custom_properties@,
                n == s.len(),
                1 <= counter <= s.len() + 1,
                key@ == candidate_key((counter - 1) as nat),
                forall|j: nat| j < counter - 1 ==> has_property(s, #[trigger] candidate_key(j)),
            decreases s.len() + 1 - counter,
        {
            proof {
                assert forall|j: nat| j < counter implies has_property(s, #[trigger] candidate_key(j)) by {
                    if j == counter - 1 {
                        assert(candidate_key(j) == key@);
                    }
                }
                lemma_used_candidates_bound(s, counter as nat);
            }
            let mut next = "new_property_".to_owned();
            push_decimal(&mut next, counter as u64);
            key = next;
            counter = counter + 1;
        }
        proof {
            let k = (counter - 1) as nat;
            assert(key@ == candidate_key(k) && !has_property(s, candidate_key(k)));
        }
        key
    }

    /// Appends a property with `value` under a fresh key (see [`Self::new_property_key`]) and
    /// the next id.
    pub fn add_new_property(&mut self, value: V)
        requires
            old(self).next_id < u64::MAX,
        ensures
            final(self).next_id == old(self).next_id + 1,
            final(self).custom_properties@.len() == old(self).custom_properties@.len() + 1,
            final(self).custom_properties@.drop_last() == old(self).custom_properties@,
            final(self).custom_properties@.last().id == old(self).next_id,
            final(self).custom_properties@.last().value == value,
            is_fresh_key(old(self).custom_properties@, final(self).custom_properties@.last().key@),
            old(self).wf() ==> final(self).wf(),
    {
        let key = self.new_property_key();
        self.add_property(key, value);
        assert(self.custom_properties@.drop_last() =~= old(self).custom_properties@);
    }
}

/// Deleting by id keeps a subsequence: every kept property was there before.
proof fn lemma_without_id_sub<V>(s: Seq<Property<V>>, id: u64)
    ensures
        forall|i: int| 0 <= i < without_id(s, id).len() ==> s.contains(#[trigger] without_id(s, id)[i]),
        forall|i: int, j: int|
            0 <= i < j < without_id(s, id).len() ==> exists|a: int, b: int|
                0 <= a < b < s.len() && s[a] == #[trigger] without_id(s, id)[i] && s[b]
                    == #[trigger] without_id(s, id)[j],
    decreases s.len(),
{
    if s.len() > 0 {
        let t = s.drop_last();
        lemma_without_id_sub(t, id);
        let r = without_id(t, id);
        assert forall|i: int| 0 <= i < without_id(s, id).len() implies s.contains(#[trigger] without_id(s, id)[i]) by {
            if i < r.len() {
                assert(without_id(s, id)[i] == r[i]);
                let k = choose|k: int| 0 <= k < t.len() && t[k] == r[i];
                assert(s[k] == r[i]);
            } else {
                assert(s[s.len() - 1] == without_id(s, id)[i]);
            }
        }
        assert forall|i: int, j: int| 0 <= i < j < without_id(s, id).len() implies exists|a: int, b: int|
            0 <= a < b < s.len() && s[a] == #[trigger] without_id(s, id)[i] && s[b]
                == #[trigger] without_id(s, id)[j] by {
            assert(without_id(s, id)[i] == r[i]);
            if j < r.len() {
                assert(without_id(s, id)[j] == r[j]);
                let (a, b) = choose|a: int, b: int| 0 <= a < b < t.len() && t[a] == #[trigger] r[i] && t[b] == #[trigger] r[j];
                assert(s[a] == r[i] && s[b] == r[j]);
            } else {
                let a = choose|a: int| 0 <= a < t.len() && t[a] == r[i];
                assert(s[a] == r[i]);
                assert(s[s.len() - 1] == without_id(s, id)[j]);
            }
        }
    }
}

impl<V> Default for CustomProperties<V> {
    fn default() -> (r: Self)
        ensures
            r.wf(),
            r.custom_properties@ == Seq::<Property<V>>::empty(),
            r.next_id == 0,
    {
        CustomProperties::new()
    }
}

/// Law: the key a new property gets is used by no property, so adding it never shadows or
/// duplicates an existing key.
pub proof fn law_fresh_key_unused<V>(s: Seq<Property<V>>, key: Seq<char>)
    requires
        is_fresh_key(s, key),
    ensures
        !has_property(s, key),
{
}

/// Law: after `remove_property(id)` no property has the id `id`, and every other property is
/// still there.
pub proof fn law_remove_property_clears_id<V>(s: Seq<Property<V>>, id: u64, p: Property<V>)
    ensures
        forall|i: int| 0 <= i < without_id(s, id).len() ==> (#[trigger] without_id(s, id)[i]).id != id,
        s.contains(p) && p.id != id ==> without_id(s, id).contains(p),
    decreases s.len(),
{
    if s.len() > 0 {
        let t = s.drop_last();
        law_remove_property_clears_id(t, id, p);
        let r = without_id(t, id);
        if s.last().id != id {
            assert(forall|i: int| 0 <= i < r.len() ==> r.push(s.last())[i] == r[i]);
            assert(r.push(s.last())[r.len() as int] == s.last());
        }
        if s.contains(p) && p.id != id {
            let k = choose|k: int| 0 <= k < s.len() && s[k] == p;
            if k < t.len() {
                assert(t[k] == p);
                let m = choose|m: int| 0 <= m < r.len() && r[m] == p;
                if s.last().id != id {
                    assert(r.push(s.last())[m] == p);
                }
            } else {
                assert(r.push(s.last())[r.len() as int] == p);
            }
        }
    }
}

/// Law: after `set_property(key, value)`, `get_property(key)` gives `value`, and the other keys
/// keep what they gave.
pub proof fn law_set_then_get<V>(s: Seq<Property<V>>, next_id: u64, key: String, value: V, other: Seq<char>)
    requires
        other != key@,
    ensures
        has_property(set_in(s, next_id, key, value), key@),
        set_in(s, next_id, key, value)[first_key_index(set_in(s, next_id, key, value), key@)].value
            == value,
        has_property(set_in(s, next_id, key, value), other) == has_property(s, other),
        has_property(s, other) ==> set_in(s, next_id, key, value)[first_key_index(
            set_in(s, next_id, key, value),
            other,
        )].value == s[first_key_index(s, other)].value,
{
    let t = set_in(s, next_id, key, value);
    if has_property(s, key@) {
        lemma_first_key_exists(s, key@);
        let i = first_key_index(s, key@);
        assert(t[i].key@ == key@);
        assert(forall|j: int| 0 <= j < t.len() ==> (#[trigger] t[j]).key@ == s[j].key@);
    } else {
        assert(t[s.len() as int].key@ == key@);
        assert(forall|j: int| 0 <= j < s.len() ==> (#[trigger] t[j]) == s[j]);
    }
    assert(has_property(t, key@));
    lemma_first_key_exists(t, key@);
    let k = first_key_index(t, key@);
    if has_property(s, key@) {
        let i = first_key_index(s, key@);
        if k < i {
            assert(s[k].key@ != key@);
        }
        if i < k {
            assert(t[i].key@ == key@);
        }
    }
    assert(has_property(t, other) == has_property(s, other)) by {
        if has_property(s, other) {
            let j = choose|j: int| 0 <= j < s.len() && (#[trigger] s[j]).key@ == other;
            assert(t[j].key@ == other);
        }
        if has_property(t, other) {
            let j = choose|j: int| 0 <= j < t.len() && (#[trigger] t[j]).key@ == other;
            if j < s.len() {
                assert(s[j].key@ == other);
            }
        }
    }
    if has_property(s, other) {
        lemma_first_key_exists(s, other);
        lemma_first_key_exists(t, other);
        let a = first_key_index(s, other);
        let b = first_key_index(t, other);
        if a < b {
            assert(t[a].key@ == other);
        }
        if b < a {
            assert(s[b].key@ == other);
        }
    }
}

} // verus!
