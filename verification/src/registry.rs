//! The component registry: which component types are known, under which names, categories and
//! numeric ids.
//!
//! A component type is known here by its type key, a `u64` that the host assigns to each Rust
//! type it registers; the per-type closures that act on a world stay with the host.
use crate::assoc::{assoc_map, has_key, lemma_assoc_absent, lemma_assoc_at, lemma_assoc_push, lemma_assoc_update, unique_keys};
use crate::components::{numeric_id_from_hash, spec_numeric_id, ComponentDescriptor, DescriptorView};
use crate::text::str_eq;
use vstd::prelude::*;

verus! {

/// One registered component type.
struct RegisteredType {
    type_key: u64,
    numeric_id: u64,
    descriptor: ComponentDescriptor,
}

/// A registered type as a map entry: its key, then its numeric id and descriptor.
spec fn entry_view(e: RegisteredType) -> (u64, (u64, DescriptorView)) {
    (e.type_key, (e.numeric_id, e.descriptor@))
}

/// The descriptors found for `keys`, in their order, skipping keys that are not registered.
pub open spec fn descriptors_of(keys: Seq<u64>, registered: Map<u64, (u64, DescriptorView)>) -> Seq<
    DescriptorView,
>
    decreases keys.len(),
{
    if keys.len() == 0 {
        Seq::empty()
    } else {
        let rest = descriptors_of(keys.drop_last(), registered);
        if registered.dom().contains(keys.last()) {
            rest.push(registered[keys.last()].1)
        } else {
            rest
        }
    }
}

/// Sets the value of `name` in a name-to-key list, adding an entry when the name is new.
fn upsert_named_key(v: &mut Vec<(String, u64)>, name: String, key: u64)
    requires
        unique_keys(old(v)@.map_values(|e: (String, u64)| (e.0@, e.1))),
    ensures
        unique_keys(final(v)@.map_values(|e: (String, u64)| (e.0@, e.1))),
        assoc_map(final(v)@.map_values(|e: (String, u64)| (e.0@, e.1))) == assoc_map(
            old(v)@.map_values(|e: (String, u64)| (e.0@, e.1)),
        ).insert(name@, key),
{
    let ghost s = v@.map_values(|e: (String, u64)| (e.0@, e.1));
    let mut i: usize = 0;
    while i < v.len()
        invariant
            s == v@.map_values(|e: (String, u64)| (e.0@, e.1)),
            s == old(v)@.map_values(|e: (String, u64)| (e.0@, e.1)),
            unique_keys(s),
            i <= v@.len(),
            forall|j: int| 0 <= j < i ==> (#[trigger] v@[j]).0@ != name@,
        decreases v@.len() - i,
    {
        if str_eq(v[i].0.as_str(), name.as_str()) {
            proof {
                lemma_assoc_update(s, i as int, key);
            }
            let ghost n = v@[i as int].0@;
            v.set(i, (name, key));
            assert(v@.map_values(|e: (String, u64)| (e.0@, e.1)) =~= s.update(
                i as int,
                (s[i as int].0, key),
            ));
            return;
        }
        i = i + 1;
    }
    proof {
        assert(!has_key(s, name@)) by {
            if has_key(s, name@) {
                let j = choose|j: int| 0 <= j < s.len() && (#[trigger] s[j]).0 == name@;
                assert(v@[j].0@ == name@);
            }
        }
        lemma_assoc_push(s, name@, key);
    }
    v.push((name, key));
    assert(v@.map_values(|e: (String, u64)| (e.0@, e.1)) =~= s.push((name@, key)));
}

/// Sets the value of `k` in a key-to-key list, adding an entry when the key is new.
fn upsert_key(v: &mut Vec<(u64, u64)>, k: u64, value: u64)
    requires
        unique_keys(old(v)@),
    ensures
        unique_keys(final(v)@),
        assoc_map(final(v)@) == assoc_map(old(v)@).insert(k, value),
{
    let ghost s = v@;
    let mut i: usize = 0;
    while i < v.len()
        invariant
            s == v@,
            s == old(v)@,
            unique_keys(s),
            i <= v@.len(),
            forall|j: int| 0 <= j < i ==> (#[trigger] v@[j]).0 != k,
        decreases v@.len() - i,
    {
        if v[i].0 == k {
            proof {
                lemma_assoc_update(s, i as int, value);
            }
            v.set(i, (k, value));
            assert(v@ =~= s.update(i as int, (s[i as int].0, value)));
            return;
        }
        i = i + 1;
    }
    proof {
        assert(!has_key(s, k)) by {
            if has_key(s, k) {
                let j = choose|j: int| 0 <= j < s.len() && (#[trigger] s[j]).0 == k;
                assert(v@[j].0 == k);
            }
        }
        lemma_assoc_push(s, k, value);
    }
    v.push((k, value));
}

/// Appends `key` to the list of category `name`, creating the category when it is new.
fn push_to_category(v: &mut Vec<(String, Vec<u64>)>, name: String, key: u64)
    requires
        unique_keys(old(v)@.map_values(|e: (String, Vec<u64>)| (e.0@, e.1@))),
    ensures
        unique_keys(final(v)@.map_values(|e: (String, Vec<u64>)| (e.0@, e.1@))),
        ({
            let before = assoc_map(old(v)@.map_values(|e: (String, Vec<u64>)| (e.0@, e.1@)));
            let list = if before.dom().contains(name@) {
                before[name@]
            } else {
                Seq::<u64>::empty()
            };
            assoc_map(final(v)@.map_values(|e: (String, Vec<u64>)| (e.0@, e.1@))) == before.insert(
                name@,
                list.push(key),
            )
        }),
{
    let ghost s = v@.map_values(|e: (String, Vec<u64>)| (e.0@, e.1@));
    let mut i: usize = 0;
    while i < v.len()
        invariant
            s == v@.map_values(|e: (String, Vec<u64>)| (e.0@, e.1@)),
            s == old(v)@.map_values(|e: (String, Vec<u64>)| (e.0@, e.1@)),
            unique_keys(s),
            i <= v@.len(),
            forall|j: int| 0 <= j < i ==> (#[trigger] v@[j]).0@ != name@,
        decreases v@.len() - i,
    {
        if str_eq(v[i].0.as_str(), name.as_str()) {
            proof {
                lemma_assoc_at(s, i as int);
                lemma_assoc_update(s, i as int, s[i as int].1.push(key));
            }
            let (n, mut list) = v.remove(i);
            list.push(key);
            v.insert(i, (n, list));
            assert(v@.map_values(|e: (String, Vec<u64>)| (e.0@, e.1@)) =~= s.update(
                i as int,
                (s[i as int].0, s[i as int].1.push(key)),
            ));
            return;
        }
        i = i + 1;
    }
    proof {
        assert(!has_key(s, name@)) by {
            if has_key(s, name@) {
                let j = choose|j: int| 0 <= j < s.len() && (#[trigger] s[j]).0 == name@;
                assert(v@[j].0@ == name@);
            }
        }
        lemma_assoc_push(s, name@, seq![key]);
    }
    let mut list: Vec<u64> = Vec::new();
    list.push(key);
    v.push((name, list));
    assert(v@.map_values(|e: (String, Vec<u64>)| (e.0@, e.1@)) =~= s.push((name@, seq![key])));
    assert(Seq::<u64>::empty().push(key) =~= seq![key]);
}

/// Sets the entry for the type key of `e`, appending it when the key is new.
fn upsert_entry(v: &mut Vec<RegisteredType>, e: RegisteredType)
    requires
        unique_keys(old(v)@.map_values(|x: RegisteredType| entry_view(x))),
    ensures
        unique_keys(final(v)@.map_values(|x: RegisteredType| entry_view(x))),
        assoc_map(final(v)@.map_values(|x: RegisteredType| entry_view(x))) == assoc_map(
            old(v)@.map_values(|x: RegisteredType| entry_view(x)),
        ).insert(e.type_key, (e.numeric_id, e.descriptor@)),
        final(v)@.map_values(|x: RegisteredType| x.type_key) == (if has_key(
            old(v)@.map_values(|x: RegisteredType| entry_view(x)),
            e.type_key,
        ) {
            old(v)@.map_values(|x: RegisteredType| x.type_key)
        } else {
            old(v)@.map_values(|x: RegisteredType| x.type_key).push(e.type_key)
        }),
{
    let ghost s = v@.map_values(|x: RegisteredType| entry_view(x));
    let ghost o = v@.map_values(|x: RegisteredType| x.type_key);
    let ghost ev = entry_view(e);
    let mut i: usize = 0;
    while i < v.len()
        invariant
            s == v@.map_values(|x: RegisteredType| entry_view(x)),
            s == old(v)@.map_values(|x: RegisteredType| entry_view(x)),
            o == old(v)@.map_values(|x: RegisteredType| x.type_key),
            v@ == old(v)@,
            ev == entry_view(e),
            unique_keys(s),
            i <= v@.len(),
            forall|j: int| 0 <= j < i ==> (#[trigger] v@[j]).type_key != e.type_key,
        decreases v@.len() - i,
    {
        if v[i].type_key == e.type_key {
            proof {
                lemma_assoc_update(s, i as int, ev.1);
                assert(has_key(s, e.type_key)) by {
                    assert(s[i as int].0 == e.type_key);
                }
            }
            v.set(i, e);
            assert(v@.map_values(|x: RegisteredType| entry_view(x)) =~= s.update(
                i as int,
                (s[i as int].0, ev.1),
            ));
            assert(v@.map_values(|x: RegisteredType| x.type_key) =~= o);
            return;
        }
        i = i + 1;
    }
    proof {
        assert(!has_key(s, e.type_key)) by {
            if has_key(s, e.type_key) {
                let j = choose|j: int| 0 <= j < s.len() && (#[trigger] s[j]).0 == e.type_key;
                assert(v@[j].type_key == e.type_key);
            }
        }
        lemma_assoc_push(s, e.type_key, ev.1);
    }
    v.push(e);
    assert(v@.map_values(|x: RegisteredType| entry_view(x)) =~= s.push(ev));
    assert(v@.map_values(|x: RegisteredType| x.type_key) =~= o.push(ev.0));
}

/// Index of the component types known to the editor and the runtime.
pub struct ComponentRegistry {
    entries: Vec<RegisteredType>,
    fqtn_to_type: Vec<(String, u64)>,
    categories: Vec<(String, Vec<u64>)>,
    serialized_to_component: Vec<(u64, u64)>,
}

impl ComponentRegistry {
    /// Registered types by key: their numeric id and descriptor.
    pub closed spec fn registered(self) -> Map<u64, (u64, DescriptorView)> {
        assoc_map(self.entries@.map_values(|e: RegisteredType| entry_view(e)))
    }

    /// The registered type keys, in the order they were first registered.
    pub closed spec fn order(self) -> Seq<u64> {
        self.entries@.map_values(|e: RegisteredType| e.type_key)
    }

    /// Fully qualified type names to type keys.
    pub closed spec fn fqtn_index(self) -> Map<Seq<char>, u64> {
        assoc_map(self.fqtn_to_type@.map_values(|e: (String, u64)| (e.0@, e.1)))
    }

    /// Category names to the type keys filed under them, in registration order.
    pub closed spec fn category_index(self) -> Map<Seq<char>, Seq<u64>> {
        assoc_map(self.categories@.map_values(|e: (String, Vec<u64>)| (e.0@, e.1@)))
    }

    /// Type keys of serialized forms to the type keys of their components.
    pub closed spec fn serialized_index(self) -> Map<u64, u64> {
        assoc_map(self.serialized_to_component@)
    }

    /// Every index points at registered types.
    pub open spec fn resolves(self) -> bool {
        &&& forall|f: Seq<char>| #[trigger]
            self.fqtn_index().dom().contains(f) ==> self.registered().dom().contains(
                self.fqtn_index()[f],
            )
        &&& forall|s: u64| #[trigger]
            self.serialized_index().dom().contains(s) ==> self.registered().dom().contains(
                self.serialized_index()[s],
            )
        &&& forall|c: Seq<char>, i: int| #[trigger]
            self.category_index().dom().contains(c) && 0 <= i < self.category_index()[c].len()
                ==> self.registered().dom().contains(#[trigger] self.category_index()[c][i])
    }

    /// The lists behind the indices have one entry per key, and the indices resolve.
    pub closed spec fn wf(self) -> bool {
        &&& unique_keys(self.entries@.map_values(|e: RegisteredType| entry_view(e)))
        &&& unique_keys(self.fqtn_to_type@.map_values(|e: (String, u64)| (e.0@, e.1)))
        &&& unique_keys(self.categories@.map_values(|e: (String, Vec<u64>)| (e.0@, e.1@)))
        &&& unique_keys(self.serialized_to_component@)
        &&& self.resolves()
    }

    /// The position of the entry for `type_key`.
    fn find_entry(&self, type_key: u64) -> (r: Option<usize>)
        ensures
            r matches Some(i) ==> i < self.entries@.len() && self.entries@[i as int].type_key
                == type_key,
            r is None ==> forall|j: int|
                0 <= j < self.entries@.len() ==> (#[trigger] self.entries@[j]).type_key != type_key,
    {
        let mut i: usize = 0;
        while i < self.entries.len()
            invariant
                i <= self.entries@.len(),
                forall|j: int| 0 <= j < i ==> (#[trigger] self.entries@[j]).type_key != type_key,
            decreases self.entries@.len() - i,
        {
            if self.entries[i].type_key == type_key {
                return Some(i);
            }
            i = i + 1;
        }
        None
    }

    /// The position of the index entry for the type name `fqtn`.
    fn find_fqtn(&self, fqtn: &str) -> (r: Option<usize>)
        ensures
            r matches Some(i) ==> i < self.fqtn_to_type@.len() && self.fqtn_to_type@[i as int].0@
                == fqtn@,
            r is None ==> forall|j: int|
                0 <= j < self.fqtn_to_type@.len() ==> (#[trigger] self.fqtn_to_type@[j]).0@
                    != fqtn@,
    {
        let mut i: usize = 0;
        while i < self.fqtn_to_type.len()
            invariant
                i <= self.fqtn_to_type@.len(),
                forall|j: int| 0 <= j < i ==> (#[trigger] self.fqtn_to_type@[j]).0@ != fqtn@,
            decreases self.fqtn_to_type@.len() - i,
        {
            if str_eq(self.fqtn_to_type[i].0.as_str(), fqtn) {
                return Some(i);
            }
            i = i + 1;
        }
        None
    }

    /// The position of the category named `category`.
    fn find_category(&self, category: &str) -> (r: Option<usize>)
        ensures
            r matches Some(i) ==> i < self.categories@.len() && self.categories@[i as int].0@
                == category@,
            r is None ==> forall|j: int|
                0 <= j < self.categories@.len() ==> (#[trigger] self.categories@[j]).0@
                    != category@,
    {
        let mut i: usize = 0;
        while i < self.categories.len()
            invariant
                i <= self.categories@.len(),
                forall|j: int| 0 <= j < i ==> (#[trigger] self.categories@[j]).0@ != category@,
            decreases self.categories@.len() - i,
        {
            if str_eq(self.categories[i].0.as_str(), category) {
                return Some(i);
            }
            i = i + 1;
        }
        None
    }

    /// The position of the entry for the serialized form `serialized_key`.
    fn find_serialized(&self, serialized_key: u64) -> (r: Option<usize>)
        ensures
            r matches Some(i) ==> i < self.serialized_to_component@.len()
                && self.serialized_to_component@[i as int].0 == serialized_key,
            r is None ==> forall|j: int|
                0 <= j < self.serialized_to_component@.len()
                    ==> (#[trigger] self.serialized_to_component@[j]).0 != serialized_key,
    {
        let mut i: usize = 0;
        while i < self.serialized_to_component.len()
            invariant
                i <= self.serialized_to_component@.len(),
                forall|j: int|
                    0 <= j < i ==> (#[trigger] self.serialized_to_component@[j]).0
                        != serialized_key,
            decreases self.serialized_to_component@.len() - i,
        {
            if self.serialized_to_component[i].0 == serialized_key {
                return Some(i);
            }
            i = i + 1;
        }
        None
    }

    /// The descriptor of the component type `type_key`, if it is registered.
    pub fn get_descriptor(&self, type_key: u64) -> (r: Option<&ComponentDescriptor>)
        requires
            self.wf(),
        ensures
            r is Some <==> self.registered().dom().contains(type_key),
            r matches Some(d) ==> d@ == self.registered()[type_key].1,
    {
        let ghost s = self.entries@.map_values(|e: RegisteredType| entry_view(e));
        match self.find_entry(type_key) {
            Some(i) => {
                proof {
                    lemma_assoc_at(s, i as int);
                }
                Some(&self.entries[i].descriptor)
            },
            None => {
                proof {
                    assert forall|j: int| 0 <= j < s.len() implies (#[trigger] s[j]).0 != type_key by {
                        assert(self.entries@[j].type_key != type_key);
                    }
                    lemma_assoc_absent(s, type_key);
                }
                None
            },
        }
    }

    /// Whether the component type `type_key` is registered.
    pub fn is_registered(&self, type_key: u64) -> (r: bool)
        requires
            self.wf(),
        ensures
            r == self.registered().dom().contains(type_key),
    {
        self.get_descriptor(type_key).is_some()
    }

    /// The type key registered under the fully qualified type name `fqtn`.
    pub fn get_type_id(&self, fqtn: &str) -> (r: Option<u64>)
        requires
            self.wf(),
        ensures
            r == (if self.fqtn_index().dom().contains(fqtn@) {
                Some(self.fqtn_index()[fqtn@])
            } else {
                None::<u64>
            }),
    {
        let ghost s = self.fqtn_to_type@.map_values(|e: (String, u64)| (e.0@, e.1));
        match self.find_fqtn(fqtn) {
            Some(i) => {
                proof {
                    lemma_assoc_at(s, i as int);
                }
                Some(self.fqtn_to_type[i].1)
            },
            None => {
                proof {
                    assert forall|j: int| 0 <= j < s.len() implies (#[trigger] s[j]).0 != fqtn@ by {
                        assert(self.fqtn_to_type@[j].0@ != fqtn@);
                    }
                    lemma_assoc_absent(s, fqtn@);
                }
                None
            },
        }
    }

    /// The descriptor of the component type registered under the fully qualified name `fqtn`.
    pub fn get_descriptor_by_fqtn(&self, fqtn: &str) -> (r: Option<&ComponentDescriptor>)
        requires
            self.wf(),
        ensures
            r is Some <==> self.fqtn_index().dom().contains(fqtn@),
            r matches Some(d) ==> d@ == self.registered()[self.fqtn_index()[fqtn@]].1,
    {
        match self.get_type_id(fqtn) {
            Some(k) => self.get_descriptor(k),
            None => None,
        }
    }

    /// How many component types are registered.
    pub fn count(&self) -> (r: usize)
        requires
            self.wf(),
        ensures
            r == self.order().len(),
    {
        self.entries.len()
    }

    /// The descriptors of all registered types, in registration order.
    pub fn all_descriptors(&self) -> (r: Vec<&ComponentDescriptor>)
        requires
            self.wf(),
        ensures
            r@.len() == self.order().len(),
            forall|i: int|
                0 <= i < r@.len() ==> (#[trigger] r@[i])@ == self.registered()[self.order()[i]].1,
    {
        let ghost s = self.entries@.map_values(|e: RegisteredType| entry_view(e));
        let mut r: Vec<&ComponentDescriptor> = Vec::new();
        let mut i: usize = 0;
        while i < self.entries.len()
            invariant
                self.wf(),
                s == self.entries@.map_values(|e: RegisteredType| entry_view(e)),
                i <= self.entries@.len(),
                r@.len() == i,
                forall|j: int|
                    0 <= j < i ==> (#[trigger] r@[j])@ == self.registered()[self.order()[j]].1,
            decreases self.entries@.len() - i,
        {
            proof {
                lemma_assoc_at(s, i as int);
            }
            r.push(&self.entries[i].descriptor);
            i = i + 1;
        }
        r
    }

    /// Each registered type with its numeric id and descriptor, in registration order.
    pub fn iter_available_components(&self) -> (r: Vec<(u64, &ComponentDescriptor)>)
        requires
            self.wf(),
        ensures
            r@.len() == self.order().len(),
            forall|i: int|
                0 <= i < r@.len() ==> (#[trigger] r@[i]).0 == self.registered()[self.order()[i]].0
                    && r@[i].1@ == self.registered()[self.order()[i]].1,
    {
        let ghost s = self.entries@.map_values(|e: RegisteredType| entry_view(e));
        let mut r: Vec<(u64, &ComponentDescriptor)> = Vec::new();
        let mut i: usize = 0;
        while i < self.entries.len()
            invariant
                self.wf(),
                s == self.entries@.map_values(|e: RegisteredType| entry_view(e)),
                i <= self.entries@.len(),
                r@.len() == i,
                forall|j: int|
                    0 <= j < i ==> (#[trigger] r@[j]).0 == self.registered()[self.order()[j]].0
                        && r@[j].1@ == self.registered()[self.order()[j]].1,
            decreases self.entries@.len() - i,
        {
            proof {
                lemma_assoc_at(s, i as int);
            }
            r.push((self.entries[i].numeric_id, &self.entries[i].descriptor));
            i = i + 1;
        }
        r
    }

    /// The descriptors of the types filed under `category`, in registration order; empty for an
    /// unknown category.
    pub fn descriptors_in_category(&self, category: &str) -> (r: Vec<&ComponentDescriptor>)
        requires
            self.wf(),
        ensures
            r@.map_values(|d: &ComponentDescriptor| d@) == descriptors_of(
                if self.category_index().dom().contains(category@) {
                    self.category_index()[category@]
                } else {
                    Seq::<u64>::empty()
                },
                self.registered(),
            ),
    {
        let ghost s = self.categories@.map_values(|e: (String, Vec<u64>)| (e.0@, e.1@));
        let mut r: Vec<&ComponentDescriptor> = Vec::new();
        match self.find_category(category) {
            Some(c) => {
                proof {
                    lemma_assoc_at(s, c as int);
                }
                let ids = &self.categories[c].1;
                let mut j: usize = 0;
                while j < ids.len()
                    invariant
                        self.wf(),
                        j <= ids@.len(),
                        r@.map_values(|d: &ComponentDescriptor| d@) == descriptors_of(
                            ids@.take(j as int),
                            self.registered(),
                        ),
                    decreases ids@.len() - j,
                {
                    let ghost before = r@.map_values(|d: &ComponentDescriptor| d@);
                    assert(ids@.take(j + 1).drop_last() =~= ids@.take(j as int));
                    assert(ids@.take(j + 1).last() == ids@[j as int]);
                    match self.get_descriptor(ids[j]) {
                        Some(d) => {
                            r.push(d);
                            assert(r@.map_values(|d: &ComponentDescriptor| d@) =~= before.push(
                                d@,
                            ));
                        },
                        None => {},
                    }
                    j = j + 1;
                }
                assert(ids@.take(ids@.len() as int) =~= ids@);
                r
            },
            None => {
                proof {
                    assert forall|j: int| 0 <= j < s.len() implies (#[trigger] s[j]).0 != category@ by {
                        assert(self.categories@[j].0@ != category@);
                    }
                    lemma_assoc_absent(s, category@);
                    assert(r@.map_values(|d: &ComponentDescriptor| d@) =~= Seq::empty());
                }
                r
            },
        }
    }

    /// The names of all categories, each once.
    pub fn categories(&self) -> (r: Vec<String>)
        requires
            self.wf(),
        ensures
            r@.map_values(|n: String| n@).no_duplicates(),
            forall|c: Seq<char>|
                self.category_index().dom().contains(c) <==> r@.map_values(|n: String| n@).contains(
                    c,
                ),
    {
        let ghost s = self.categories@.map_values(|e: (String, Vec<u64>)| (e.0@, e.1@));
        let mut r: Vec<String> = Vec::new();
        let mut i: usize = 0;
        while i < self.categories.len()
            invariant
                self.wf(),
                s == self.categories@.map_values(|e: (String, Vec<u64>)| (e.0@, e.1@)),
                i <= self.categories@.len(),
                r@.len() == i,
                forall|j: int| 0 <= j < i ==> (#[trigger] r@[j])@ == s[j].0,
            decreases self.categories@.len() - i,
        {
            r.push(self.categories[i].0.clone());
            i = i + 1;
        }
        let ghost names = r@.map_values(|n: String| n@);
        assert forall|a: int, b: int| 0 <= a < names.len() && 0 <= b < names.len() && a != b implies names[a] != names[b] by {
            assert(names[a] == s[a].0);
            assert(names[b] == s[b].0);
        }
        assert forall|c: Seq<char>| self.category_index().dom().contains(c) <==> names.contains(c) by {
            if self.category_index().dom().contains(c) {
                assert(has_key(s, c));
                let k = choose|k: int| 0 <= k < s.len() && (#[trigger] s[k]).0 == c;
                assert(names[k] == c);
            }
            if names.contains(c) {
                let k = choose|k: int| 0 <= k < names.len() && names[k] == c;
                assert(s[k].0 == c);
                assert(has_key(s, c));
            }
        }
        r
    }

    /// The numeric id of the component type whose serialized form has the type key
    /// `serialized_key`.
    pub fn id_for_component(&self, serialized_key: u64) -> (r: Option<u64>)
        requires
            self.wf(),
        ensures
            r == (if self.serialized_index().dom().contains(serialized_key) {
                Some(self.registered()[self.serialized_index()[serialized_key]].0)
            } else {
                None::<u64>
            }),
    {
        let ghost t = self.serialized_to_component@;
        let ghost s = self.entries@.map_values(|e: RegisteredType| entry_view(e));
        match self.find_serialized(serialized_key) {
            Some(i) => {
                proof {
                    lemma_assoc_at(t, i as int);
                }
                let type_key = self.serialized_to_component[i].1;
                match self.find_entry(type_key) {
                    Some(j) => {
                        proof {
                            lemma_assoc_at(s, j as int);
                        }
                        Some(self.entries[j].numeric_id)
                    },
                    None => {
                        proof {
                            assert forall|j: int| 0 <= j < s.len() implies (#[trigger] s[j]).0
                                != type_key by {
                                assert(self.entries@[j].type_key != type_key);
                            }
                            lemma_assoc_absent(s, type_key);
                        }
                        None
                    },
                }
            },
            None => {
                proof {
                    assert forall|j: int| 0 <= j < t.len() implies (#[trigger] t[j]).0
                        != serialized_key by {
                        assert(self.serialized_to_component@[j].0 != serialized_key);
                    }
                    lemma_assoc_absent(t, serialized_key);
                }
                None
            },
        }
    }

    /// A registered type key whose numeric id is `id`; `None` when there is none.
    pub fn type_id_from_numeric_id(&self, id: u64) -> (r: Option<u64>)
        requires
            self.wf(),
        ensures
            r is None <==> forall|k: u64| #[trigger]
                self.registered().dom().contains(k) ==> self.registered()[k].0 != id,
            r matches Some(k) ==> self.registered().dom().contains(k) && self.registered()[k].0
                == id,
    {
        let ghost s = self.entries@.map_values(|e: RegisteredType| entry_view(e));
        let mut i: usize = 0;
        while i < self.entries.len()
            invariant
                self.wf(),
                s == self.entries@.map_values(|e: RegisteredType| entry_view(e)),
                i <= self.entries@.len(),
                forall|j: int| 0 <= j < i ==> (#[trigger] self.entries@[j]).numeric_id != id,
            decreases self.entries@.len() - i,
        {
            if self.entries[i].numeric_id == id {
                proof {
                    lemma_assoc_at(s, i as int);
                    let k = self.entries@[i as int].type_key;
                    assert(s[i as int].0 == k);
                    assert(self.registered().dom().contains(k) && self.registered()[k].0 == id);
                }
                return Some(self.entries[i].type_key);
            }
            i = i + 1;
        }
        proof {
            assert forall|k: u64| #[trigger] self.registered().dom().contains(k) implies self.registered()[k].0 != id by {
                let j = choose|j: int| 0 <= j < s.len() && (#[trigger] s[j]).0 == k;
                lemma_assoc_at(s, j);
                assert(self.entries@[j].numeric_id != id);
            }
        }
        None
    }

    /// The descriptor of a registered type whose numeric id is `id`.
    pub fn get_descriptor_by_numeric_id(&self, id: u64) -> (r: Option<&ComponentDescriptor>)
        requires
            self.wf(),
        ensures
            r is None <==> forall|k: u64| #[trigger]
                self.registered().dom().contains(k) ==> self.registered()[k].0 != id,
            r matches Some(d) ==> exists|k: u64|
                self.registered().dom().contains(k) && #[trigger] self.registered()[k].0 == id
                    && d@ == self.registered()[k].1,
    {
        match self.type_id_from_numeric_id(id) {
            Some(k) => self.get_descriptor(k),
            None => None,
        }
    }

    /// Registers the component type `type_key`, whose Rust type hashes to `type_hash` and whose
    /// serialized form has the type key `serialized_key`, under `descriptor`: its fully
    /// qualified name and its serialized form now lead to it, it is appended to its category
    /// (if it has one), and its descriptor and numeric id replace any earlier ones.
    pub fn register(
        &mut self,
        type_key: u64,
        type_hash: u64,
        serialized_key: u64,
        descriptor: ComponentDescriptor,
    )
        requires
            old(self).wf(),
        ensures
            final(self).wf(),
            final(self).fqtn_index() == old(self).fqtn_index().insert(descriptor@.fqtn, type_key),
            final(self).category_index() == (match descriptor@.category {
                Some(c) => old(self).category_index().insert(
                    c,
                    (if old(self).category_index().dom().contains(c) {
                        old(self).category_index()[c]
                    } else {
                        Seq::<u64>::empty()
                    }).push(type_key),
                ),
                None => old(self).category_index(),
            }),
            final(self).registered() == old(self).registered().insert(
                type_key,
                (spec_numeric_id(type_hash), descriptor@),
            ),
            final(self).serialized_index() == old(self).serialized_index().insert(
                serialized_key,
                type_key,
            ),
            final(self).order() == (if old(self).registered().dom().contains(type_key) {
                old(self).order()
            } else {
                old(self).order().push(type_key)
            }),
    {
        let ghost before = *self;
        upsert_named_key(&mut self.fqtn_to_type, descriptor.fqtn.clone(), type_key);
        match &descriptor.category {
            Some(cat) => {
                push_to_category(&mut self.categories, cat.clone(), type_key);
            },
            None => {},
        }
        let numeric_id = numeric_id_from_hash(type_hash);
        upsert_entry(&mut self.entries, RegisteredType { type_key, numeric_id, descriptor });
        upsert_key(&mut self.serialized_to_component, serialized_key, type_key);
        proof {
            let reg = self.registered();
            assert(reg.dom().contains(type_key));
            assert(before.resolves());
            assert forall|f: Seq<char>| #[trigger] self.fqtn_index().dom().contains(f) implies reg.dom().contains(self.fqtn_index()[f]) by {
                if f != descriptor@.fqtn {
                    assert(before.fqtn_index().dom().contains(f));
                }
            }
            assert forall|k: u64| #[trigger] self.serialized_index().dom().contains(k) implies reg.dom().contains(self.serialized_index()[k]) by {
                if k != serialized_key {
                    assert(before.serialized_index().dom().contains(k));
                }
            }
            assert forall|c: Seq<char>, i: int| #[trigger]
                self.category_index().dom().contains(c) && 0 <= i
                    < self.category_index()[c].len() implies reg.dom().contains(
                #[trigger] self.category_index()[c][i],
            ) by {
                if before.category_index().dom().contains(c) && i
                    < before.category_index()[c].len() {
                    assert(self.category_index()[c][i] == before.category_index()[c][i]);
                }
            }
        }
    }

    /// An empty registry.
    pub fn new() -> (r: Self)
        ensures
            r.wf(),
            r.registered() == Map::<u64, (u64, DescriptorView)>::empty(),
            r.order() == Seq::<u64>::empty(),
            r.fqtn_index() == Map::<Seq<char>, u64>::empty(),
            r.category_index() == Map::<Seq<char>, Seq<u64>>::empty(),
            r.serialized_index() == Map::<u64, u64>::empty(),
    {
        let r = ComponentRegistry {
            entries: Vec::new(),
            fqtn_to_type: Vec::new(),
            categories: Vec::new(),
            serialized_to_component: Vec::new(),
        };
        assert(r.registered() =~= Map::empty());
        assert(r.order() =~= Seq::empty());
        assert(r.fqtn_index() =~= Map::empty());
        assert(r.category_index() =~= Map::empty());
        assert(r.serialized_index() =~= Map::empty());
        r
    }
}

impl Default for ComponentRegistry {
    fn default() -> (r: Self)
        ensures
            r.wf(),
            r.registered() == Map::<u64, (u64, DescriptorView)>::empty(),
            r.order() == Seq::<u64>::empty(),
            r.fqtn_index() == Map::<Seq<char>, u64>::empty(),
            r.category_index() == Map::<Seq<char>, Seq<u64>>::empty(),
            r.serialized_index() == Map::<u64, u64>::empty(),
    {
        ComponentRegistry::new()
    }
}

/// Law: in a well-formed registry every fully qualified name, every serialized form and every
/// category entry leads to a registered type.
pub proof fn law_indices_resolve(r: ComponentRegistry)
    requires
        r.wf(),
    ensures
        r.resolves(),
{
}

/// Law: the registration order lists each registered type exactly once, so that `count` is the
/// number of registered types.
pub proof fn law_order_lists_registered(r: ComponentRegistry)
    requires
        r.wf(),
    ensures
        r.order().no_duplicates(),
        forall|k: u64| r.registered().dom().contains(k) <==> r.order().contains(k),
        r.order().len() == r.registered().dom().len(),
{
    let s = r.entries@.map_values(|e: RegisteredType| entry_view(e));
    let o = r.order();
    assert(forall|i: int| 0 <= i < o.len() ==> o[i] == (#[trigger] s[i]).0);
    assert forall|k: u64| r.registered().dom().contains(k) <==> o.contains(k) by {
        if has_key(s, k) {
            let i = choose|i: int| 0 <= i < s.len() && (#[trigger] s[i]).0 == k;
            assert(o[i] == k);
        }
        if o.contains(k) {
            let i = choose|i: int| 0 <= i < o.len() && o[i] == k;
            assert(s[i].0 == k);
        }
    }
    assert forall|a: int, b: int| 0 <= a < o.len() && 0 <= b < o.len() && a != b implies o[a]
        != o[b] by {
        assert(s[a].0 != s[b].0);
    }
    o.unique_seq_to_set();
    assert(o.to_set() =~= r.registered().dom());
}

/// Law: once `register(type_key, type_hash, serialized_key, descriptor)` has run, the type is
/// registered with that descriptor and the numeric id of its hash, and its fully qualified name
/// and its serialized form both lead back to it.
pub proof fn law_register_then_lookup(
    registered: Map<u64, (u64, DescriptorView)>,
    fqtn_index: Map<Seq<char>, u64>,
    serialized_index: Map<u64, u64>,
    type_key: u64,
    type_hash: u64,
    serialized_key: u64,
    descriptor: DescriptorView,
)
    ensures
        ({
            let reg2 = registered.insert(type_key, (spec_numeric_id(type_hash), descriptor));
            let names2 = fqtn_index.insert(descriptor.fqtn, type_key);
            let ser2 = serialized_index.insert(serialized_key, type_key);
            &&& reg2.dom().contains(names2[descriptor.fqtn])
            &&& reg2[names2[descriptor.fqtn]].1 == descriptor
            &&& reg2[ser2[serialized_key]].0 == spec_numeric_id(type_hash)
            &&& reg2[type_key].0 != 0
        }),
{
}

} // verus!
