//! Parent and child links between the entities of a `hecs` world.
use crate::hierarchy::{ancestors_upto, lemma_reaches_root_mono, lemma_search_mono, meets_within, reaches_root, search_ends};
use vstd::prelude::*;

verus! {

/// An entity world of the `hecs` crate.
#[verifier::external_type_specification]
#[verifier::external_body]
pub struct ExWorld(hecs::World);

/// The component that lists the children of an entity, by entity id (`hecs::Entity::to_bits`).
#[derive(Debug)]
pub struct Children(pub Vec<u64>);

/// The component that names the parent of an entity, by entity id.
#[derive(Debug, Clone, Copy, PartialEq, Eq, Structural)]
pub struct Parent(pub u64);

/// What the hierarchy components of a world hold: for each live entity (by id), its `Parent`
/// component and its `Children` component, each when present.
pub uninterp spec fn world_links(w: hecs::World) -> Map<u64, (Option<u64>, Option<Seq<u64>>)>;

/// The parent that the world records for `e`.
pub open spec fn parent_in(h: Map<u64, (Option<u64>, Option<Seq<u64>>)>, e: u64) -> Option<u64> {
    if h.dom().contains(e) {
        h[e].0
    } else {
        None
    }
}

/// The children list that the world records for `e`.
pub open spec fn children_in(h: Map<u64, (Option<u64>, Option<Seq<u64>>)>, e: u64) -> Option<Seq<u64>> {
    if h.dom().contains(e) {
        h[e].1
    } else {
        None
    }
}

/// The parent relation of the world, as a map from child to parent.
pub open spec fn parent_relation(h: Map<u64, (Option<u64>, Option<Seq<u64>>)>) -> Map<u64, u64> {
    Map::new(|e: u64| parent_in(h, e) is Some, |e: u64| parent_in(h, e)->Some_0)
}

/// `s` without the occurrences of `x`.
pub open spec fn ids_without(s: Seq<u64>, x: u64) -> Seq<u64>
    decreases s.len(),
{
    if s.len() == 0 {
        s
    } else if s.last() == x {
        ids_without(s.drop_last(), x)
    } else {
        ids_without(s.drop_last(), x).push(s.last())
    }
}

/// `s` with `x` appended unless it holds `x` already.
pub open spec fn ids_with(s: Seq<u64>, x: u64) -> Seq<u64> {
    if s.contains(x) {
        s
    } else {
        s.push(x)
    }
}

/// The `Parent` component of the entity `e`, if it is alive and has one.
#[verifier::external_body]
fn parent_component(w: &hecs::World, e: u64) -> (r: Option<u64>)
    ensures
        r == parent_in(world_links(*w), e),
{
    hecs::Entity::from_bits(e).and_then(|ent| w.get::<&Parent>(ent).ok().map(|p| p.0))
}

/// A copy of the `Children` component of the entity `e`, if it is alive and has one.
#[verifier::external_body]
fn children_component(w: &hecs::World, e: u64) -> (r: Option<Vec<u64>>)
    ensures
        match r {
            Some(v) => children_in(world_links(*w), e) == Some(v@),
            None => children_in(world_links(*w), e) is None,
        },
{
    hecs::Entity::from_bits(e).and_then(|ent| w.get::<&Children>(ent).ok().map(|c| c.0.clone()))
}

/// `World::insert_one` of a `Parent` component: sets (or replaces) the parent of `child` when
/// it is alive; a dead entity is left alone.
#[verifier::external_body]
fn insert_parent(w: &mut hecs::World, child: u64, parent: u64)
    ensures
        world_links(*final(w)) == (if world_links(*old(w)).dom().contains(child) {
            world_links(*old(w)).insert(child, (Some(parent), world_links(*old(w))[child].1))
        } else {
            world_links(*old(w))
        }),
{
    if let Some(ent) = hecs::Entity::from_bits(child) {
        let _ = w.insert_one(ent, Parent(parent));
    }
}

/// `World::insert_one` of a `Children` component: sets (or replaces) the children of `e` when it
/// is alive; a dead entity is left alone.
#[verifier::external_body]
fn insert_children(w: &mut hecs::World, e: u64, children: Vec<u64>)
    ensures
        world_links(*final(w)) == (if world_links(*old(w)).dom().contains(e) {
            world_links(*old(w)).insert(e, (world_links(*old(w))[e].0, Some(children@)))
        } else {
            world_links(*old(w))
        }),
{
    if let Some(ent) = hecs::Entity::from_bits(e) {
        let _ = w.insert_one(ent, Children(children));
    }
}

/// `World::remove_one` of the `Parent` component of `child`, when it has one.
#[verifier::external_body]
fn remove_parent_component(w: &mut hecs::World, child: u64)
    ensures
        world_links(*final(w)) == (if world_links(*old(w)).dom().contains(child) {
            world_links(*old(w)).insert(child, (None, world_links(*old(w))[child].1))
        } else {
            world_links(*old(w))
        }),
{
    if let Some(ent) = hecs::Entity::from_bits(child) {
        let _ = w.remove_one::<Parent>(ent);
    }
}

impl Children {
    /// A children component holding `children`.
    pub fn new(children: Vec<u64>) -> (r: Self)
        ensures
            r.0@ == children@,
    {
        Children(children)
    }

    /// The child entities, in order.
    pub fn children(&self) -> (r: &[u64])
        ensures
            r@ == self.0@,
    {
        self.0.as_slice()
    }

    /// Adds `child` at the end unless it is listed already.
    pub fn push(&mut self, child: u64)
        ensures
            final(self).0@ == ids_with(old(self).0@, child),
    {
        let mut i: usize = 0;
        while i < self.0.len()
            invariant
                i <= self.0@.len(),
                forall|j: int| 0 <= j < i ==> self.0@[j] != child,
            decreases self.0@.len() - i,
        {
            if self.0[i] == child {
                assert(self.0@.contains(child));
                return;
            }
            i += 1;
        }
        self.0.push(child);
    }

    /// Removes every occurrence of `child`, keeping the order of the others.
    pub fn remove(&mut self, child: u64)
        ensures
            final(self).0@ == ids_without(old(self).0@, child),
    {
        let ghost orig = self.0@;
        let mut kept: Vec<u64> = Vec::new();
        let mut i: usize = 0;
        while i < self.0.len()
            invariant
                self.0@ == orig,
                i <= orig.len(),
                kept@ == ids_without(orig.take(i as int), child),
            decreases orig.len() - i,
        {
            assert(orig.take(i + 1).drop_last() =~= orig.take(i as int));
            if self.0[i] != child {
                kept.push(self.0[i]);
            }
            i += 1;
        }
        assert(orig.take(orig.len() as int) =~= orig);
        self.0 = kept;
    }

    /// Removes every child.
    pub fn clear(&mut self)
        ensures
            final(self).0@ == Seq::<u64>::empty(),
    {
        self.0.clear();
    }

    /// Whether no child is listed.
    pub fn is_empty(&self) -> (r: bool)
        ensures
            r == (self.0@.len() == 0),
    {
        self.0.len() == 0
    }
}

impl Parent {
    /// A parent component naming `parent`.
    pub fn new(parent: u64) -> (r: Self)
        ensures
            r.0 == parent,
    {
        Parent(parent)
    }

    /// The parent entity.
    pub fn parent(&self) -> (r: u64)
        ensures
            r == self.0,
    {
        self.0
    }
}

/// The hierarchy links once `child` has left the list of its current parent, if it has one.
pub open spec fn world_detach(h: Map<u64, (Option<u64>, Option<Seq<u64>>)>, child: u64) -> Map<
    u64,
    (Option<u64>, Option<Seq<u64>>),
> {
    match parent_in(h, child) {
        Some(op) => match children_in(h, op) {
            Some(list) => h.insert(op, (h[op].0, Some(ids_without(list, child)))),
            None => h,
        },
        None => h,
    }
}

/// The hierarchy links once `child` is in the list of `parent` (a new list when `parent` is
/// alive without one).
pub open spec fn world_attach(h: Map<u64, (Option<u64>, Option<Seq<u64>>)>, child: u64, parent: u64) -> Map<
    u64,
    (Option<u64>, Option<Seq<u64>>),
> {
    match children_in(h, parent) {
        Some(list) => h.insert(parent, (h[parent].0, Some(ids_with(list, child)))),
        None => if h.dom().contains(parent) {
            h.insert(parent, (h[parent].0, Some(seq![child])))
        } else {
            h
        },
    }
}

/// The hierarchy links once the parent of `child` is set to `parent` (when `child` is alive).
pub open spec fn world_set_parent_component(
    h: Map<u64, (Option<u64>, Option<Seq<u64>>)>,
    child: u64,
    parent: u64,
) -> Map<u64, (Option<u64>, Option<Seq<u64>>)> {
    if h.dom().contains(child) {
        h.insert(child, (Some(parent), h[child].1))
    } else {
        h
    }
}

/// `ids_without(s, x)` holds no `x`, and holds every other element of `s`.
proof fn lemma_ids_without(s: Seq<u64>, x: u64, y: u64)
    ensures
        !ids_without(s, x).contains(x),
        y != x ==> (ids_without(s, x).contains(y) <==> s.contains(y)),
    decreases s.len(),
{
    if s.len() > 0 {
        let t = s.drop_last();
        lemma_ids_without(t, x, y);
        let r = ids_without(t, x);
        if s.last() != x {
            assert(r.push(s.last()).last() == s.last());
            assert forall|z: u64| r.push(s.last()).contains(z) implies r.contains(z) || z == s.last() by {
                let i = choose|i: int| 0 <= i < r.push(s.last()).len() && r.push(s.last())[i] == z;
                if i < r.len() {
                    assert(r[i] == z);
                }
            }
            if r.contains(y) {
                let i = choose|i: int| 0 <= i < r.len() && r[i] == y;
                assert(r.push(s.last())[i] == y);
            }
        }
        if s.contains(y) && y != x {
            let i = choose|i: int| 0 <= i < s.len() && s[i] == y;
            if i < t.len() {
                assert(t[i] == y);
            }
        }
        if t.contains(y) {
            let i = choose|i: int| 0 <= i < t.len() && t[i] == y;
            assert(s[i] == y);
        }
    }
}

/// Law: `push` lists a child once: afterwards the list holds it, pushing it again changes
/// nothing, and a list without repeats stays without; `remove` takes every occurrence of the
/// child out and keeps every other child.
pub proof fn law_children_push_remove(s: Seq<u64>, x: u64, y: u64)
    ensures
        ids_with(s, x).contains(x),
        ids_with(ids_with(s, x), x) == ids_with(s, x),
        s.no_duplicates() ==> ids_with(s, x).no_duplicates(),
        !ids_without(s, x).contains(x),
        y != x ==> (ids_without(s, x).contains(y) <==> s.contains(y)),
{
    if !s.contains(x) {
        assert(s.push(x)[s.len() as int] == x);
        assert(forall|i: int| 0 <= i < s.len() ==> s.push(x)[i] == s[i]);
    }
    lemma_ids_without(s, x, y);
}

/// Law: after `Hierarchy::set_parent(world, child, parent)` on two live entities,
/// `get_parent(child)` is `parent` and `get_children(parent)` lists `child`.
pub proof fn law_world_set_parent_then_get(
    h: Map<u64, (Option<u64>, Option<Seq<u64>>)>,
    child: u64,
    parent: u64,
)
    requires
        h.dom().contains(child),
        h.dom().contains(parent),
    ensures
        ({
            let h2 = world_attach(world_set_parent_component(world_detach(h, child), child, parent), child, parent);
            &&& parent_in(h2, child) == Some(parent)
            &&& children_in(h2, parent) matches Some(l) && l.contains(child)
        }),
{
    let h1 = world_set_parent_component(world_detach(h, child), child, parent);
    match children_in(h1, parent) {
        Some(list) => {
            if !list.contains(child) {
                assert(list.push(child)[list.len() as int] == child);
            }
        },
        None => {
            assert(seq![child][0] == child);
        },
    }
}

/// Law: `Hierarchy::set_parent(world, child, parent)` touches only what it must: no entity
/// appears or disappears, only `child` changes its parent, and every entity other than the old
/// parent of `child` and `parent` keeps its children list exactly as it was (in particular
/// `child` keeps its own children).
pub proof fn law_world_set_parent_frame(
    h: Map<u64, (Option<u64>, Option<Seq<u64>>)>,
    child: u64,
    parent: u64,
    e: u64,
)
    ensures
        ({
            let h2 = world_attach(world_set_parent_component(world_detach(h, child), child, parent), child, parent);
            &&& h2.dom() == h.dom()
            &&& e != child ==> parent_in(h2, e) == parent_in(h, e)
            &&& e != parent && Some(e) != parent_in(h, child) ==> children_in(h2, e) == children_in(h, e)
        }),
{
    let h0 = world_detach(h, child);
    let h1 = world_set_parent_component(h0, child, parent);
    let h2 = world_attach(h1, child, parent);
    assert(h0.dom() =~= h.dom());
    assert(h1.dom() =~= h0.dom());
    assert(h2.dom() =~= h1.dom());
}

/// Helpers that keep the `Parent` and `Children` components of a world in step.
pub struct Hierarchy;

impl Hierarchy {
    /// Makes `parent` the parent of `child`: `child` leaves the children list of its previous
    /// parent, gets a `Parent` component, and joins the children list of `parent` (which is
    /// created when missing).
    pub fn set_parent(world: &mut hecs::World, child: u64, parent: u64)
        ensures
            world_links(*final(world)) == world_attach(
                world_set_parent_component(world_detach(world_links(*old(world)), child), child, parent),
                child,
                parent,
            ),
    {
        if let Some(old_parent) = parent_component(world, child) {
            if let Some(list) = children_component(world, old_parent) {
                let mut c = Children::new(list);
                c.remove(child);
                insert_children(world, old_parent, c.0);
            }
        }
        insert_parent(world, child, parent);
        match children_component(world, parent) {
            Some(list) => {
                let mut c = Children::new(list);
                c.push(child);
                insert_children(world, parent, c.0);
            },
            None => {
                let mut v: Vec<u64> = Vec::new();
                v.push(child);
                assert(v@ =~= seq![child]);
                insert_children(world, parent, v);
            },
        }
    }

    /// Detaches `child` from its parent, if it has one: it leaves the parent's children list and
    /// loses its `Parent` component.
    pub fn remove_parent(world: &mut hecs::World, child: u64)
        ensures
            world_links(*final(world)) == (if parent_in(world_links(*old(world)), child) is Some {
                let d = world_detach(world_links(*old(world)), child);
                d.insert(child, (None, d[child].1))
            } else {
                world_links(*old(world))
            }),
    {
        let mut had_parent = false;
        if let Some(p) = parent_component(world, child) {
            had_parent = true;
            if let Some(list) = children_component(world, p) {
                let mut c = Children::new(list);
                c.remove(child);
                insert_children(world, p, c.0);
            }
        }
        if had_parent {
            remove_parent_component(world, child);
        }
    }

    /// The children of `entity`; empty when it has no `Children` component.
    pub fn get_children(world: &hecs::World, entity: u64) -> (r: Vec<u64>)
        ensures
            r@ == match children_in(world_links(*world), entity) {
                Some(list) => list,
                None => Seq::<u64>::empty(),
            },
    {
        match children_component(world, entity) {
            Some(list) => list,
            None => Vec::new(),
        }
    }

    /// The parent of `entity`, if it has one.
    pub fn get_parent(world: &hecs::World, entity: u64) -> (r: Option<u64>)
        ensures
            r == parent_in(world_links(*world), entity),
    {
        parent_component(world, entity)
    }

    /// The ancestors of `entity`, nearest first. The walk never ends on a cycle of parents, so
    /// `requires` asks that the chain reaches a root.
    pub fn get_ancestors(world: &hecs::World, entity: u64) -> (r: Vec<u64>)
        requires
            exists|n: nat| reaches_root(parent_relation(world_links(*world)), entity, n),
        ensures
            forall|n: nat|
                reaches_root(parent_relation(world_links(*world)), entity, n) ==> r@
                    == ancestors_upto(parent_relation(world_links(*world)), entity, n),
    {
        let ghost pm = parent_relation(world_links(*world));
        let ghost n0 = choose|n: nat| reaches_root(pm, entity, n);
        let mut ancestors: Vec<u64> = Vec::new();
        let mut current = entity;
        let ghost mut k: nat = n0;
        assert(ancestors@ + ancestors_upto(pm, current, k) =~= ancestors_upto(pm, entity, n0));
        loop
            invariant
                pm == parent_relation(world_links(*world)),
                reaches_root(pm, current, k),
                ancestors@ + ancestors_upto(pm, current, k) == ancestors_upto(pm, entity, n0),
            ensures
                ancestors@ == ancestors_upto(pm, entity, n0),
            decreases k,
        {
            match parent_component(world, current) {
                Some(p) => {
                    let ghost prev = ancestors@;
                    ancestors.push(p);
                    proof {
                        assert(pm.dom().contains(current) && pm[current] == p);
                        assert(ancestors_upto(pm, current, k) =~= seq![p].add(
                            ancestors_upto(pm, p, (k - 1) as nat),
                        ));
                        assert(ancestors@ + ancestors_upto(pm, p, (k - 1) as nat) =~= prev
                            + ancestors_upto(pm, current, k));
                        k = (k - 1) as nat;
                    }
                    current = p;
                },
                None => {
                    assert(!pm.dom().contains(current));
                    assert(ancestors@ + ancestors_upto(pm, current, k) =~= ancestors@);
                    break ;
                },
            }
        }
        proof {
            assert forall|n: nat| reaches_root(pm, entity, n) implies ancestors@ == ancestors_upto(
                pm,
                entity,
                n,
            ) by {
                if n <= n0 {
                    lemma_reaches_root_mono(pm, entity, n, n0);
                } else {
                    lemma_reaches_root_mono(pm, entity, n0, n);
                }
            }
        }
        ancestors
    }

    /// Whether `potential_ancestor` is met walking up the parents of `entity`. The walk never
    /// ends on a cycle of parents without `potential_ancestor`, so `requires` asks that it ends.
    pub fn is_descendant_of(world: &hecs::World, entity: u64, potential_ancestor: u64) -> (r: bool)
        requires
            exists|n: nat| search_ends(parent_relation(world_links(*world)), entity, potential_ancestor, n),
        ensures
            forall|n: nat|
                search_ends(parent_relation(world_links(*world)), entity, potential_ancestor, n) ==> r
                    == meets_within(parent_relation(world_links(*world)), entity, potential_ancestor, n),
    {
        let ghost pm = parent_relation(world_links(*world));
        let ghost n0 = choose|n: nat| search_ends(pm, entity, potential_ancestor, n);
        let mut current = entity;
        let ghost mut k: nat = n0;
        let mut found = false;
        loop
            invariant_except_break
                !found,
            invariant
                pm == parent_relation(world_links(*world)),
                search_ends(pm, current, potential_ancestor, k),
                meets_within(pm, current, potential_ancestor, k) == meets_within(pm, entity, potential_ancestor, n0),
            ensures
                found == meets_within(pm, entity, potential_ancestor, n0),
            decreases k,
        {
            match parent_component(world, current) {
                Some(p) => {
                    assert(pm.dom().contains(current) && pm[current] == p);
                    if p == potential_ancestor {
                        found = true;
                        break ;
                    }
                    proof {
                        k = (k - 1) as nat;
                    }
                    current = p;
                },
                None => {
                    assert(!pm.dom().contains(current));
                    break ;
                },
            }
        }
        proof {
            assert forall|n: nat| search_ends(pm, entity, potential_ancestor, n) implies found == meets_within(
                pm,
                entity,
                potential_ancestor,
                n,
            ) by {
                if n <= n0 {
                    lemma_search_mono(pm, entity, potential_ancestor, n, n0);
                } else {
                    lemma_search_mono(pm, entity, potential_ancestor, n0, n);
                }
            }
        }
        found
    }
}

} // verus!
