//! The parent/child structure of a scene, keyed by entity labels.
use crate::assoc::{assoc_map, lemma_assoc_absent, lemma_assoc_at, lemma_assoc_push, lemma_assoc_remove, lemma_assoc_update, unique_keys, has_key};
use crate::label::{lemma_without_contains, lemma_without_no_duplicates, remove_label, texts, without, Label};
use crate::scene::{entity_texts, lookup_entity};
use vstd::prelude::*;

verus! {

/// The entries of a label-to-label list, by their texts.
pub open spec fn pair_texts(s: Seq<(Label, Label)>) -> Seq<(Seq<char>, Seq<char>)> {
    s.map_values(|e: (Label, Label)| (e.0@, e.1@))
}

/// The entries of a label-to-labels list, by their texts.
pub open spec fn group_texts(s: Seq<(Label, Vec<Label>)>) -> Seq<(Seq<char>, Seq<Seq<char>>)> {
    s.map_values(|e: (Label, Vec<Label>)| (e.0@, texts(e.1@)))
}

/// The children map once `child` has left the list of its current parent, if it has one.
pub open spec fn detach_child(
    parents: Map<Seq<char>, Seq<char>>,
    children: Map<Seq<char>, Seq<Seq<char>>>,
    child: Seq<char>,
) -> Map<Seq<char>, Seq<Seq<char>>> {
    if parents.dom().contains(child) && children.dom().contains(parents[child]) {
        children.insert(parents[child], without(children[parents[child]], child))
    } else {
        children
    }
}

/// The children map once `child` is appended to the list of `parent` (created empty if absent).
pub open spec fn attach_child(
    children: Map<Seq<char>, Seq<Seq<char>>>,
    child: Seq<char>,
    parent: Seq<char>,
) -> Map<Seq<char>, Seq<Seq<char>>> {
    let current = if children.dom().contains(parent) {
        children[parent]
    } else {
        Seq::<Seq<char>>::empty()
    };
    children.insert(parent, current.push(child))
}

/// Following parents from `e` reaches an entity without a parent within `n` steps.
pub open spec fn reaches_root<K>(parents: Map<K, K>, e: K, n: nat) -> bool
    decreases n,
{
    if !parents.dom().contains(e) {
        true
    } else if n == 0 {
        false
    } else {
        reaches_root(parents, parents[e], (n - 1) as nat)
    }
}

/// The first `n` ancestors of `e`, nearest first (fewer when the chain ends sooner).
pub open spec fn ancestors_upto<K>(parents: Map<K, K>, e: K, n: nat) -> Seq<K>
    decreases n,
{
    if !parents.dom().contains(e) || n == 0 {
        Seq::empty()
    } else {
        seq![parents[e]].add(ancestors_upto(parents, parents[e], (n - 1) as nat))
    }
}

/// Walking up from `e`, `a` is met or a root is reached within `n` steps.
pub open spec fn search_ends<K>(
    parents: Map<K, K>,
    e: K,
    a: K,
    n: nat,
) -> bool
    decreases n,
{
    if !parents.dom().contains(e) || parents[e] == a {
        true
    } else if n == 0 {
        false
    } else {
        search_ends(parents, parents[e], a, (n - 1) as nat)
    }
}

/// Walking up from `e` for at most `n` steps meets `a`.
pub open spec fn meets_within<K>(
    parents: Map<K, K>,
    e: K,
    a: K,
    n: nat,
) -> bool
    decreases n,
{
    if !parents.dom().contains(e) {
        false
    } else if parents[e] == a {
        true
    } else if n == 0 {
        false
    } else {
        meets_within(parents, parents[e], a, (n - 1) as nat)
    }
}

/// A chain that ends within `n` steps also ends within any larger bound, with the same ancestors.
pub proof fn lemma_reaches_root_mono<K>(parents: Map<K, K>, e: K, n: nat, m: nat)
    requires
        reaches_root(parents, e, n),
        n <= m,
    ensures
        reaches_root(parents, e, m),
        ancestors_upto(parents, e, n) == ancestors_upto(parents, e, m),
    decreases n,
{
    if parents.dom().contains(e) {
        lemma_reaches_root_mono(parents, parents[e], (n - 1) as nat, (m - 1) as nat);
    }
}

/// A search that ends within `n` steps gives the same answer under any larger bound.
pub proof fn lemma_search_mono<K>(
    parents: Map<K, K>,
    e: K,
    a: K,
    n: nat,
    m: nat,
)
    requires
        search_ends(parents, e, a, n),
        n <= m,
    ensures
        search_ends(parents, e, a, m),
        meets_within(parents, e, a, n) == meets_within(parents, e, a, m),
    decreases n,
{
    if parents.dom().contains(e) && parents[e] != a {
        lemma_search_mono(parents, parents[e], a, (n - 1) as nat, (m - 1) as nat);
    }
}

/// The parent map and the children map describe the same relation: each child sits, exactly
/// once, in the list of its parent and in no other list.
pub open spec fn relation_consistent(
    parents: Map<Seq<char>, Seq<char>>,
    children: Map<Seq<char>, Seq<Seq<char>>>,
) -> bool {
    &&& forall|p: Seq<char>, c: Seq<char>|
        #![trigger children[p].contains(c)]
        children.dom().contains(p) ==> (children[p].contains(c) <==> (parents.dom().contains(c)
            && parents[c] == p))
    &&& forall|c: Seq<char>|
        #![trigger parents[c]]
        parents.dom().contains(c) ==> children.dom().contains(parents[c])
    &&& forall|p: Seq<char>|
        #![trigger children[p]]
        children.dom().contains(p) ==> children[p].no_duplicates()
}

/// Detaching a child keeps the two maps in agreement, with the child now parentless.
pub proof fn lemma_detach_consistent(
    parents: Map<Seq<char>, Seq<char>>,
    children: Map<Seq<char>, Seq<Seq<char>>>,
    c: Seq<char>,
)
    requires
        relation_consistent(parents, children),
    ensures
        relation_consistent(parents.remove(c), detach_child(parents, children, c)),
        detach_child(parents, children, c).dom() == children.dom(),
{
    let p1 = parents.remove(c);
    let d = detach_child(parents, children, c);
    if parents.dom().contains(c) {
        let op = parents[c];
        assert(children.dom().contains(op));
        assert(d.dom() =~= children.dom());
        assert forall|q: Seq<char>, x: Seq<char>| d.dom().contains(q) implies (#[trigger] d[q].contains(x)
            <==> (p1.dom().contains(x) && p1[x] == q)) by {
            if q == op {
                lemma_without_contains(children[op], c, x);
                assert(children[op].contains(x) <==> (parents.dom().contains(x) && parents[x] == op));
            } else {
                assert(children[q].contains(x) <==> (parents.dom().contains(x) && parents[x] == q));
                assert(children[q].contains(c) <==> (parents.dom().contains(c) && parents[c] == q));
            }
        }
        assert forall|q: Seq<char>| d.dom().contains(q) implies (#[trigger] d[q]).no_duplicates() by {
            assert(children[q].no_duplicates());
            if q == op {
                lemma_without_no_duplicates(children[op], c);
            }
        }
        assert forall|x: Seq<char>| p1.dom().contains(x) implies d.dom().contains(#[trigger] p1[x]) by {
            assert(children.dom().contains(parents[x]));
        }
    } else {
        assert(p1 =~= parents);
    }
}

/// Appending a parentless child to a list keeps the two maps in agreement.
pub proof fn lemma_attach_consistent(
    parents: Map<Seq<char>, Seq<char>>,
    children: Map<Seq<char>, Seq<Seq<char>>>,
    c: Seq<char>,
    p: Seq<char>,
)
    requires
        relation_consistent(parents, children),
        !parents.dom().contains(c),
    ensures
        relation_consistent(parents.insert(c, p), attach_child(children, c, p)),
{
    let p2 = parents.insert(c, p);
    let a = attach_child(children, c, p);
    let cur = if children.dom().contains(p) {
        children[p]
    } else {
        Seq::<Seq<char>>::empty()
    };
    assert(!cur.contains(c)) by {
        if children.dom().contains(p) {
            assert(children[p].contains(c) <==> (parents.dom().contains(c) && parents[c] == p));
        }
    }
    assert forall|q: Seq<char>, x: Seq<char>| a.dom().contains(q) implies (#[trigger] a[q].contains(x)
        <==> (p2.dom().contains(x) && p2[x] == q)) by {
        if q == p {
            if children.dom().contains(p) {
                assert(children[p].contains(x) <==> (parents.dom().contains(x) && parents[x] == p));
            } else if parents.dom().contains(x) && parents[x] == p {
                assert(children.dom().contains(parents[x]));
            }
            if cur.push(c).contains(x) && x != c {
                let i = choose|i: int| 0 <= i < cur.push(c).len() && cur.push(c)[i] == x;
                assert(cur[i] == x);
            }
            if cur.contains(x) {
                let i = choose|i: int| 0 <= i < cur.len() && cur[i] == x;
                assert(cur.push(c)[i] == x);
            }
            if x == c {
                assert(cur.push(c)[cur.len() as int] == c);
            }
        } else {
            assert(children[q].contains(x) <==> (parents.dom().contains(x) && parents[x] == q));
            assert(children[q].contains(c) <==> (parents.dom().contains(c) && parents[c] == q));
        }
    }
    assert forall|q: Seq<char>| a.dom().contains(q) implies (#[trigger] a[q]).no_duplicates() by {
        if q == p {
            if children.dom().contains(p) {
                assert(children[p].no_duplicates());
            }
            assert forall|i: int, j: int| 0 <= i < cur.push(c).len() && 0 <= j < cur.push(c).len()
                && i != j implies cur.push(c)[i] != cur.push(c)[j] by {
                if i < cur.len() && j < cur.len() {
                } else if i < cur.len() {
                    assert(cur.contains(cur[i]));
                } else {
                    assert(cur.contains(cur[j]));
                }
            }
        } else {
            assert(children[q].no_duplicates());
        }
    }
    assert forall|x: Seq<char>| p2.dom().contains(x) implies a.dom().contains(#[trigger] p2[x]) by {
        if x != c {
            assert(children.dom().contains(parents[x]));
        }
    }
}

/// The parent/child relations of a scene, stored by label so that they survive serialisation.
#[derive(Debug)]
pub struct SceneHierarchy {
    /// Each entry maps a child label to its parent label.
    parent_map: Vec<(Label, Label)>,
    /// Each entry maps a parent label to the labels of its children.
    children_map: Vec<(Label, Vec<Label>)>,
}

impl SceneHierarchy {
    /// The parent of each child, by label text.
    pub closed spec fn parents(&self) -> Map<Seq<char>, Seq<char>> {
        assoc_map(pair_texts(self.parent_map@))
    }

    /// The ordered children of each parent, by label text.
    pub closed spec fn children(&self) -> Map<Seq<char>, Seq<Seq<char>>> {
        assoc_map(group_texts(self.children_map@))
    }

    /// The stored lists hold each key once.
    pub closed spec fn wf(&self) -> bool {
        &&& unique_keys(pair_texts(self.parent_map@))
        &&& unique_keys(group_texts(self.children_map@))
    }

    /// The two maps describe the same relation: a child sits, exactly once, in the list of its
    /// parent and in no other list.
    pub open spec fn consistent(&self) -> bool {
        relation_consistent(self.parents(), self.children())
    }

    /// An empty hierarchy.
    pub fn new() -> (r: Self)
        ensures
            r.wf(),
            r.consistent(),
            r.parents() == Map::<Seq<char>, Seq<char>>::empty(),
            r.children() == Map::<Seq<char>, Seq<Seq<char>>>::empty(),
    {
        let r = SceneHierarchy { parent_map: Vec::new(), children_map: Vec::new() };
        assert(r.parents() =~= Map::<Seq<char>, Seq<char>>::empty());
        assert(r.children() =~= Map::<Seq<char>, Seq<Seq<char>>>::empty());
        r
    }

    fn find_parent_entry(&self, child: &Label) -> (r: Option<usize>)
        ensures
            match r {
                Some(i) => i < self.parent_map@.len() && self.parent_map@[i as int].0@ == child@,
                None => forall|j: int|
                    0 <= j < self.parent_map@.len() ==> (#[trigger] self.parent_map@[j]).0@ != child@,
            },
    {
        let mut i: usize = 0;
        while i < self.parent_map.len()
            invariant
                i <= self.parent_map@.len(),
                forall|j: int| 0 <= j < i ==> (#[trigger] self.parent_map@[j]).0@ != child@,
            decreases self.parent_map@.len() - i,
        {
            if self.parent_map[i].0.0 == child.0 {
                return Some(i);
            }
            i += 1;
        }
        None
    }

    fn find_children_entry(&self, parent: &Label) -> (r: Option<usize>)
        ensures
            match r {
                Some(i) => i < self.children_map@.len() && self.children_map@[i as int].0@
                    == parent@,
                None => forall|j: int|
                    0 <= j < self.children_map@.len() ==> (#[trigger] self.children_map@[j]).0@
                        != parent@,
            },
    {
        let mut i: usize = 0;
        while i < self.children_map.len()
            invariant
                i <= self.children_map@.len(),
                forall|j: int| 0 <= j < i ==> (#[trigger] self.children_map@[j]).0@ != parent@,
            decreases self.children_map@.len() - i,
        {
            if self.children_map[i].0.0 == parent.0 {
                return Some(i);
            }
            i += 1;
        }
        None
    }

    /// Returns the parent of `child`, if it has one.
    pub fn get_parent(&self, child: &Label) -> (r: Option<&Label>)
        requires
            self.wf(),
        ensures
            r is Some <==> self.parents().dom().contains(child@),
            r matches Some(p) ==> p@ == self.parents()[child@],
    {
        match self.find_parent_entry(child) {
            Some(i) => {
                proof {
                    lemma_assoc_at(pair_texts(self.parent_map@), i as int);
                }
                Some(&self.parent_map[i].1)
            },
            None => {
                proof {
                    let s = pair_texts(self.parent_map@);
                    assert forall|j: int| 0 <= j < s.len() implies (#[trigger] s[j]).0 != child@ by {
                        assert(self.parent_map@[j].0@ != child@);
                    }
                    lemma_assoc_absent(s, child@);
                }
                None
            },
        }
    }

    /// Returns the children of `parent` in the order they were attached; empty when it has none.
    pub fn get_children(&self, parent: &Label) -> (r: &[Label])
        requires
            self.wf(),
        ensures
            texts(r@) == (if self.children().dom().contains(parent@) {
                self.children()[parent@]
            } else {
                Seq::<Seq<char>>::empty()
            }),
    {
        match self.find_children_entry(parent) {
            Some(i) => {
                proof {
                    lemma_assoc_at(group_texts(self.children_map@), i as int);
                }
                self.children_map[i].1.as_slice()
            },
            None => {
                proof {
                    let s = group_texts(self.children_map@);
                    assert forall|j: int| 0 <= j < s.len() implies (#[trigger] s[j]).0 != parent@ by {
                        assert(self.children_map@[j].0@ != parent@);
                    }
                    lemma_assoc_absent(s, parent@);
                }
                let empty: &[Label] = &[];
                assert(texts(empty@) =~= Seq::<Seq<char>>::empty());
                empty
            },
        }
    }
}

impl SceneHierarchy {
    /// Makes `parent` the parent of `child`. The child leaves the children list of its previous
    /// parent and is appended to the list of the new one.
    pub fn set_parent(&mut self, child: Label, parent: Label)
        requires
            old(self).wf(),
        ensures
            final(self).wf(),
            final(self).parents() == old(self).parents().insert(child@, parent@),
            final(self).children() == attach_child(
                detach_child(old(self).parents(), old(self).children(), child@),
                child@,
                parent@,
            ),
            old(self).consistent() ==> final(self).consistent(),
    {
        let ghost pm = self.parents();
        let ghost cm = self.children();
        let ghost cv = child@;
        let ghost pv = parent@;
        let ghost p0 = pair_texts(self.parent_map@);
        let ghost c0 = group_texts(self.children_map@);
        // leave the list of the previous parent
        match self.find_parent_entry(&child) {
            Some(i) => {
                proof {
                    lemma_assoc_at(p0, i as int);
                }
                let old_parent = self.parent_map[i].1.clone();
                match self.find_children_entry(&old_parent) {
                    Some(j) => {
                        let (key, mut list) = self.children_map.remove(j);
                        remove_label(&mut list, &child);
                        self.children_map.insert(j, (key, list));
                        proof {
                            lemma_assoc_at(c0, j as int);
                            let e = (c0[j as int].0, without(c0[j as int].1, child@));
                            assert(group_texts(self.children_map@) =~= c0.update(j as int, e));
                            lemma_assoc_update(c0, j as int, e.1);
                        }
                    },
                    None => {
                        proof {
                            assert forall|k: int| 0 <= k < c0.len() implies (#[trigger] c0[k]).0
                                != old_parent@ by {
                                assert(self.children_map@[k].0@ != old_parent@);
                            }
                            lemma_assoc_absent(c0, old_parent@);
                        }
                    },
                }
                let pc = child.clone();
                let pp = parent.clone();
                self.parent_map.remove(i);
                self.parent_map.insert(i, (pc, pp));
                proof {
                    let e = (p0[i as int].0, parent@);
                    assert(pair_texts(self.parent_map@) =~= p0.update(i as int, e));
                    lemma_assoc_update(p0, i as int, parent@);
                }
            },
            None => {
                proof {
                    assert forall|k: int| 0 <= k < p0.len() implies (#[trigger] p0[k]).0 != child@ by {
                        assert(self.parent_map@[k].0@ != child@);
                    }
                    lemma_assoc_absent(p0, child@);
                }
                let pc = child.clone();
                let pp = parent.clone();
                self.parent_map.push((pc, pp));
                proof {
                    assert(pair_texts(self.parent_map@) =~= p0.push((child@, parent@)));
                    lemma_assoc_push(p0, child@, parent@);
                }
            },
        }
        let ghost c1 = group_texts(self.children_map@);
        assert(assoc_map(c1) == detach_child(assoc_map(p0), assoc_map(c0), child@));
        // join the list of the new parent
        match self.find_children_entry(&parent) {
            Some(j) => {
                let (key, mut list) = self.children_map.remove(j);
                let ghost before = list@;
                list.push(child);
                assert(texts(list@) =~= texts(before).push(cv));
                self.children_map.insert(j, (key, list));
                proof {
                    lemma_assoc_at(c1, j as int);
                    let e = (c1[j as int].0, c1[j as int].1.push(child@));
                    assert(group_texts(self.children_map@) =~= c1.update(j as int, e));
                    lemma_assoc_update(c1, j as int, e.1);
                }
            },
            None => {
                proof {
                    assert forall|k: int| 0 <= k < c1.len() implies (#[trigger] c1[k]).0 != parent@ by {
                        assert(self.children_map@[k].0@ != parent@);
                    }
                    lemma_assoc_absent(c1, parent@);
                }
                let mut list: Vec<Label> = Vec::new();
                list.push(child);
                self.children_map.push((parent, list));
                proof {
                    assert(texts(list@) =~= Seq::<Seq<char>>::empty().push(child@));
                    assert(group_texts(self.children_map@) =~= c1.push((parent@, seq![child@])));
                    lemma_assoc_push(c1, parent@, seq![child@]);
                }
            },
        }
        proof {
            if relation_consistent(pm, cm) {
                lemma_detach_consistent(pm, cm, cv);
                lemma_attach_consistent(pm.remove(cv), detach_child(pm, cm, cv), cv, pv);
                assert(pm.remove(cv).insert(cv, pv) =~= pm.insert(cv, pv));
            }
        }
    }

    /// Detaches `child` from its parent, if it has one, removing it from that parent's list.
    pub fn remove_parent(&mut self, child: &Label)
        requires
            old(self).wf(),
        ensures
            final(self).wf(),
            final(self).parents() == old(self).parents().remove(child@),
            final(self).children() == detach_child(
                old(self).parents(),
                old(self).children(),
                child@,
            ),
            old(self).consistent() ==> final(self).consistent(),
    {
        let ghost p0 = pair_texts(self.parent_map@);
        let ghost c0 = group_texts(self.children_map@);
        proof {
            if relation_consistent(assoc_map(p0), assoc_map(c0)) {
                lemma_detach_consistent(assoc_map(p0), assoc_map(c0), child@);
            }
        }
        match self.find_parent_entry(child) {
            Some(i) => {
                proof {
                    lemma_assoc_at(p0, i as int);
                }
                let (_, old_parent) = self.parent_map.remove(i);
                proof {
                    assert(pair_texts(self.parent_map@) =~= p0.remove(i as int));
                    lemma_assoc_remove(p0, i as int);
                }
                match self.find_children_entry(&old_parent) {
                    Some(j) => {
                        let (key, mut list) = self.children_map.remove(j);
                        remove_label(&mut list, child);
                        self.children_map.insert(j, (key, list));
                        proof {
                            lemma_assoc_at(c0, j as int);
                            let e = (c0[j as int].0, without(c0[j as int].1, child@));
                            assert(group_texts(self.children_map@) =~= c0.update(j as int, e));
                            lemma_assoc_update(c0, j as int, e.1);
                        }
                    },
                    None => {
                        proof {
                            assert forall|k: int| 0 <= k < c0.len() implies (#[trigger] c0[k]).0
                                != old_parent@ by {
                                assert(self.children_map@[k].0@ != old_parent@);
                            }
                            lemma_assoc_absent(c0, old_parent@);
                        }
                    },
                }
            },
            None => {
                proof {
                    assert forall|k: int| 0 <= k < p0.len() implies (#[trigger] p0[k]).0 != child@ by {
                        assert(self.parent_map@[k].0@ != child@);
                    }
                    lemma_assoc_absent(p0, child@);
                    assert(assoc_map(p0).remove(child@) =~= assoc_map(p0));
                }
            },
        }
    }
}

impl SceneHierarchy {
    /// Returns the ancestors of `entity`: its parent, its grandparent and so on up to a root.
    ///
    /// The walk never ends when the parents of `entity` form a cycle, so `requires` asks that the
    /// chain of parents reaches a root.
    pub fn get_ancestors(&self, entity: &Label) -> (r: Vec<Label>)
        requires
            self.wf(),
            exists|n: nat| reaches_root(self.parents(), entity@, n),
        ensures
            forall|n: nat|
                reaches_root(self.parents(), entity@, n) ==> texts(r@) == ancestors_upto(
                    self.parents(),
                    entity@,
                    n,
                ),
    {
        let ghost pm = self.parents();
        let ghost n0 = choose|n: nat| reaches_root(pm, entity@, n);
        let mut ancestors: Vec<Label> = Vec::new();
        let mut current = entity.clone();
        let ghost mut k: nat = n0;
        assert(texts(ancestors@) + ancestors_upto(pm, current@, k) =~= ancestors_upto(
            pm,
            entity@,
            n0,
        ));
        loop
            invariant
                self.wf(),
                pm == self.parents(),
                reaches_root(pm, current@, k),
                texts(ancestors@) + ancestors_upto(pm, current@, k) == ancestors_upto(
                    pm,
                    entity@,
                    n0,
                ),
            ensures
                texts(ancestors@) == ancestors_upto(pm, entity@, n0),
            decreases k,
        {
            match self.get_parent(&current) {
                Some(p) => {
                    let next = p.clone();
                    let ghost prev = texts(ancestors@);
                    ancestors.push(p.clone());
                    proof {
                        assert(texts(ancestors@) =~= prev.push(next@));
                        assert(ancestors_upto(pm, current@, k) =~= seq![next@].add(
                            ancestors_upto(pm, next@, (k - 1) as nat),
                        ));
                        assert(texts(ancestors@) + ancestors_upto(pm, next@, (k - 1) as nat)
                            =~= prev + ancestors_upto(pm, current@, k));
                        k = (k - 1) as nat;
                    }
                    current = next;
                },
                None => {
                    assert(texts(ancestors@) + ancestors_upto(pm, current@, k) =~= texts(
                        ancestors@,
                    ));
                    break ;
                },
            }
        }
        proof {
            assert forall|n: nat| reaches_root(pm, entity@, n) implies texts(ancestors@)
                == ancestors_upto(pm, entity@, n) by {
                if n <= n0 {
                    lemma_reaches_root_mono(pm, entity@, n, n0);
                } else {
                    lemma_reaches_root_mono(pm, entity@, n0, n);
                }
            }
        }
        ancestors
    }

    /// Whether `potential_ancestor` is met when walking up the parents of `entity`.
    ///
    /// The walk never ends when it enters a cycle of parents that does not contain
    /// `potential_ancestor`, so `requires` asks that the walk ends.
    pub fn is_descendant_of(&self, entity: &Label, potential_ancestor: &Label) -> (r: bool)
        requires
            self.wf(),
            exists|n: nat| search_ends(self.parents(), entity@, potential_ancestor@, n),
        ensures
            forall|n: nat|
                search_ends(self.parents(), entity@, potential_ancestor@, n) ==> r == meets_within(
                    self.parents(),
                    entity@,
                    potential_ancestor@,
                    n,
                ),
    {
        let ghost pm = self.parents();
        let ghost a = potential_ancestor@;
        let ghost n0 = choose|n: nat| search_ends(pm, entity@, a, n);
        let mut current = entity.clone();
        let ghost mut k: nat = n0;
        let mut found = false;
        loop
            invariant_except_break
                !found,
            invariant
                self.wf(),
                pm == self.parents(),
                a == potential_ancestor@,
                search_ends(pm, current@, a, k),
                meets_within(pm, current@, a, k) == meets_within(pm, entity@, a, n0),
            ensures
                found == meets_within(pm, entity@, a, n0),
            decreases k,
        {
            match self.get_parent(&current) {
                Some(p) => {
                    if p.0 == potential_ancestor.0 {
                        found = true;
                        break ;
                    }
                    let next = p.clone();
                    proof {
                        k = (k - 1) as nat;
                    }
                    current = next;
                },
                None => {
                    break ;
                },
            }
        }
        proof {
            assert forall|n: nat| search_ends(pm, entity@, a, n) implies found == meets_within(
                pm,
                entity@,
                a,
                n,
            ) by {
                if n <= n0 {
                    lemma_search_mono(pm, entity@, a, n, n0);
                } else {
                    lemma_search_mono(pm, entity@, a, n0, n);
                }
            }
        }
        found
    }
}

/// The parent and children maps after applying `set_parent` for each `(child, parent)` link of
/// `links` in order, starting from `parents` and `children`.
pub open spec fn apply_links(
    parents: Map<Seq<char>, Seq<char>>,
    children: Map<Seq<char>, Seq<Seq<char>>>,
    links: Seq<(Seq<char>, Seq<char>)>,
) -> (Map<Seq<char>, Seq<char>>, Map<Seq<char>, Seq<Seq<char>>>)
    decreases links.len(),
{
    if links.len() == 0 {
        (parents, children)
    } else {
        let (p, c) = apply_links(parents, children, links.drop_last());
        let (child, parent) = links.last();
        (p.insert(child, parent), attach_child(detach_child(p, c, child), child, parent))
    }
}

impl SceneHierarchy {
    /// The `(child, parent)` links in the order they are stored.
    pub closed spec fn parent_links(&self) -> Seq<(Seq<char>, Seq<char>)> {
        pair_texts(self.parent_map@)
    }

    /// The parent map is the map of the stored links.
    pub proof fn lemma_parent_links(&self)
        ensures
            self.parents() == assoc_map(self.parent_links()),
            self.wf() ==> unique_keys(self.parent_links()),
    {
    }

    /// Builds a hierarchy by setting, in order, the parent of each child of `links`.
    pub fn from_links(links: Vec<(Label, Label)>) -> (r: Self)
        ensures
            r.wf(),
            r.consistent(),
            (r.parents(), r.children()) == apply_links(
                Map::empty(),
                Map::empty(),
                pair_texts(links@),
            ),
    {
        let ghost lv = pair_texts(links@);
        let n = links.len();
        let mut h = SceneHierarchy::new();
        let mut links = links;
        let mut rev: Vec<(Label, Label)> = Vec::new();
        // take the links out in reverse, then apply them in their given order
        while links.len() > 0
            invariant
                rev@.len() + links@.len() == lv.len(),
                pair_texts(links@) == lv.take(links@.len() as int),
                forall|j: int| 0 <= j < rev@.len() ==> (#[trigger] pair_texts(rev@)[j]) == lv[lv.len() - 1 - j],
            decreases links@.len(),
        {
            let ghost before = links@;
            let e = links.pop().unwrap();
            proof {
                assert(pair_texts(links@) =~= lv.take(links@.len() as int));
            }
            let ghost prev = rev@;
            rev.push(e);
            proof {
                assert forall|j: int| 0 <= j < rev@.len() implies (#[trigger] pair_texts(rev@)[j]) == lv[lv.len() - 1 - j] by {
                    if j < prev.len() {
                        assert(pair_texts(rev@)[j] == pair_texts(prev)[j]);
                    } else {
                        assert(pair_texts(rev@)[j] == pair_texts(before)[before.len() - 1]);
                    }
                }
            }
        }
        let mut applied: usize = 0;
        while rev.len() > 0
            invariant
                h.wf(),
                h.consistent(),
                lv.len() == n,
                rev@.len() + applied == lv.len(),
                forall|j: int| 0 <= j < rev@.len() ==> (#[trigger] pair_texts(rev@)[j]) == lv[lv.len() - 1 - j],
                (h.parents(), h.children()) == apply_links(Map::empty(), Map::empty(), lv.take(applied as int)),
            decreases rev@.len(),
        {
            let ghost before = rev@;
            let (child, parent) = rev.pop().unwrap();
            proof {
                assert(pair_texts(before)[before.len() - 1] == (child@, parent@));
                assert(lv[applied as int] == (child@, parent@));
                assert(lv.take(applied + 1).drop_last() =~= lv.take(applied as int));
                assert forall|j: int| 0 <= j < rev@.len() implies (#[trigger] pair_texts(rev@)[j]) == lv[lv.len() - 1 - j] by {
                    assert(pair_texts(rev@)[j] == pair_texts(before)[j]);
                }
            }
            h.set_parent(child, parent);
            applied += 1;
        }
        assert(lv.take(lv.len() as int) =~= lv);
        h
    }
}

/// For each `(child, parent)` link, in order, the entities of both when `m` knows both.
pub open spec fn entity_links(m: Map<Seq<char>, u64>, links: Seq<(Seq<char>, Seq<char>)>) -> Seq<
    (u64, u64),
>
    decreases links.len(),
{
    if links.len() == 0 {
        Seq::empty()
    } else {
        let rest = entity_links(m, links.drop_last());
        let (c, p) = links.last();
        if m.dom().contains(c) && m.dom().contains(p) {
            rest.push((m[c], m[p]))
        } else {
            rest
        }
    }
}

impl SceneHierarchy {
    /// The stored `(child, parent)` links, in the order they are stored.
    pub fn links(&self) -> (r: Vec<(Label, Label)>)
        ensures
            pair_texts(r@) == self.parent_links(),
    {
        let mut out: Vec<(Label, Label)> = Vec::new();
        let mut i: usize = 0;
        while i < self.parent_map.len()
            invariant
                i <= self.parent_map@.len(),
                pair_texts(out@) == pair_texts(self.parent_map@.take(i as int)),
            decreases self.parent_map@.len() - i,
        {
            let c = self.parent_map[i].0.clone();
            let p = self.parent_map[i].1.clone();
            let ghost before = out@;
            out.push((c, p));
            assert(pair_texts(out@) =~= pair_texts(before).push((c@, p@)));
            assert(pair_texts(self.parent_map@.take(i + 1)) =~= pair_texts(
                self.parent_map@.take(i as int),
            ).push((self.parent_map@[i as int].0@, self.parent_map@[i as int].1@)));
            i += 1;
        }
        assert(self.parent_map@.take(self.parent_map@.len() as int) =~= self.parent_map@);
        out
    }
}

impl SceneHierarchy {
    /// The `(child entity, parent entity)` pairs to apply to a world: one for each stored link
    /// whose two labels were both spawned, in the order of the links.
    pub fn world_links(&self, label_to_entity: &Vec<(Label, u64)>) -> (r: Vec<(u64, u64)>)
        requires
            unique_keys(entity_texts(label_to_entity@)),
        ensures
            r@ == entity_links(assoc_map(entity_texts(label_to_entity@)), self.parent_links()),
    {
        let ghost m = assoc_map(entity_texts(label_to_entity@));
        let ghost lv = pair_texts(self.parent_map@);
        let mut out: Vec<(u64, u64)> = Vec::new();
        let mut i: usize = 0;
        while i < self.parent_map.len()
            invariant
                unique_keys(entity_texts(label_to_entity@)),
                m == assoc_map(entity_texts(label_to_entity@)),
                lv == pair_texts(self.parent_map@),
                i <= self.parent_map@.len(),
                out@ == entity_links(m, lv.take(i as int)),
            decreases self.parent_map@.len() - i,
        {
            assert(lv.take(i + 1).drop_last() =~= lv.take(i as int));
            let c = lookup_entity(label_to_entity, &self.parent_map[i].0);
            let p = lookup_entity(label_to_entity, &self.parent_map[i].1);
            match (c, p) {
                (Some(ce), Some(pe)) => {
                    out.push((ce, pe));
                },
                _ => {},
            }
            i += 1;
        }
        assert(lv.take(self.parent_map@.len() as int) =~= lv);
        out
    }
}

/// Law: when the chain of parents of `e` reaches a root within `n` steps, the walk looking for
/// `a` ends within `n` steps too, and `a` is met exactly when it is one of the ancestors of `e`:
/// `is_descendant_of(e, a)` agrees with `get_ancestors(e).contains(a)`.
pub proof fn law_descendant_iff_ancestor<K>(
    parents: Map<K, K>,
    e: K,
    a: K,
    n: nat,
)
    requires
        reaches_root(parents, e, n),
    ensures
        search_ends(parents, e, a, n),
        meets_within(parents, e, a, n) <==> ancestors_upto(parents, e, n).contains(a),
    decreases n,
{
    if parents.dom().contains(e) {
        let p = parents[e];
        law_descendant_iff_ancestor(parents, p, a, (n - 1) as nat);
        let rest = ancestors_upto(parents, p, (n - 1) as nat);
        let all = seq![p].add(rest);
        assert(all[0] == p);
        if rest.contains(a) {
            let i = choose|i: int| 0 <= i < rest.len() && rest[i] == a;
            assert(all[i + 1] == a);
        }
        if all.contains(a) && p != a {
            let i = choose|i: int| 0 <= i < all.len() && all[i] == a;
            assert(rest[i - 1] == a);
        }
    }
}

/// Law: after `set_parent(child, parent)`, `get_parent(child)` is `parent`, `child` is the last
/// of the children of `parent`, and `child` is a descendant of `parent`.
pub proof fn law_set_parent_then_get(
    parents: Map<Seq<char>, Seq<char>>,
    children: Map<Seq<char>, Seq<Seq<char>>>,
    child: Seq<char>,
    parent: Seq<char>,
)
    ensures
        ({
            let p2 = parents.insert(child, parent);
            let c2 = attach_child(detach_child(parents, children, child), child, parent);
            &&& p2.dom().contains(child) && p2[child] == parent
            &&& c2.dom().contains(parent) && c2[parent].last() == child
            &&& search_ends(p2, child, parent, 0) && meets_within(p2, child, parent, 0)
        }),
{
}

/// Law: after `remove_parent(child)`, `child` has no parent and, when the two maps agreed
/// before, sits in no children list.
pub proof fn law_remove_parent_then_get(
    parents: Map<Seq<char>, Seq<char>>,
    children: Map<Seq<char>, Seq<Seq<char>>>,
    child: Seq<char>,
    p: Seq<char>,
)
    requires
        relation_consistent(parents, children),
    ensures
        !parents.remove(child).dom().contains(child),
        detach_child(parents, children, child).dom().contains(p) ==> !detach_child(
            parents,
            children,
            child,
        )[p].contains(child),
{
    lemma_detach_consistent(parents, children, child);
    let d = detach_child(parents, children, child);
    if d.dom().contains(p) {
        assert(d[p].contains(child) <==> (parents.remove(child).dom().contains(child) && parents.remove(child)[child] == p));
    }
}

/// Law: `remove_parent(child)` undoes `set_parent(child, parent)` for a child that had no
/// parent: the parent map is restored, and so are the children lists, except that `parent`
/// keeps a list (empty when it had none before).
pub proof fn law_remove_undoes_set(
    parents: Map<Seq<char>, Seq<char>>,
    children: Map<Seq<char>, Seq<Seq<char>>>,
    child: Seq<char>,
    parent: Seq<char>,
)
    requires
        relation_consistent(parents, children),
        !parents.dom().contains(child),
    ensures
        ({
            let p2 = parents.insert(child, parent);
            let c2 = attach_child(detach_child(parents, children, child), child, parent);
            &&& p2.remove(child) == parents
            &&& detach_child(p2, c2, child) == children.insert(
                parent,
                if children.dom().contains(parent) {
                    children[parent]
                } else {
                    Seq::<Seq<char>>::empty()
                },
            )
        }),
{
    let p2 = parents.insert(child, parent);
    let c2 = attach_child(detach_child(parents, children, child), child, parent);
    assert(p2.remove(child) =~= parents);
    let cur = if children.dom().contains(parent) {
        children[parent]
    } else {
        Seq::<Seq<char>>::empty()
    };
    assert(!cur.contains(child)) by {
        if children.dom().contains(parent) {
            assert(children[parent].contains(child) <==> (parents.dom().contains(child) && parents[child] == parent));
        }
    }
    lemma_without_push_absent(cur, child);
    assert(detach_child(p2, c2, child) =~= children.insert(parent, cur));
}

/// Removing an element that was just appended to a sequence without it gives the sequence back.
proof fn lemma_without_push_absent(s: Seq<Seq<char>>, x: Seq<char>)
    requires
        !s.contains(x),
    ensures
        without(s.push(x), x) == s,
    decreases s.len(),
{
    assert(s.push(x).drop_last() =~= s);
    lemma_without_absent(s, x);
}

/// Removing an absent element changes nothing.
proof fn lemma_without_absent(s: Seq<Seq<char>>, x: Seq<char>)
    requires
        !s.contains(x),
    ensures
        without(s, x) == s,
    decreases s.len(),
{
    if s.len() > 0 {
        let d = s.drop_last();
        assert(!d.contains(x)) by {
            if d.contains(x) {
                let i = choose|i: int| 0 <= i < d.len() && d[i] == x;
                assert(s[i] == x);
            }
        }
        lemma_without_absent(d, x);
        assert(s.last() != x) by {
            assert(s[s.len() - 1] == s.last());
        }
        assert(d.push(s.last()) =~= s);
    }
}

} // verus!
