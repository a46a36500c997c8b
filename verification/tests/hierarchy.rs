use eucalyptus_core::hierarchy::SceneHierarchy;
use eucalyptus_core::label::Label;
use eucalyptus_core::scene::rebuild_hierarchy_plan;

fn l(s: &str) -> Label {
    Label::new(s.to_string())
}

#[test]
fn set_parent_then_get_parent_and_children() {
    let mut h = SceneHierarchy::new();
    h.set_parent(l("child"), l("parent"));
    assert_eq!(h.get_parent(&l("child")), Some(&l("parent")));
    assert_eq!(h.get_children(&l("parent")), &[l("child")][..]);
    assert_eq!(h.get_parent(&l("parent")), None);
    assert!(h.get_children(&l("child")).is_empty());
}

#[test]
fn reparenting_moves_child_between_lists() {
    let mut h = SceneHierarchy::new();
    h.set_parent(l("a"), l("p1"));
    h.set_parent(l("b"), l("p1"));
    h.set_parent(l("a"), l("p2"));
    assert_eq!(h.get_parent(&l("a")), Some(&l("p2")));
    assert_eq!(h.get_children(&l("p1")), &[l("b")][..]);
    assert_eq!(h.get_children(&l("p2")), &[l("a")][..]);
}

#[test]
fn setting_same_parent_twice_keeps_one_entry() {
    let mut h = SceneHierarchy::new();
    h.set_parent(l("a"), l("p"));
    h.set_parent(l("b"), l("p"));
    h.set_parent(l("a"), l("p"));
    assert_eq!(h.get_children(&l("p")), &[l("b"), l("a")][..]);
}

#[test]
fn remove_parent_detaches() {
    let mut h = SceneHierarchy::new();
    h.set_parent(l("a"), l("p"));
    h.remove_parent(&l("a"));
    assert_eq!(h.get_parent(&l("a")), None);
    assert!(h.get_children(&l("p")).is_empty());
    // removing again is harmless
    h.remove_parent(&l("a"));
    assert_eq!(h.get_parent(&l("a")), None);
}

#[test]
fn ancestors_nearest_first() {
    let mut h = SceneHierarchy::new();
    h.set_parent(l("c"), l("b"));
    h.set_parent(l("b"), l("a"));
    assert_eq!(h.get_ancestors(&l("c")), vec![l("b"), l("a")]);
    assert_eq!(h.get_ancestors(&l("a")), Vec::<Label>::new());
}

#[test]
fn descendant_checks_follow_the_chain() {
    let mut h = SceneHierarchy::new();
    h.set_parent(l("c"), l("b"));
    h.set_parent(l("b"), l("a"));
    assert!(h.is_descendant_of(&l("c"), &l("a")));
    assert!(h.is_descendant_of(&l("c"), &l("b")));
    assert!(!h.is_descendant_of(&l("a"), &l("c")));
    assert!(!h.is_descendant_of(&l("c"), &l("c")));
}

#[test]
fn descendant_of_agrees_with_ancestors() {
    let mut h = SceneHierarchy::new();
    h.set_parent(l("d"), l("c"));
    h.set_parent(l("c"), l("b"));
    h.set_parent(l("b"), l("a"));
    let anc = h.get_ancestors(&l("d"));
    for name in ["a", "b", "c", "d", "x"] {
        assert_eq!(h.is_descendant_of(&l("d"), &l(name)), anc.contains(&l(name)));
    }
}

#[test]
fn descendant_found_on_a_cycle() {
    // a cycle a -> b -> a: the walk still finds b
    let mut h = SceneHierarchy::new();
    h.set_parent(l("a"), l("b"));
    h.set_parent(l("b"), l("a"));
    assert!(h.is_descendant_of(&l("a"), &l("b")));
}

#[test]
fn from_links_applies_in_order() {
    let h = SceneHierarchy::from_links(vec![(l("a"), l("p")), (l("b"), l("p")), (l("a"), l("q"))]);
    assert_eq!(h.get_parent(&l("a")), Some(&l("q")));
    assert_eq!(h.get_children(&l("p")), &[l("b")][..]);
    assert_eq!(h.get_children(&l("q")), &[l("a")][..]);
}

#[test]
fn world_links_resolve_spawned_labels() {
    let mut h = SceneHierarchy::new();
    h.set_parent(l("a"), l("p"));
    h.set_parent(l("ghost"), l("p"));
    let map = vec![(l("a"), 10u64), (l("p"), 20u64)];
    assert_eq!(h.world_links(&map), vec![(10, 20)]);
}

#[test]
fn rebuild_plan_skips_unspawned_children() {
    let mut h = SceneHierarchy::new();
    h.set_parent(l("a"), l("p"));
    h.set_parent(l("ghost"), l("p"));
    h.set_parent(l("b"), l("p"));
    h.set_parent(l("x"), l("lonely"));
    let map = vec![(l("a"), 1u64), (l("p"), 2u64), (l("b"), 3u64), (l("lonely"), 4u64)];
    assert_eq!(rebuild_hierarchy_plan(&h, &map), vec![(2, vec![1, 3])]);
}

#[test]
fn label_basics() {
    let mut a = Label::new("hello".to_string());
    assert_eq!(a.as_str(), "hello");
    assert!(!a.is_empty());
    a.set(String::new());
    assert!(a.is_empty());
    a.as_mut_string().push_str("x");
    assert_eq!(a.clone().into_inner(), "x");
    assert_eq!(Label::default().as_str(), "No Label");
    assert_eq!(Label::from("y".to_string()), l("y"));
}
