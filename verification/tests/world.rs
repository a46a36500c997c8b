use eucalyptus_core::world_hierarchy::{Children, Hierarchy, Parent};

fn id(e: hecs::Entity) -> u64 {
    e.to_bits().get()
}

#[test]
fn world_set_parent_links_both_ways() {
    let mut w = hecs::World::new();
    let p = id(w.spawn((1u8,)));
    let q = id(w.spawn((2u8,)));
    let c = id(w.spawn((3u8,)));
    Hierarchy::set_parent(&mut w, c, p);
    assert_eq!(Hierarchy::get_parent(&w, c), Some(p));
    assert_eq!(Hierarchy::get_children(&w, p), vec![c]);
    Hierarchy::set_parent(&mut w, c, q);
    assert_eq!(Hierarchy::get_parent(&w, c), Some(q));
    assert!(Hierarchy::get_children(&w, p).is_empty());
    assert_eq!(Hierarchy::get_children(&w, q), vec![c]);
    Hierarchy::set_parent(&mut w, q, p);
    assert_eq!(Hierarchy::get_ancestors(&w, c), vec![q, p]);
    assert!(Hierarchy::is_descendant_of(&w, c, p));
    assert!(!Hierarchy::is_descendant_of(&w, p, c));
    Hierarchy::remove_parent(&mut w, c);
    assert_eq!(Hierarchy::get_parent(&w, c), None);
    assert!(Hierarchy::get_children(&w, q).is_empty());
}

#[test]
fn children_component_dedups() {
    let mut ch = Children::new(vec![1, 2]);
    ch.push(2);
    ch.push(3);
    assert_eq!(ch.children(), &[1, 2, 3]);
    ch.remove(2);
    assert_eq!(ch.children(), &[1, 3]);
    assert!(!ch.is_empty());
    ch.clear();
    assert!(ch.is_empty());
    assert_eq!(Parent::new(5).parent(), 5);
}
