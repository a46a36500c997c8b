//! Scenes: their settings, the cache of loaded scenes and the rebuilding of a loaded scene's
//! hierarchy.
use crate::assoc::{assoc_map, lemma_assoc_absent, lemma_assoc_at, unique_keys};
use crate::hierarchy::{pair_texts, SceneHierarchy};
use crate::label::{texts, Label};
use vstd::prelude::*;

verus! {

/// Settings that apply to one scene only.
#[derive(Debug, Clone, Copy, PartialEq, Eq, Structural, Default)]
pub struct SceneSettings {
    /// The scene's assets are loaded when the game starts.
    pub preloaded: bool,
    /// Collider outlines are drawn.
    pub show_hitboxes: bool,
}

impl SceneSettings {
    /// Nothing preloaded, no hitboxes shown.
    pub fn new() -> (r: Self)
        ensures
            r == (SceneSettings { preloaded: false, show_hitboxes: false }),
    {
        SceneSettings { preloaded: false, show_hitboxes: false }
    }
}

/// The configuration of a scene: its entities (of type `E`), hierarchy, physics state (of
/// type `P`) and settings.
pub struct SceneConfig<E, P> {
    pub scene_name: String,
    pub entities: Vec<E>,
    pub hierarchy_map: SceneHierarchy,
    pub physics_state: P,
    pub settings: SceneSettings,
    /// Where the scene was read from.
    pub path: String,
}

impl<E, P> SceneConfig<E, P> {
    /// An empty scene named `scene_name`, stored at `path`, with the given physics state.
    pub fn new(scene_name: String, path: String, physics_state: P) -> (r: Self)
        ensures
            r.scene_name == scene_name,
            r.path == path,
            r.entities@.len() == 0,
            r.hierarchy_map.wf(),
            r.hierarchy_map.parents() == Map::<Seq<char>, Seq<char>>::empty(),
            r.hierarchy_map.children() == Map::<Seq<char>, Seq<Seq<char>>>::empty(),
            r.physics_state == physics_state,
            r.settings == (SceneSettings { preloaded: false, show_hitboxes: false }),
    {
        SceneConfig {
            scene_name,
            entities: Vec::new(),
            hierarchy_map: SceneHierarchy::new(),
            physics_state,
            settings: SceneSettings::new(),
            path,
        }
    }
}

/// The scenes of `s` whose name is not `name`, in order.
pub open spec fn scenes_except<E, P>(s: Seq<SceneConfig<E, P>>, name: Seq<char>) -> Seq<
    SceneConfig<E, P>,
>
    decreases s.len(),
{
    if s.len() == 0 {
        s
    } else if s.last().scene_name@ == name {
        scenes_except(s.drop_last(), name)
    } else {
        scenes_except(s.drop_last(), name).push(s.last())
    }
}

/// Some scene of `s` is named `name`.
pub open spec fn has_scene<E, P>(s: Seq<SceneConfig<E, P>>, name: Seq<char>) -> bool {
    exists|i: int| 0 <= i < s.len() && (#[trigger] s[i]).scene_name@ == name
}

proof fn lemma_scenes_except_len<E, P>(s: Seq<SceneConfig<E, P>>, name: Seq<char>)
    ensures
        scenes_except(s, name).len() <= s.len(),
        scenes_except(s, name).len() == s.len() <==> !has_scene(s, name),
    decreases s.len(),
{
    if s.len() > 0 {
        let d = s.drop_last();
        lemma_scenes_except_len(d, name);
        if has_scene(d, name) {
            let i = choose|i: int| 0 <= i < d.len() && (#[trigger] d[i]).scene_name@ == name;
            assert(s[i] == d[i]);
        }
        if has_scene(s, name) && s.last().scene_name@ != name {
            let i = choose|i: int| 0 <= i < s.len() && (#[trigger] s[i]).scene_name@ == name;
            assert(d[i] == s[i]);
        }
        if s.last().scene_name@ == name {
            assert(s[s.len() - 1].scene_name@ == name);
        }
    }
}

/// No scene named `name` survives `scenes_except`, and every other scene does.
pub proof fn lemma_scenes_except_has<E, P>(s: Seq<SceneConfig<E, P>>, name: Seq<char>)
    ensures
        !has_scene(scenes_except(s, name), name),
        scenes_except(scenes_except(s, name), name) == scenes_except(s, name),
    decreases s.len(),
{
    if s.len() > 0 {
        let d = s.drop_last();
        lemma_scenes_except_has(d, name);
        let w = scenes_except(d, name);
        if s.last().scene_name@ != name {
            let w2 = w.push(s.last());
            assert(!has_scene(w2, name)) by {
                if has_scene(w2, name) {
                    let i = choose|i: int| 0 <= i < w2.len() && (#[trigger] w2[i]).scene_name@ == name;
                    if i < w.len() {
                        assert(w[i] == w2[i]);
                    }
                }
            }
            assert(w2.drop_last() =~= w);
        }
    }
}

/// Law: unloading is idempotent: once a scene is unloaded, no scene of that name is cached,
/// and unloading it again removes nothing.
pub proof fn law_unload_idempotent<E, P>(cache: Seq<SceneConfig<E, P>>, name: Seq<char>)
    ensures
        !has_scene(scenes_except(cache, name), name),
        scenes_except(scenes_except(cache, name), name) == scenes_except(cache, name),
{
    lemma_scenes_except_has(cache, name);
}

/// Law: after a scene named `name` is loaded into memory, it is the first cached scene and the
/// only one of that name.
pub proof fn law_loaded_scene_is_unique<E, P>(
    cache: Seq<SceneConfig<E, P>>,
    name: Seq<char>,
    scene: SceneConfig<E, P>,
)
    requires
        scene.scene_name@ == name,
    ensures
        ({
            let after = seq![scene] + scenes_except(cache, name);
            &&& after[0] == scene
            &&& forall|i: int| 0 < i < after.len() ==> (#[trigger] after[i]).scene_name@ != name
        }),
{
    lemma_scenes_except_has(cache, name);
    let rest = scenes_except(cache, name);
    let after = seq![scene] + rest;
    assert forall|i: int| 0 < i < after.len() implies (#[trigger] after[i]).scene_name@ != name by {
        assert(after[i] == rest[i - 1]);
        if rest[i - 1].scene_name@ == name {
            assert(has_scene(rest, name));
        }
    }
}

/// Removes every scene named `scene_name` from the in-memory cache, keeping the order of the
/// others. Returns whether a scene was removed.
pub fn unload_scene<E, P>(scenes: &mut Vec<SceneConfig<E, P>>, scene_name: &str) -> (r: bool)
    ensures
        final(scenes)@ == scenes_except(old(scenes)@, scene_name@),
        r == has_scene(old(scenes)@, scene_name@),
{
    let ghost orig = scenes@;
    let name: String = scene_name.to_owned();
    let initial_len = scenes.len();
    let mut i: usize = 0;
    let ghost mut k: int = 0;
    while i < scenes.len()
        invariant
            name@ == scene_name@,
            0 <= i <= scenes@.len(),
            0 <= k <= orig.len(),
            initial_len == orig.len(),
            scenes@.take(i as int) == scenes_except(orig.take(k), scene_name@),
            scenes@.skip(i as int) == orig.skip(k),
            scenes@.len() - i == orig.len() - k,
        decreases scenes@.len() - i,
    {
        proof {
            assert(orig.take(k + 1).drop_last() =~= orig.take(k));
            assert(orig.skip(k)[0] == orig[k]);
            assert(scenes@[i as int] == orig[k]);
        }
        if scenes[i].scene_name == name {
            let ghost before = scenes@;
            let _removed = scenes.remove(i);
            proof {
                assert(scenes@.take(i as int) =~= before.take(i as int));
                assert(scenes@.skip(i as int) =~= before.skip(i + 1));
                assert(before.skip(i + 1) =~= orig.skip(k + 1)) by {
                    assert(before.skip(i as int).drop_first() =~= before.skip(i + 1));
                    assert(orig.skip(k).drop_first() =~= orig.skip(k + 1));
                }
                k = k + 1;
            }
        } else {
            proof {
                let before = scenes@;
                assert(before.take(i + 1) =~= before.take(i as int).push(before[i as int]));
                assert(before.skip(i + 1) =~= before.skip(i as int).drop_first());
                assert(orig.skip(k + 1) =~= orig.skip(k).drop_first());
                k = k + 1;
            }
            i += 1;
        }
    }
    proof {
        assert(scenes@.skip(i as int).len() == 0);
        assert(orig.skip(k).len() == 0);
        assert(orig.take(k) =~= orig);
        assert(scenes@.take(i as int) =~= scenes@);
        lemma_scenes_except_len(orig, scene_name@);
    }
    scenes.len() != initial_len
}

/// Puts a freshly read scene at the front of the cache, after dropping any cached scene of the
/// same name. The old copy is dropped even when reading failed, in which case the read error is
/// returned.
pub fn load_scene_into_memory<E, P, X>(
    scenes: &mut Vec<SceneConfig<E, P>>,
    scene_name: &str,
    loaded: Result<SceneConfig<E, P>, X>,
) -> (r: Result<(), X>)
    ensures
        match loaded {
            Ok(s) => r is Ok && final(scenes)@ == seq![s] + scenes_except(old(scenes)@, scene_name@),
            Err(e) => r == Err::<(), X>(e) && final(scenes)@ == scenes_except(old(scenes)@, scene_name@),
        },
{
    unload_scene(scenes, scene_name);
    match loaded {
        Ok(scene) => {
            let ghost rest = scenes@;
            scenes.insert(0, scene);
            assert(scenes@ =~= seq![scenes@[0]] + rest);
            Ok(())
        },
        Err(e) => Err(e),
    }
}

/// The entries of a label-to-entity list, by label text.
pub open spec fn entity_texts(s: Seq<(Label, u64)>) -> Seq<(Seq<char>, u64)> {
    s.map_values(|e: (Label, u64)| (e.0@, e.1))
}

/// The entities of the labels of `labels` that `m` knows, in order; unknown labels are skipped.
pub open spec fn resolve_labels(m: Map<Seq<char>, u64>, labels: Seq<Seq<char>>) -> Seq<u64>
    decreases labels.len(),
{
    if labels.len() == 0 {
        Seq::empty()
    } else {
        let rest = resolve_labels(m, labels.drop_last());
        if m.dom().contains(labels.last()) {
            rest.push(m[labels.last()])
        } else {
            rest
        }
    }
}

/// For each entity of `entries`, in order, the entities of its children that `m` knows, when
/// there is at least one.
pub open spec fn children_plan(
    m: Map<Seq<char>, u64>,
    children: Map<Seq<char>, Seq<Seq<char>>>,
    entries: Seq<(Seq<char>, u64)>,
) -> Seq<(u64, Seq<u64>)>
    decreases entries.len(),
{
    if entries.len() == 0 {
        Seq::empty()
    } else {
        let rest = children_plan(m, children, entries.drop_last());
        let (label, entity) = entries.last();
        let kids = if children.dom().contains(label) {
            children[label]
        } else {
            Seq::<Seq<char>>::empty()
        };
        let resolved = resolve_labels(m, kids);
        if resolved.len() > 0 {
            rest.push((entity, resolved))
        } else {
            rest
        }
    }
}

/// The entity spawned for `label`, if any.
pub fn lookup_entity(label_to_entity: &Vec<(Label, u64)>, label: &Label) -> (r: Option<u64>)
    requires
        unique_keys(entity_texts(label_to_entity@)),
    ensures
        match r {
            Some(e) => assoc_map(entity_texts(label_to_entity@)).dom().contains(label@) && assoc_map(
                entity_texts(label_to_entity@),
            )[label@] == e,
            None => !assoc_map(entity_texts(label_to_entity@)).dom().contains(label@),
        },
{
    let ghost s = entity_texts(label_to_entity@);
    let mut i: usize = 0;
    while i < label_to_entity.len()
        invariant
            s == entity_texts(label_to_entity@),
            unique_keys(s),
            i <= label_to_entity@.len(),
            forall|j: int| 0 <= j < i ==> (#[trigger] s[j]).0 != label@,
        decreases label_to_entity@.len() - i,
    {
        if label_to_entity[i].0.0 == label.0 {
            proof {
                lemma_assoc_at(s, i as int);
            }
            return Some(label_to_entity[i].1);
        }
        i += 1;
    }
    proof {
        lemma_assoc_absent(s, label@);
    }
    None
}

fn resolve_children(label_to_entity: &Vec<(Label, u64)>, kids: &[Label]) -> (r: Vec<u64>)
    requires
        unique_keys(entity_texts(label_to_entity@)),
    ensures
        r@ == resolve_labels(assoc_map(entity_texts(label_to_entity@)), texts(kids@)),
{
    let ghost m = assoc_map(entity_texts(label_to_entity@));
    let ghost kv = texts(kids@);
    let mut out: Vec<u64> = Vec::new();
    let mut i: usize = 0;
    while i < kids.len()
        invariant
            unique_keys(entity_texts(label_to_entity@)),
            m == assoc_map(entity_texts(label_to_entity@)),
            kv == texts(kids@),
            i <= kids@.len(),
            out@ == resolve_labels(m, kv.take(i as int)),
        decreases kids@.len() - i,
    {
        assert(kv.take(i + 1).drop_last() =~= kv.take(i as int));
        if let Some(e) = lookup_entity(label_to_entity, &kids[i]) {
            out.push(e);
        }
        i += 1;
    }
    assert(kv.take(kids@.len() as int) =~= kv);
    out
}

/// How the parent/child relations of a freshly loaded scene are restored in the world: for
/// each spawned entity, in the order of `label_to_entity`, the spawned entities of the children
/// the hierarchy records for its label (children that were not spawned are skipped), when there
/// is at least one. Each child then gets the entity as its parent, and the entity gets them as
/// its children.
pub fn rebuild_hierarchy_plan(hierarchy: &SceneHierarchy, label_to_entity: &Vec<(Label, u64)>) -> (r:
    Vec<(u64, Vec<u64>)>)
    requires
        hierarchy.wf(),
        unique_keys(entity_texts(label_to_entity@)),
    ensures
        r@.map_values(|e: (u64, Vec<u64>)| (e.0, e.1@)) == children_plan(
            assoc_map(entity_texts(label_to_entity@)),
            hierarchy.children(),
            entity_texts(label_to_entity@),
        ),
{
    let ghost m = assoc_map(entity_texts(label_to_entity@));
    let ghost ev = entity_texts(label_to_entity@);
    let mut out: Vec<(u64, Vec<u64>)> = Vec::new();
    let mut i: usize = 0;
    while i < label_to_entity.len()
        invariant
            hierarchy.wf(),
            unique_keys(entity_texts(label_to_entity@)),
            m == assoc_map(entity_texts(label_to_entity@)),
            ev == entity_texts(label_to_entity@),
            i <= label_to_entity@.len(),
            out@.map_values(|e: (u64, Vec<u64>)| (e.0, e.1@)) == children_plan(m, hierarchy.children(), ev.take(i as int)),
        decreases label_to_entity@.len() - i,
    {
        assert(ev.take(i + 1).drop_last() =~= ev.take(i as int));
        let kids = hierarchy.get_children(&label_to_entity[i].0);
        let resolved = resolve_children(label_to_entity, kids);
        if resolved.len() > 0 {
            let ghost before = out@;
            out.push((label_to_entity[i].1, resolved));
            assert(out@.map_values(|e: (u64, Vec<u64>)| (e.0, e.1@)) =~= before.map_values(|e: (u64, Vec<u64>)| (e.0, e.1@)).push(
                (ev[i as int].1, out@[before.len() as int].1@),
            ));
        }
        i += 1;
    }
    assert(ev.take(label_to_entity@.len() as int) =~= ev);
    out
}

} // verus!
