//! Camera roles in a scene.
use vstd::prelude::*;

verus! {

/// What a camera is for.
#[derive(Debug, Clone, Copy, PartialEq, Eq, Structural, Hash)]
pub enum CameraType {
    /// An ordinary scene camera.
    Normal,
    /// The editor's viewport camera.
    Debug,
    /// A camera that follows the player.
    Player,
}

impl Default for CameraType {
    fn default() -> (r: Self)
        ensures
            r == CameraType::Normal,
    {
        CameraType::Normal
    }
}

/// The engine-side settings of a camera entity.
#[derive(Debug, Clone, Copy, PartialEq, Eq, Structural)]
pub struct CameraComponent {
    pub camera_type: CameraType,
    /// Whether play mode starts looking through this camera.
    pub starting_camera: bool,
}

impl CameraComponent {
    /// A normal camera that is not the starting camera.
    pub fn new() -> (r: Self)
        ensures
            r == (CameraComponent { camera_type: CameraType::Normal, starting_camera: false }),
    {
        CameraComponent { camera_type: CameraType::Normal, starting_camera: false }
    }
}

impl Default for CameraComponent {
    fn default() -> (r: Self)
        ensures
            r == (CameraComponent { camera_type: CameraType::Normal, starting_camera: false }),
    {
        Self::new()
    }
}

/// Builds the component of a player camera.
pub struct PlayerCamera;

impl PlayerCamera {
    /// A player camera that is not the starting camera.
    pub fn new() -> (r: CameraComponent)
        ensures
            r == (CameraComponent { camera_type: CameraType::Player, starting_camera: false }),
    {
        CameraComponent { camera_type: CameraType::Player, ..CameraComponent::new() }
    }
}

/// Builds the component of a debug (viewport) camera.
pub struct DebugCamera;

impl DebugCamera {
    /// A debug camera that is not the starting camera.
    pub fn new() -> (r: CameraComponent)
        ensures
            r == (CameraComponent { camera_type: CameraType::Debug, starting_camera: false }),
    {
        CameraComponent { camera_type: CameraType::Debug, ..CameraComponent::new() }
    }
}

/// Which camera a freshly loaded scene looks through.
#[derive(Debug, Clone, Copy, PartialEq, Eq, Structural)]
pub enum CameraChoice {
    /// The camera entity with this id.
    Existing(u64),
    /// None fits: a viewport camera must be created.
    CreateViewport,
}

/// The index of the first camera satisfying `pred`, if any.
pub open spec fn first_camera(cams: Seq<(u64, CameraComponent)>, pred: spec_fn(CameraComponent) -> bool) -> Option<int>
    decreases cams.len(),
{
    if cams.len() == 0 {
        None
    } else {
        match first_camera(cams.drop_last(), pred) {
            Some(i) => Some(i),
            None => if pred(cams.last().1) {
                Some(cams.len() - 1)
            } else {
                None
            },
        }
    }
}

/// The camera a scene is viewed through: in play mode the first starting camera; in the editor
/// the first debug camera, or a new viewport camera when there is none.
pub open spec fn spec_choose_camera(cams: Seq<(u64, CameraComponent)>, is_play_mode: bool) -> CameraChoice {
    if is_play_mode {
        match first_camera(cams, |c: CameraComponent| c.starting_camera) {
            Some(i) => CameraChoice::Existing(cams[i].0),
            None => CameraChoice::CreateViewport,
        }
    } else {
        match first_camera(cams, |c: CameraComponent| c.camera_type == CameraType::Debug) {
            Some(i) => CameraChoice::Existing(cams[i].0),
            None => CameraChoice::CreateViewport,
        }
    }
}

/// Some camera of the list is a starting camera.
pub open spec fn has_starting_camera(cams: Seq<(u64, CameraComponent)>) -> bool {
    exists|i: int| 0 <= i < cams.len() && (#[trigger] cams[i]).1.starting_camera
}

/// Chooses the camera a loaded scene is viewed through, from the scene's cameras (entity id and
/// component) in world order. Play mode needs a starting camera: without one there is nothing to
/// play through.
pub fn choose_active_camera(cameras: &Vec<(u64, CameraComponent)>, is_play_mode: bool) -> (r: CameraChoice)
    requires
        is_play_mode ==> has_starting_camera(cameras@),
    ensures
        r == spec_choose_camera(cameras@, is_play_mode),
        is_play_mode ==> r is Existing,
{
    let ghost starting = |c: CameraComponent| c.starting_camera;
    let ghost debug = |c: CameraComponent| c.camera_type == CameraType::Debug;
    let mut i: usize = 0;
    while i < cameras.len()
        invariant
            i <= cameras@.len(),
            starting == (|c: CameraComponent| c.starting_camera),
            debug == (|c: CameraComponent| c.camera_type == CameraType::Debug),
            is_play_mode ==> first_camera(cameras@.take(i as int), starting) is None,
            !is_play_mode ==> first_camera(cameras@.take(i as int), debug) is None,
        decreases cameras@.len() - i,
    {
        assert(cameras@.take(i + 1).drop_last() =~= cameras@.take(i as int));
        let (id, comp) = cameras[i];
        if is_play_mode {
            if comp.starting_camera {
                proof {
                    lemma_first_camera_prefix(cameras@, starting, (i + 1) as int, i as int);
                }
                return CameraChoice::Existing(id);
            }
        } else if comp.camera_type == CameraType::Debug {
            proof {
                lemma_first_camera_prefix(cameras@, debug, (i + 1) as int, i as int);
            }
            return CameraChoice::Existing(id);
        }
        i += 1;
    }
    assert(cameras@.take(cameras@.len() as int) =~= cameras@);
    proof {
        if is_play_mode {
            let j = choose|j: int| 0 <= j < cameras@.len() && (#[trigger] cameras@[j]).1.starting_camera;
            lemma_first_camera_none(cameras@, starting, j);
        }
    }
    CameraChoice::CreateViewport
}

/// What `first_camera` finds: the position of the first camera that satisfies `pred`, or
/// `None` when none does.
proof fn lemma_first_camera_spec(cams: Seq<(u64, CameraComponent)>, pred: spec_fn(CameraComponent) -> bool)
    ensures
        first_camera(cams, pred) matches Some(i) ==> 0 <= i < cams.len() && pred(cams[i].1)
            && forall|j: int| 0 <= j < i ==> !pred(#[trigger] cams[j].1),
        first_camera(cams, pred) is None ==> forall|j: int| 0 <= j < cams.len() ==> !pred(#[trigger] cams[j].1),
    decreases cams.len(),
{
    if cams.len() > 0 {
        let t = cams.drop_last();
        lemma_first_camera_spec(t, pred);
        assert forall|j: int| 0 <= j < t.len() implies #[trigger] cams[j] == t[j] by {}
    }
}

/// Law: in the editor the chosen camera is the first debug camera, whatever the starting
/// flags, and a viewport camera is created exactly when the scene has no debug camera; in play
/// mode it is the first starting camera, whatever the camera kinds.
pub proof fn law_camera_choice(cams: Seq<(u64, CameraComponent)>)
    ensures
        spec_choose_camera(cams, false) == CameraChoice::CreateViewport <==> forall|i: int|
            0 <= i < cams.len() ==> (#[trigger] cams[i]).1.camera_type != CameraType::Debug,
        spec_choose_camera(cams, false) matches CameraChoice::Existing(id) ==> exists|i: int|
            0 <= i < cams.len() && (#[trigger] cams[i]).0 == id && cams[i].1.camera_type
                == CameraType::Debug && forall|j: int|
                0 <= j < i ==> (#[trigger] cams[j]).1.camera_type != CameraType::Debug,
        spec_choose_camera(cams, true) == CameraChoice::CreateViewport <==> forall|i: int|
            0 <= i < cams.len() ==> !(#[trigger] cams[i]).1.starting_camera,
        spec_choose_camera(cams, true) matches CameraChoice::Existing(id) ==> exists|i: int|
            0 <= i < cams.len() && (#[trigger] cams[i]).0 == id && cams[i].1.starting_camera
                && forall|j: int| 0 <= j < i ==> !(#[trigger] cams[j]).1.starting_camera,
{
    let debug = |c: CameraComponent| c.camera_type == CameraType::Debug;
    let starting = |c: CameraComponent| c.starting_camera;
    lemma_first_camera_spec(cams, debug);
    lemma_first_camera_spec(cams, starting);
    if let Some(i) = first_camera(cams, debug) {
        assert(debug(cams[i].1));
    }
    if let Some(i) = first_camera(cams, starting) {
        assert(starting(cams[i].1));
    }
    assert forall|j: int| 0 <= j < cams.len() implies (debug(cams[j].1) <==> (#[trigger] cams[j]).1.camera_type == CameraType::Debug) by {}
    assert forall|j: int| 0 <= j < cams.len() implies (starting(cams[j].1) <==> (#[trigger] cams[j]).1.starting_camera) by {}
}

/// A first match found in a prefix is the first match of the whole sequence.
proof fn lemma_first_camera_prefix(
    cams: Seq<(u64, CameraComponent)>,
    pred: spec_fn(CameraComponent) -> bool,
    k: int,
    i: int,
)
    requires
        0 <= k <= cams.len(),
        first_camera(cams.take(k), pred) == Some(i),
    ensures
        first_camera(cams, pred) == Some(i),
    decreases cams.len() - k,
{
    if k < cams.len() {
        assert(cams.take(k + 1).drop_last() =~= cams.take(k));
        lemma_first_camera_prefix(cams, pred, k + 1, i);
    } else {
        assert(cams.take(k) =~= cams);
    }
}

/// When no match was found, no element matches.
proof fn lemma_first_camera_none(cams: Seq<(u64, CameraComponent)>, pred: spec_fn(CameraComponent) -> bool, j: int)
    requires
        first_camera(cams, pred) is None,
        0 <= j < cams.len(),
    ensures
        !pred(cams[j].1),
    decreases cams.len(),
{
    if j < cams.len() - 1 {
        lemma_first_camera_none(cams.drop_last(), pred, j);
    }
}

} // verus!
