//! Settings of a packaged project at runtime.
use crate::bundle::SemVersion;
use vstd::prelude::*;

verus! {

/// The settings of a project while it runs (as opposed to those of one scene).
#[derive(Debug)]
pub struct RuntimeSettings {
    /// The first scene shown; when unset, the first scene of the project.
    pub initial_scene: Option<String>,
    /// The frame rate to aim for, when set.
    pub target_fps: Option<u32>,
}

impl RuntimeSettings {
    /// No initial scene and no target frame rate.
    pub fn new() -> (r: Self)
        ensures
            r.initial_scene is None,
            r.target_fps is None,
    {
        RuntimeSettings { initial_scene: None, target_fps: None }
    }
}

impl Default for RuntimeSettings {
    fn default() -> (r: Self)
        ensures
            r.initial_scene is None,
            r.target_fps is None,
    {
        Self::new()
    }
}

/// Who made the project.
#[derive(Debug)]
pub struct Authoring {
    /// The team behind the game.
    pub developer: String,
}

impl Default for Authoring {
    fn default() -> (r: Self)
        ensures
            r.developer@ == "Some pretty good developers"@,
    {
        Authoring { developer: "Some pretty good developers".to_owned() }
    }
}

/// Why a runtime configuration could not be made.
#[derive(Debug)]
pub enum RuntimeError {
    /// No initial scene is configured and the project has no scene.
    NoScene,
}

/// The scene a packaged project starts in: the configured one, else the first scene of the
/// project; an error when there is neither.
pub fn resolve_initial_scene(configured: &Option<String>, scene_names: &Vec<String>) -> (r: Result<
    String,
    RuntimeError,
>)
    ensures
        match configured {
            Some(s) => r matches Ok(n) && n@ == s@,
            None => if scene_names@.len() > 0 {
                r matches Ok(n) && n@ == scene_names@[0]@
            } else {
                r matches Err(RuntimeError::NoScene)
            },
        },
{
    match configured {
        Some(s) => Ok(s.clone()),
        None => {
            if scene_names.len() > 0 {
                Ok(scene_names[0].clone())
            } else {
                Err(RuntimeError::NoScene)
            }
        },
    }
}

/// What `semver::Version::parse` gives for a text: `major`, `minor`, `patch`, the pre-release
/// and the build metadata, or `None` when the text is not a version.
pub uninterp spec fn semver_parse(text: Seq<char>) -> Option<(u64, u64, u64, Seq<char>, Seq<char>)>;

/// The parts of a version, as text.
pub open spec fn version_parts(v: SemVersion) -> (u64, u64, u64, Seq<char>, Seq<char>) {
    (v.major, v.minor, v.patch, v.pre@, v.build@)
}

/// Parses a semantic version (`semver::Version::parse`).
#[verifier::external_body]
pub(crate) fn parse_version(text: &str) -> (r: Option<SemVersion>)
    ensures
        match r {
            Some(v) => semver_parse(text@) == Some(version_parts(v)),
            None => semver_parse(text@) is None,
        },
{
    semver::Version::parse(text).ok().map(|v| SemVersion {
        major: v.major,
        minor: v.minor,
        patch: v.patch,
        pre: v.pre.as_str().to_owned(),
        build: v.build.as_str().to_owned(),
    })
}

/// The version of a project: its version text parsed, or `0.1.0` when that is not a version.
pub fn project_version_or_default(text: &str) -> (r: SemVersion)
    ensures
        match semver_parse(text@) {
            Some(p) => version_parts(r) == p,
            None => version_parts(r) == (0u64, 1u64, 0u64, Seq::<char>::empty(), Seq::<char>::empty()),
        },
{
    match parse_version(text) {
        Some(v) => v,
        None => {
            let v = SemVersion::new(0, 1, 0);
            assert(v.pre@ =~= Seq::<char>::empty());
            assert(v.build@ =~= Seq::<char>::empty());
            v
        },
    }
}

/// The runtime settings a packaged project is populated with: those it was packed with, with
/// its initial scene filled in when none was set.
pub fn settings_for_population(settings: &RuntimeSettings, initial_scene: &String) -> (r: RuntimeSettings)
    ensures
        r.target_fps == settings.target_fps,
        match settings.initial_scene {
            Some(s) => r.initial_scene matches Some(t) && t@ == s@,
            None => r.initial_scene matches Some(t) && t@ == initial_scene@,
        },
{
    let initial = match &settings.initial_scene {
        Some(s) => s.clone(),
        None => initial_scene.clone(),
    };
    RuntimeSettings { initial_scene: Some(initial), target_fps: settings.target_fps }
}

} // verus!
