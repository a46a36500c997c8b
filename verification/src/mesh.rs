//! Finding a material of a model by the label a script gives for it, and telling model files
//! by their names.
use crate::components::opt_text;
use crate::paths::{file_extension, path_extension};
use crate::text::{ascii_lower, chars_eq_str, lower_chars, str_eq};
use vstd::prelude::*;

verus! {

/// The names by which a material of a model can be addressed.
#[derive(Debug, Clone)]
pub struct MaterialLabel {
    /// The material's name.
    pub name: String,
    /// The tag of its texture, when it has one.
    pub texture_tag: Option<String>,
}

/// A material answers to `target` when its texture tag or its name is `target`.
pub open spec fn spec_matches_material_label(m: MaterialLabel, target: Seq<char>) -> bool {
    opt_text(m.texture_tag) == Some(target) || m.name@ == target
}

/// Law: a material answers to its own name whatever its texture tag, answers to its texture
/// tag, and answers to nothing else.
pub proof fn law_material_label_matches(m: MaterialLabel, target: Seq<char>)
    ensures
        m.name@ == target ==> spec_matches_material_label(m, target),
        (m.texture_tag matches Some(t) && t@ == target) ==> spec_matches_material_label(m, target),
        spec_matches_material_label(m, target) ==> m.name@ == target || (m.texture_tag matches Some(
            t,
        ) && t@ == target),
{
}

/// Whether the material answers to `target`; see [`spec_matches_material_label`].
pub fn matches_material_label(m: &MaterialLabel, target: &str) -> (r: bool)
    ensures
        r == spec_matches_material_label(*m, target@),
{
    let tagged = match &m.texture_tag {
        Some(t) => str_eq(t.as_str(), target),
        None => false,
    };
    tagged || str_eq(m.name.as_str(), target)
}

/// The position of the first material that answers to `target`.
pub fn resolve_target_material_index(materials: &[MaterialLabel], target: &str) -> (r: Option<
    usize,
>)
    ensures
        r is None <==> forall|i: int|
            0 <= i < materials@.len() ==> !spec_matches_material_label(
                #[trigger] materials@[i],
                target@,
            ),
        r matches Some(k) ==> k < materials@.len() && spec_matches_material_label(
            materials@[k as int],
            target@,
        ) && forall|j: int|
            0 <= j < k ==> !spec_matches_material_label(#[trigger] materials@[j], target@),
{
    let mut i: usize = 0;
    while i < materials.len()
        invariant
            i <= materials@.len(),
            forall|j: int|
                0 <= j < i ==> !spec_matches_material_label(#[trigger] materials@[j], target@),
        decreases materials@.len() - i,
    {
        if matches_material_label(&materials[i], target) {
            return Some(i);
        }
        i = i + 1;
    }
    None
}

/// The name of the first material that answers to `target`.
pub fn resolve_target_material_name(materials: &[MaterialLabel], target: &str) -> (r: Option<
    String,
>)
    ensures
        r is None <==> forall|i: int|
            0 <= i < materials@.len() ==> !spec_matches_material_label(
                #[trigger] materials@[i],
                target@,
            ),
        r matches Some(n) ==> exists|k: int|
            0 <= k < materials@.len() && spec_matches_material_label(
                #[trigger] materials@[k],
                target@,
            ) && n@ == materials@[k].name@ && forall|j: int|
                0 <= j < k ==> !spec_matches_material_label(#[trigger] materials@[j], target@),
{
    match resolve_target_material_index(materials, target) {
        Some(k) => Some(materials[k].name.clone()),
        None => None,
    }
}

/// `s` ends with `suffix`.
pub open spec fn ends_with(s: Seq<char>, suffix: Seq<char>) -> bool {
    s.len() >= suffix.len() && s.subrange(s.len() - suffix.len(), s.len() as int) == suffix
}

/// Whether the characters `s` end with the text `suffix`.
fn chars_end_with(s: &Vec<char>, suffix: &str) -> (r: bool)
    ensures
        r == ends_with(s@, suffix@),
{
    let n = suffix.unicode_len();
    let len = s.len();
    if len < n {
        return false;
    }
    let start = len - n;
    let mut i: usize = 0;
    while i < n
        invariant
            n == suffix@.len(),
            start + n == len,
            len == s@.len(),
            i <= n,
            forall|j: int| 0 <= j < i ==> s@[start + j] == suffix@[j],
        decreases n - i,
    {
        if s[start + i] != suffix.get_char(i) {
            assert(s@.subrange(start as int, s@.len() as int)[i as int] != suffix@[i as int]);
            return false;
        }
        i = i + 1;
    }
    assert(s@.subrange(start as int, s@.len() as int) =~= suffix@);
    true
}

/// A URI names a model file when, ignoring ASCII case, it ends in `.glb`, `.gltf`, `.obj` or
/// `.fbx`.
pub open spec fn spec_is_probably_model_uri(uri: Seq<char>) -> bool {
    let l = ascii_lower(uri);
    ends_with(l, ".glb"@) || ends_with(l, ".gltf"@) || ends_with(l, ".obj"@) || ends_with(
        l,
        ".fbx"@,
    )
}

/// Whether `uri` names a model file; see [`spec_is_probably_model_uri`].
pub fn is_probably_model_uri(uri: &str) -> (r: bool)
    ensures
        r == spec_is_probably_model_uri(uri@),
{
    let l = lower_chars(uri);
    chars_end_with(&l, ".glb") || chars_end_with(&l, ".gltf") || chars_end_with(&l, ".obj")
        || chars_end_with(&l, ".fbx")
}

/// Where a mesh renderer's model comes from when its component is loaded.
#[derive(Debug, Clone, Copy, PartialEq, Eq, Structural)]
pub enum ModelSource {
    /// The asset with this UUID (its 128 bits), looked up in the project's sidecars.
    Asset(u128),
    /// The procedural geometry saved with the component, rebuilt.
    Procedural,
    /// No model: the renderer starts with the null handle.
    Empty,
}

/// The model source of a saved mesh renderer: its asset UUID when it has one, else its saved
/// procedural geometry when it has some, else none.
pub fn model_source(uuid: Option<u128>, has_procedural: bool) -> (r: ModelSource)
    ensures
        r == match uuid {
            Some(u) => ModelSource::Asset(u),
            None => if has_procedural {
                ModelSource::Procedural
            } else {
                ModelSource::Empty
            },
        },
{
    match uuid {
        Some(u) => ModelSource::Asset(u),
        None => if has_procedural {
            ModelSource::Procedural
        } else {
            ModelSource::Empty
        },
    }
}

/// How a model file is read.
#[derive(Debug, Clone, Copy, PartialEq, Eq, Structural)]
pub enum ModelFormat {
    /// The engine's compiled `.eucmdl` format.
    Compiled,
    /// Any other format, handed to the general model importer.
    Imported,
}

/// How the model file at `path` is read: compiled when its extension is `eucmdl` in any ASCII
/// case, imported otherwise.
pub fn model_format(path: &str) -> (r: ModelFormat)
    ensures
        r == (if path_extension(path@) matches Some(e) && ascii_lower(e) == "eucmdl"@ {
            ModelFormat::Compiled
        } else {
            ModelFormat::Imported
        }),
{
    match file_extension(path) {
        Some(e) => {
            let l = lower_chars(e.as_str());
            if chars_eq_str(&l, "eucmdl") {
                ModelFormat::Compiled
            } else {
                ModelFormat::Imported
            }
        },
        None => ModelFormat::Imported,
    }
}

} // verus!
