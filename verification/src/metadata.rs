//! Asset metadata: the editor's registry entries and the runtime's packed manifest entries.
use crate::digest::{sha256, sha256_of};
use crate::paths::{file_extension, file_stem, join, path_extension, path_file_stem, path_join, path_strip_prefix, strip_prefix};
use crate::resource::ResourceReference;
use crate::text::{ascii_lower, chars_eq_str, lower_chars, push_str, str_eq};
use vstd::prelude::*;

verus! {

/// A point in time, as the standard library's clock gives it.
#[verifier::external_type_specification]
#[verifier::external_body]
pub struct ExSystemTime(std::time::SystemTime);

/// The kind of asset: used for filtering in the asset browser and to pick an importer.
#[derive(Debug, Clone, Copy, PartialEq, Eq, Structural, Hash)]
pub enum AssetType {
    Mesh,
    Texture,
    Audio,
    Material,
    Scene,
    Script,
}

/// A single entry in the editor's asset registry, written to a `.eucmeta` sidecar.
#[derive(Debug)]
pub struct AssetEntry {
    /// The stable, permanent identity of the asset (a UUID, by its 128 bits).
    pub uuid: u128,
    /// Display name shown in the asset browser.
    pub name: String,
    /// The kind of asset.
    pub asset_type: AssetType,
    /// Where the source file lives, relative to the project root.
    pub location: ResourceReference,
    /// Path of the compiled output relative to the project root, when there is one.
    pub compiled_path: Option<String>,
    /// SHA-256 of the source file at the last successful import.
    pub source_hash: [u8; 32],
    /// When the asset was last imported.
    pub import_time: std::time::SystemTime,
    /// UUIDs of the assets that this one references directly.
    pub dependencies: Vec<u128>,
}

/// Why an asset entry could not be made.
#[derive(Debug)]
pub enum MetadataError {
    /// The file's extension names no known asset type.
    UnknownAssetType { path: String },
}

/// The asset type that a (case-insensitive) file extension stands for.
pub open spec fn spec_asset_type_for(ext: Seq<char>) -> Option<AssetType> {
    let l = ascii_lower(ext);
    if l == "obj"@ || l == "gltf"@ || l == "glb"@ || l == "fbx"@ || l == "eucmdl"@ || l
        == "eucbin"@ {
        Some(AssetType::Mesh)
    } else if l == "png"@ || l == "jpg"@ || l == "jpeg"@ || l == "webp"@ || l == "hdr"@ || l
        == "tga"@ || l == "bmp"@ || l == "exr"@ {
        Some(AssetType::Texture)
    } else if l == "wav"@ || l == "ogg"@ || l == "flac"@ || l == "mp3"@ {
        Some(AssetType::Audio)
    } else if l == "eucs"@ {
        Some(AssetType::Scene)
    } else if l == "kt"@ || l == "kts"@ {
        Some(AssetType::Script)
    } else {
        None
    }
}

/// Law: the asset type of an extension ignores ASCII case: an extension and its lower-case
/// form name the same type.
pub proof fn law_asset_type_ignores_case(ext: Seq<char>)
    ensures
        spec_asset_type_for(ascii_lower(ext)) == spec_asset_type_for(ext),
{
    assert(ascii_lower(ascii_lower(ext)) =~= ascii_lower(ext));
}

/// The asset type of the file at `path`, by its extension.
pub open spec fn spec_detect_asset_type(path: Seq<char>) -> Option<AssetType> {
    match path_extension(path) {
        Some(e) => spec_asset_type_for(e),
        None => None,
    }
}

/// The asset type that the extension `ext` stands for, ignoring ASCII case; `None` when unknown.
pub fn asset_type_for_extension(ext: &str) -> (r: Option<AssetType>)
    ensures
        r == spec_asset_type_for(ext@),
{
    let l = lower_chars(ext);
    if chars_eq_str(&l, "obj") || chars_eq_str(&l, "gltf") || chars_eq_str(&l, "glb")
        || chars_eq_str(&l, "fbx") || chars_eq_str(&l, "eucmdl") || chars_eq_str(&l, "eucbin") {
        Some(AssetType::Mesh)
    } else if chars_eq_str(&l, "png") || chars_eq_str(&l, "jpg") || chars_eq_str(&l, "jpeg")
        || chars_eq_str(&l, "webp") || chars_eq_str(&l, "hdr") || chars_eq_str(&l, "tga")
        || chars_eq_str(&l, "bmp") || chars_eq_str(&l, "exr") {
        Some(AssetType::Texture)
    } else if chars_eq_str(&l, "wav") || chars_eq_str(&l, "ogg") || chars_eq_str(&l, "flac")
        || chars_eq_str(&l, "mp3") {
        Some(AssetType::Audio)
    } else if chars_eq_str(&l, "eucs") {
        Some(AssetType::Scene)
    } else if chars_eq_str(&l, "kt") || chars_eq_str(&l, "kts") {
        Some(AssetType::Script)
    } else {
        None
    }
}

/// Detects the asset type of the file at `path` from its extension; `None` when the extension
/// is absent or unknown.
pub fn detect_asset_type(path: &str) -> (r: Option<AssetType>)
    ensures
        r == spec_detect_asset_type(path@),
{
    match file_extension(path) {
        Some(e) => asset_type_for_extension(&e),
        None => None,
    }
}

/// The 32-byte SHA-256 digest of a file's contents, as stored in `source_hash`.
pub fn content_hash(bytes: &[u8]) -> (r: [u8; 32])
    ensures
        r@ == sha256_of(bytes@),
{
    let digest = sha256(bytes);
    let mut hash = [0u8; 32];
    let mut i: usize = 0;
    while i < 32
        invariant
            digest@ == sha256_of(bytes@),
            digest@.len() == 32,
            i <= 32,
            forall|j: int| 0 <= j < i ==> hash@[j] == digest@[j],
        decreases 32 - i,
    {
        hash[i] = digest[i];
        i += 1;
    }
    assert(hash@ =~= digest@);
    hash
}

/// The path of the `.eucmeta` sidecar of the file at `source_path`.
pub fn eucmeta_path(source_path: &str) -> (r: String)
    ensures
        r@ == source_path@ + ".eucmeta"@,
{
    let mut r = source_path.to_owned();
    push_str(&mut r, ".eucmeta");
    r
}

/// The display name of a newly imported asset: its file stem, or `unnamed`.
pub open spec fn spec_import_name(source_path: Seq<char>) -> Seq<char> {
    match path_file_stem(source_path) {
        Some(s) => s,
        None => "unnamed"@,
    }
}

/// The stored location of a newly imported asset: relative to the project root when the file
/// lies under it, else the path as given.
pub open spec fn spec_import_location(source_path: Seq<char>, project_root: Seq<char>) -> Seq<
    char,
> {
    match path_strip_prefix(source_path, project_root) {
        Some(r) => r,
        None => source_path,
    }
}

/// Builds the registry entry for a freshly imported file, given its digest, a fresh UUID and
/// the import time. Fails when the file's extension names no known asset type.
pub fn new_asset_entry(
    source_path: &str,
    project_root: &str,
    source_hash: [u8; 32],
    uuid: u128,
    import_time: std::time::SystemTime,
) -> (r: Result<AssetEntry, MetadataError>)
    ensures
        r is Err <==> spec_detect_asset_type(source_path@) is None,
        r matches Err(MetadataError::UnknownAssetType { path }) ==> path@ == source_path@,
        r matches Ok(e) ==> {
            &&& e.uuid == uuid
            &&& e.name@ == spec_import_name(source_path@)
            &&& Some(e.asset_type) == spec_detect_asset_type(source_path@)
            &&& e.location matches ResourceReference::File(p) && p@ == spec_import_location(
                source_path@,
                project_root@,
            )
            &&& e.compiled_path is None
            &&& e.source_hash@ == source_hash@
            &&& e.import_time == import_time
            &&& e.dependencies@.len() == 0
        },
{
    let asset_type = match detect_asset_type(source_path) {
        Some(t) => t,
        None => {
            return Err(MetadataError::UnknownAssetType { path: source_path.to_owned() });
        },
    };
    let name = match file_stem(source_path) {
        Some(s) => s,
        None => "unnamed".to_owned(),
    };
    let relative = match strip_prefix(source_path, project_root) {
        Some(p) => p,
        None => source_path.to_owned(),
    };
    Ok(
        AssetEntry {
            uuid,
            name,
            asset_type,
            location: ResourceReference::File(relative),
            compiled_path: None,
            source_hash,
            import_time,
            dependencies: Vec::new(),
        },
    )
}

impl AssetEntry {
    /// Resolves the entry to a reference for the loader: a file under `project_root`, or the
    /// procedural marker. `None` for embedded and packed locations.
    pub fn to_reference(&self, project_root: &str) -> (r: Option<ResourceReference>)
        ensures
            match self.location {
                ResourceReference::File(rel) => r matches Some(ResourceReference::File(p)) && p@
                    == path_join(project_root@, rel@),
                ResourceReference::Procedural => r matches Some(ResourceReference::Procedural),
                _ => r is None,
            },
    {
        match &self.location {
            ResourceReference::File(relative) => Some(
                ResourceReference::File(join(project_root, relative)),
            ),
            ResourceReference::Procedural => Some(ResourceReference::Procedural),
            _ => None,
        }
    }

    /// Resolves an embedded asset to a reference holding the bytes supplied by the caller.
    pub fn to_embedded_reference(&self, bytes: &[u8]) -> (r: ResourceReference)
        ensures
            r matches ResourceReference::Embedded(b) && b@ == bytes@,
    {
        let mut v: Vec<u8> = Vec::new();
        let mut i: usize = 0;
        while i < bytes.len()
            invariant
                i <= bytes@.len(),
                v@ == bytes@.take(i as int),
            decreases bytes@.len() - i,
        {
            v.push(bytes[i]);
            assert(v@ =~= bytes@.take(i + 1));
            i += 1;
        }
        assert(bytes@.take(bytes@.len() as int) =~= bytes@);
        ResourceReference::Embedded(v)
    }

    /// Whether the source must be reimported: its current digest differs from the stored one.
    pub fn is_stale(&self, current_hash: &[u8; 32]) -> (r: bool)
        ensures
            r == (self.source_hash@ != current_hash@),
    {
        let mut i: usize = 0;
        while i < 32
            invariant
                i <= 32,
                forall|j: int| 0 <= j < i ==> self.source_hash@[j] == current_hash@[j],
            decreases 32 - i,
        {
            if self.source_hash[i] != current_hash[i] {
                return true;
            }
            i += 1;
        }
        assert(self.source_hash@ =~= current_hash@);
        false
    }
}

/// What the resources watcher does with one file it finds.
#[derive(Debug, Clone, Copy, PartialEq, Eq, Structural)]
pub enum WatchStep {
    /// A sidecar itself, or a file of no known asset type: left alone.
    Skip,
    /// An asset without a sidecar: its entry is generated.
    CreateEntry,
    /// An asset with a sidecar: its entry is checked against the file's current digest.
    CheckEntry,
}

/// What the resources watcher does with the file at `path`, given whether its sidecar exists.
pub open spec fn spec_watch_step(path: Seq<char>, sidecar_exists: bool) -> WatchStep {
    if path_extension(path) == Some("eucmeta"@) || spec_detect_asset_type(path) is None {
        WatchStep::Skip
    } else if sidecar_exists {
        WatchStep::CheckEntry
    } else {
        WatchStep::CreateEntry
    }
}

/// Decides what the resources watcher does with the file at `path`; see [`spec_watch_step`].
pub fn watch_step(path: &str, sidecar_exists: bool) -> (r: WatchStep)
    ensures
        r == spec_watch_step(path@, sidecar_exists),
{
    let is_sidecar = match file_extension(path) {
        Some(e) => str_eq(e.as_str(), "eucmeta"),
        None => false,
    };
    if is_sidecar || detect_asset_type(path).is_none() {
        WatchStep::Skip
    } else if sidecar_exists {
        WatchStep::CheckEntry
    } else {
        WatchStep::CreateEntry
    }
}

impl AssetEntry {
    /// Brings a stale entry up to date with the file's current digest, stamping it with `now`;
    /// an entry that is not stale is left as it is. Returns whether the entry changed.
    pub fn refresh(&mut self, current_hash: [u8; 32], now: std::time::SystemTime) -> (r: bool)
        ensures
            r == (old(self).source_hash@ != current_hash@),
            r ==> final(self).source_hash@ == current_hash@ && final(self).import_time == now,
            !r ==> final(self).source_hash == old(self).source_hash && final(self).import_time
                == old(self).import_time,
            final(self).uuid == old(self).uuid,
            final(self).name == old(self).name,
            final(self).asset_type == old(self).asset_type,
            final(self).location == old(self).location,
            final(self).compiled_path == old(self).compiled_path,
            final(self).dependencies == old(self).dependencies,
    {
        if self.is_stale(&current_hash) {
            self.source_hash = current_hash;
            self.import_time = now;
            true
        } else {
            false
        }
    }
}

/// The asset kind as stored in a packed manifest, without the editor-only variants.
#[derive(Debug, Clone, Copy, PartialEq, Eq, Structural)]
pub enum PackedAssetType {
    Mesh,
    Texture,
    Audio,
    Material,
    Scene,
    Script,
}

/// One entry of the runtime's packed asset manifest.
#[derive(Debug)]
pub struct PackedAssetEntry {
    /// The UUID of the asset (its 128 bits), as in the editor's entry.
    pub uuid: u128,
    /// The kind of asset, so the loader can pick a deserializer.
    pub asset_type: PackedAssetType,
    /// Byte offset of the asset's data from the start of the pack's data block.
    pub offset: u64,
    /// Length in bytes of the asset's data.
    pub length: u64,
    /// UUIDs of the assets that must be loaded before this one.
    pub dependencies: Vec<u128>,
}

} // verus!
