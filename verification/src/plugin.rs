//! Plugin bundles: where their files may be extracted, which artifacts load on this machine,
//! the integrity check of their contents, and the set of loaded plugins.
use crate::assoc::{assoc_map, has_key, lemma_assoc_absent, lemma_assoc_at, lemma_assoc_push, lemma_assoc_remove, unique_keys};
use crate::bundle::{Arch, BundleManifest, NativeLib, Platform};
use crate::digest::{sha256, sha256_of};
use crate::label::without;
use crate::order::{sort_strings, sorted_texts, strings};
use crate::paths::{join, path_join};
use crate::text::{hex_lower, str_eq, to_hex_lower};
use vstd::prelude::*;

verus! {

/// One component of a path, as `std::path::Component` tells them apart.
#[derive(Debug)]
pub enum PathPart {
    /// A plain file or directory name.
    Normal(String),
    /// `.`
    CurDir,
    /// `..`
    ParentDir,
    /// The root directory.
    RootDir,
    /// A Windows path prefix such as a drive letter.
    Prefix,
}

/// A path component, by its text.
pub enum PartView {
    Normal(Seq<char>),
    CurDir,
    ParentDir,
    RootDir,
    Prefix,
}

impl View for PathPart {
    type V = PartView;

    open spec fn view(&self) -> PartView {
        match self {
            PathPart::Normal(s) => PartView::Normal(s@),
            PathPart::CurDir => PartView::CurDir,
            PathPart::ParentDir => PartView::ParentDir,
            PathPart::RootDir => PartView::RootDir,
            PathPart::Prefix => PartView::Prefix,
        }
    }
}

/// What `std::path::Path::components` gives for a path.
pub uninterp spec fn path_components(path: Seq<char>) -> Seq<PartView>;

/// The components of `path` (`Path::components`).
#[verifier::external_body]
pub(crate) fn path_parts(path: &str) -> (r: Vec<PathPart>)
    ensures
        r@.map_values(|p: PathPart| p@) == path_components(path@),
{
    std::path::Path::new(path).components().map(|c| match c {
        std::path::Component::Normal(s) => PathPart::Normal(s.to_string_lossy().into_owned()),
        std::path::Component::CurDir => PathPart::CurDir,
        std::path::Component::ParentDir => PathPart::ParentDir,
        std::path::Component::RootDir => PathPart::RootDir,
        std::path::Component::Prefix(_) => PathPart::Prefix,
    }).collect()
}

/// Why a plugin could not be loaded.
#[derive(Debug)]
pub enum PluginError {
    /// A bundle entry name would leave the extraction directory.
    UnsafePath { entry: String },
    /// The digest of the bundle contents differs from the one in the manifest.
    ContentHashMismatch { plugin: String },
    /// The bundle has neither a JAR nor a native library usable on this machine.
    NoCompatibleArtifact { plugin: String },
}

/// `base` with the components `parts` appended; `None` when a component is `..`, a root or a
/// prefix.
pub open spec fn extract_target(base: Seq<char>, parts: Seq<PartView>) -> Option<Seq<char>>
    decreases parts.len(),
{
    if parts.len() == 0 {
        Some(base)
    } else {
        match extract_target(base, parts.drop_last()) {
            None => None,
            Some(r) => match parts.last() {
                PartView::Normal(s) => Some(path_join(r, s)),
                PartView::CurDir => Some(r),
                _ => None,
            },
        }
    }
}

/// Returns `base / entry_name`, rejecting names that would escape `base` (parent-directory,
/// root or prefix components).
pub fn safe_extract_path(base: &str, entry_name: &str) -> (r: Result<String, PluginError>)
    ensures
        match extract_target(base@, path_components(entry_name@)) {
            Some(p) => r matches Ok(s) && s@ == p,
            None => r matches Err(PluginError::UnsafePath { entry }) && entry@ == entry_name@,
        },
{
    let parts = path_parts(entry_name);
    let ghost pv = parts@.map_values(|p: PathPart| p@);
    let mut result: String = base.to_owned();
    let mut i: usize = 0;
    while i < parts.len()
        invariant
            i <= parts@.len(),
            pv == parts@.map_values(|p: PathPart| p@),
            pv == path_components(entry_name@),
            extract_target(base@, pv.take(i as int)) == Some(result@),
        decreases parts@.len() - i,
    {
        assert(pv.take(i + 1).drop_last() =~= pv.take(i as int));
        assert(pv.take(i + 1).last() == parts@[i as int]@);
        match &parts[i] {
            PathPart::Normal(part) => {
                result = join(&result, part);
            },
            PathPart::CurDir => {},
            _ => {
                proof {
                    lemma_extract_none_extends(base@, pv, (i + 1) as int);
                }
                return Err(PluginError::UnsafePath { entry: entry_name.to_owned() });
            },
        }
        i += 1;
    }
    assert(pv.take(parts@.len() as int) =~= pv);
    Ok(result)
}

/// Once a prefix of the components is rejected, the whole path is.
proof fn lemma_extract_none_extends(base: Seq<char>, parts: Seq<PartView>, k: int)
    requires
        0 <= k <= parts.len(),
        extract_target(base, parts.take(k)) is None,
    ensures
        extract_target(base, parts) is None,
    decreases parts.len() - k,
{
    if k < parts.len() {
        assert(parts.take(k + 1).drop_last() =~= parts.take(k));
        lemma_extract_none_extends(base, parts, k + 1);
    } else {
        assert(parts.take(k) =~= parts);
    }
}

/// The platform a binary built for the operating system `os` (as `std::env::consts::OS` names
/// it) runs on: Windows and macOS by name, Linux for everything else.
pub fn platform_from_os(os: &str) -> (r: Platform)
    ensures
        r == (if os@ == "windows"@ {
            Platform::Windows
        } else if os@ == "macos"@ {
            Platform::MacOs
        } else {
            Platform::Linux
        }),
{
    if str_eq(os, "windows") {
        Platform::Windows
    } else if str_eq(os, "macos") {
        Platform::MacOs
    } else {
        Platform::Linux
    }
}

/// The architecture of a binary built for `arch` (as `std::env::consts::ARCH` names it):
/// `aarch64` is Arm64, everything else X64.
pub fn arch_from_target(arch: &str) -> (r: Arch)
    ensures
        r == (if arch@ == "aarch64"@ {
            Arch::Arm64
        } else {
            Arch::X64
        }),
{
    if str_eq(arch, "aarch64") {
        Arch::Arm64
    } else {
        Arch::X64
    }
}

/// A native library suits a machine when it targets its platform (or all platforms) and its
/// architecture.
pub open spec fn lib_fits(lib: NativeLib, platform: Platform, arch: Arch) -> bool {
    (lib.platform == platform || lib.platform == Platform::All) && lib.arch == arch
}

/// The path of the first native library of the list that suits the machine, if any.
pub fn select_native_lib(libs: &Vec<NativeLib>, platform: Platform, arch: Arch) -> (r: Option<
    String,
>)
    ensures
        match r {
            None => forall|i: int| 0 <= i < libs@.len() ==> !lib_fits(#[trigger] libs@[i], platform, arch),
            Some(p) => exists|i: int|
                0 <= i < libs@.len() && lib_fits(#[trigger] libs@[i], platform, arch) && p@
                    == libs@[i].path@ && forall|j: int|
                    0 <= j < i ==> !lib_fits(#[trigger] libs@[j], platform, arch),
        },
{
    let mut i: usize = 0;
    while i < libs.len()
        invariant
            i <= libs@.len(),
            forall|j: int| 0 <= j < i ==> !lib_fits(#[trigger] libs@[j], platform, arch),
        decreases libs@.len() - i,
    {
        let lib = &libs[i];
        if (lib.platform == platform || lib.platform == Platform::All) && lib.arch == arch {
            return Some(lib.path.clone());
        }
        i += 1;
    }
    None
}

/// What a bundle loads as.
#[derive(Debug)]
pub enum PluginLayout {
    /// Only a JAR.
    Jvm { jar: String },
    /// Only a native library.
    Native { lib: String },
    /// Both a JAR and a native library.
    Hybrid { jar: String, lib: String },
}

/// Decides how the plugin `name` loads from its JAR and its suitable native library: either,
/// or both; an error when it has neither.
pub fn plugin_layout(name: &str, jar: Option<String>, native_lib: Option<String>) -> (r: Result<
    PluginLayout,
    PluginError,
>)
    ensures
        match (jar, native_lib) {
            (Some(j), None) => r matches Ok(PluginLayout::Jvm { jar }) && jar == j,
            (None, Some(l)) => r matches Ok(PluginLayout::Native { lib }) && lib == l,
            (Some(j), Some(l)) => r matches Ok(PluginLayout::Hybrid { jar, lib }) && jar == j && lib
                == l,
            (None, None) => r matches Err(PluginError::NoCompatibleArtifact { plugin }) && plugin@
                == name@,
        },
{
    match (jar, native_lib) {
        (Some(jar), None) => Ok(PluginLayout::Jvm { jar }),
        (None, Some(lib)) => Ok(PluginLayout::Native { lib }),
        (Some(jar), Some(lib)) => Ok(PluginLayout::Hybrid { jar, lib }),
        (None, None) => Err(PluginError::NoCompatibleArtifact { plugin: name.to_owned() }),
    }
}

/// The name of the manifest entry, which the content digest leaves out.
pub open spec fn manifest_entry() -> Seq<char> {
    "manifest.eucc"@
}

/// The bundle entries whose contents the digest covers, in the order they are hashed: every
/// entry but the manifest, sorted by name.
pub fn hashed_entry_names(names: Vec<String>) -> (r: Vec<String>)
    ensures
        sorted_texts(strings(r@)),
        strings(r@).to_multiset() == without(strings(names@), manifest_entry()).to_multiset(),
{
    let ghost orig = strings(names@);
    let mut kept: Vec<String> = Vec::new();
    let manifest: String = "manifest.eucc".to_owned();
    let mut i: usize = 0;
    while i < names.len()
        invariant
            i <= names@.len(),
            orig == strings(names@),
            manifest@ == manifest_entry(),
            strings(kept@) == without(orig.take(i as int), manifest_entry()),
        decreases names@.len() - i,
    {
        assert(orig.take(i + 1).drop_last() =~= orig.take(i as int));
        if names[i] != manifest {
            kept.push(names[i].clone());
            assert(strings(kept@) =~= without(orig.take(i as int), manifest_entry()).push(
                orig[i as int],
            ));
        }
        i += 1;
    }
    assert(orig.take(names@.len() as int) =~= orig);
    sort_strings(kept)
}

/// The byte sequences of `chunks`, one after another.
pub open spec fn concat_bytes(chunks: Seq<Seq<u8>>) -> Seq<u8>
    decreases chunks.len(),
{
    if chunks.len() == 0 {
        Seq::empty()
    } else {
        concat_bytes(chunks.drop_last()) + chunks.last()
    }
}

/// The lower-case hexadecimal SHA-256 digest of `chunks` hashed one after another.
pub fn contents_digest_hex(chunks: &Vec<Vec<u8>>) -> (r: String)
    ensures
        r@ == hex_lower(sha256_of(concat_bytes(chunks@.map_values(|c: Vec<u8>| c@)))),
{
    let ghost cv = chunks@.map_values(|c: Vec<u8>| c@);
    let mut all: Vec<u8> = Vec::new();
    let mut i: usize = 0;
    while i < chunks.len()
        invariant
            i <= chunks@.len(),
            cv == chunks@.map_values(|c: Vec<u8>| c@),
            all@ == concat_bytes(cv.take(i as int)),
        decreases chunks@.len() - i,
    {
        let chunk = &chunks[i];
        let mut j: usize = 0;
        let ghost start = all@;
        while j < chunk.len()
            invariant
                j <= chunk@.len(),
                all@ == start + chunk@.take(j as int),
            decreases chunk@.len() - j,
        {
            all.push(chunk[j]);
            assert(all@ =~= start + chunk@.take(j + 1));
            j += 1;
        }
        assert(chunk@.take(chunk@.len() as int) =~= chunk@);
        assert(cv.take(i + 1).drop_last() =~= cv.take(i as int));
        i += 1;
    }
    assert(cv.take(chunks@.len() as int) =~= cv);
    let digest = sha256(all.as_slice());
    to_hex_lower(digest.as_slice())
}

/// Checks the contents of the plugin `plugin` against the digest its manifest records, if it
/// records one. `chunks` are the contents of the hashed entries, in hashing order.
pub fn check_content_hash(plugin: &str, expected: &Option<String>, chunks: &Vec<Vec<u8>>) -> (r:
    Result<(), PluginError>)
    ensures
        match expected {
            None => r is Ok,
            Some(e) => if hex_lower(sha256_of(concat_bytes(chunks@.map_values(|c: Vec<u8>| c@))))
                == e@ {
                r is Ok
            } else {
                r matches Err(PluginError::ContentHashMismatch { plugin: p }) && p@ == plugin@
            },
        },
{
    match expected {
        None => Ok(()),
        Some(e) => {
            let actual = contents_digest_hex(chunks);
            if actual == *e {
                Ok(())
            } else {
                Err(PluginError::ContentHashMismatch { plugin: plugin.to_owned() })
            }
        },
    }
}

/// The artifacts of a loaded `.eucplugin` bundle: a staged JAR, a native library (by the
/// handle under which the host keeps it mapped), or both.
#[derive(Debug)]
pub enum LoadedPlugin {
    /// Only a JAR, staged at `jar_path`.
    Jvm { jar_path: String, manifest: BundleManifest },
    /// Only a native library.
    NativeLib { library: u64, manifest: BundleManifest },
    /// A JAR and a native library.
    JvmAndNativeLib { jar_path: String, library: u64, manifest: BundleManifest },
}

impl LoadedPlugin {
    /// The manifest the plugin was loaded from.
    pub fn manifest(&self) -> (r: &BundleManifest)
        ensures
            *r == match *self {
                LoadedPlugin::Jvm { manifest, .. } => manifest,
                LoadedPlugin::NativeLib { manifest, .. } => manifest,
                LoadedPlugin::JvmAndNativeLib { manifest, .. } => manifest,
            },
    {
        match self {
            LoadedPlugin::Jvm { manifest, .. } => manifest,
            LoadedPlugin::NativeLib { manifest, .. } => manifest,
            LoadedPlugin::JvmAndNativeLib { manifest, .. } => manifest,
        }
    }
}

/// The entries of the loaded-plugin list, by name text.
pub open spec fn plugin_entries(s: Seq<(String, LoadedPlugin)>) -> Seq<(Seq<char>, LoadedPlugin)> {
    s.map_values(|e: (String, LoadedPlugin)| (e.0@, e.1))
}

/// The plugins loaded so far, by bundle name.
pub struct PluginRegistry {
    plugins: Vec<(String, LoadedPlugin)>,
}

impl PluginRegistry {
    /// The loaded plugins, by bundle name.
    pub closed spec fn loaded(&self) -> Map<Seq<char>, LoadedPlugin> {
        assoc_map(plugin_entries(self.plugins@))
    }

    /// Each bundle name is held once.
    pub closed spec fn wf(&self) -> bool {
        unique_keys(plugin_entries(self.plugins@))
    }

    /// No plugin loaded.
    pub fn new() -> (r: Self)
        ensures
            r.wf(),
            r.loaded() == Map::<Seq<char>, LoadedPlugin>::empty(),
    {
        let r = PluginRegistry { plugins: Vec::new() };
        assert(r.loaded() =~= Map::<Seq<char>, LoadedPlugin>::empty());
        r
    }

    fn find(&self, name: &str) -> (r: Option<usize>)
        ensures
            match r {
                Some(i) => i < self.plugins@.len() && self.plugins@[i as int].0@ == name@,
                None => forall|j: int| 0 <= j < self.plugins@.len() ==> (#[trigger] self.plugins@[j]).0@ != name@,
            },
    {
        let wanted: String = name.to_owned();
        let mut i: usize = 0;
        while i < self.plugins.len()
            invariant
                wanted@ == name@,
                i <= self.plugins@.len(),
                forall|j: int| 0 <= j < i ==> (#[trigger] self.plugins@[j]).0@ != name@,
            decreases self.plugins@.len() - i,
        {
            if self.plugins[i].0 == wanted {
                return Some(i);
            }
            i += 1;
        }
        None
    }

    /// Whether a plugin with the bundle name `name` is loaded (a second bundle of that name is
    /// skipped).
    pub fn is_loaded(&self, name: &str) -> (r: bool)
        requires
            self.wf(),
        ensures
            r == self.loaded().dom().contains(name@),
    {
        match self.find(name) {
            Some(i) => {
                proof {
                    lemma_assoc_at(plugin_entries(self.plugins@), i as int);
                }
                true
            },
            None => {
                proof {
                    let s = plugin_entries(self.plugins@);
                    assert forall|j: int| 0 <= j < s.len() implies (#[trigger] s[j]).0 != name@ by {
                        assert(self.plugins@[j].0@ != name@);
                    }
                    lemma_assoc_absent(s, name@);
                }
                false
            },
        }
    }

    /// Records a loaded plugin under the name in its manifest, replacing a plugin of that name.
    pub fn insert(&mut self, plugin: LoadedPlugin)
        requires
            old(self).wf(),
        ensures
            final(self).wf(),
            final(self).loaded() == old(self).loaded().insert(
                match plugin {
                    LoadedPlugin::Jvm { manifest, .. } => manifest.name@,
                    LoadedPlugin::NativeLib { manifest, .. } => manifest.name@,
                    LoadedPlugin::JvmAndNativeLib { manifest, .. } => manifest.name@,
                },
                plugin,
            ),
    {
        let name = plugin.manifest().name.clone();
        let ghost key = name@;
        let ghost s0 = plugin_entries(self.plugins@);
        match self.find(name.as_str()) {
            Some(i) => {
                self.plugins.remove(i);
                proof {
                    assert(plugin_entries(self.plugins@) =~= s0.remove(i as int));
                    lemma_assoc_remove(s0, i as int);
                }
            },
            None => {
                proof {
                    assert(plugin_entries(self.plugins@) =~= s0);
                    assert forall|j: int| 0 <= j < s0.len() implies (#[trigger] s0[j]).0 != key by {
                        assert(self.plugins@[j].0@ != key);
                    }
                    lemma_assoc_absent(s0, key);
                    assert(assoc_map(s0).remove(key) =~= assoc_map(s0));
                }
            },
        }
        let ghost s1 = plugin_entries(self.plugins@);
        proof {
            assert(!has_key(s1, key)) by {
                if has_key(s1, key) {
                    let j = choose|j: int| 0 <= j < s1.len() && (#[trigger] s1[j]).0 == key;
                    lemma_assoc_at(s1, j);
                }
            }
        }
        self.plugins.push((name, plugin));
        proof {
            assert(plugin_entries(self.plugins@) =~= s1.push((key, plugin)));
            lemma_assoc_push(s1, key, plugin);
            assert(assoc_map(s0).remove(key).insert(key, plugin) =~= assoc_map(s0).insert(key, plugin));
        }
    }

    /// Forgets the plugin named `plugin_id` and hands back its artifacts to be released (the
    /// staged JAR removed, the native library unmapped); `None` when no such plugin is loaded.
    pub fn unload_plugin(&mut self, plugin_id: &str) -> (r: Option<LoadedPlugin>)
        requires
            old(self).wf(),
        ensures
            final(self).wf(),
            final(self).loaded() == old(self).loaded().remove(plugin_id@),
            match r {
                Some(p) => old(self).loaded().dom().contains(plugin_id@) && old(self).loaded()[plugin_id@] == p,
                None => !old(self).loaded().dom().contains(plugin_id@),
            },
    {
        let ghost s0 = plugin_entries(self.plugins@);
        match self.find(plugin_id) {
            Some(i) => {
                proof {
                    lemma_assoc_at(s0, i as int);
                }
                let (_, p) = self.plugins.remove(i);
                proof {
                    assert(plugin_entries(self.plugins@) =~= s0.remove(i as int));
                    lemma_assoc_remove(s0, i as int);
                }
                Some(p)
            },
            None => {
                proof {
                    assert forall|j: int| 0 <= j < s0.len() implies (#[trigger] s0[j]).0 != plugin_id@ by {
                        assert(self.plugins@[j].0@ != plugin_id@);
                    }
                    lemma_assoc_absent(s0, plugin_id@);
                    assert(assoc_map(s0).remove(plugin_id@) =~= assoc_map(s0));
                }
                None
            },
        }
    }
}

/// Law: a plugin that was just recorded is loaded, and unloading it hands back that plugin and
/// leaves the other plugins as they were.
pub proof fn law_insert_then_unload(loaded: Map<Seq<char>, LoadedPlugin>, name: Seq<char>, plugin: LoadedPlugin)
    ensures
        loaded.insert(name, plugin).dom().contains(name),
        loaded.insert(name, plugin)[name] == plugin,
        loaded.insert(name, plugin).remove(name) == loaded.remove(name),
{
    assert(loaded.insert(name, plugin).remove(name) =~= loaded.remove(name));
}

/// Identifies the registrations a plugin makes (a UUID, by its 128 bits).
#[derive(Debug, Clone, Copy, PartialEq, Eq, Structural, Hash)]
pub struct PluginRegistrationToken(pub u128);

/// How a plugin describes itself.
#[derive(Debug)]
pub struct PluginManifest {
    pub display_name: String,
    pub description: String,
    pub version: String,
    pub authors: Vec<String>,
    pub dependencies: Vec<String>,
}

/// Implemented by plugins written in Rust to describe themselves.
pub trait ExternalPlugin {
    fn plugin_manifest() -> PluginManifest;
}

} // verus!
