//! The manifest of a `.eucplugin` bundle.
use crate::text::{decimal, push_decimal, push_str};
use vstd::prelude::*;

verus! {

/// Build profile a bundle was packed with.
#[derive(Debug, Clone, Copy, PartialEq, Eq, Structural)]
pub enum BuildProfile {
    Release,
    Debug,
}

impl BuildProfile {
    /// The name of the profile as it appears in file names.
    pub fn as_str(&self) -> (r: &'static str)
        ensures
            r@ == profile_text(*self),
    {
        match self {
            BuildProfile::Release => "release",
            BuildProfile::Debug => "debug",
        }
    }
}

/// The name of a build profile.
pub open spec fn profile_text(p: BuildProfile) -> Seq<char> {
    match p {
        BuildProfile::Release => "release"@,
        BuildProfile::Debug => "debug"@,
    }
}

/// Target platform of a native library entry.
#[derive(Debug, Clone, Copy, PartialEq, Eq, Structural)]
pub enum Platform {
    Windows,
    Linux,
    MacOs,
    /// Included on all platforms (for example pure-bytecode JARs).
    All,
}

impl Platform {
    /// The lower-case name of the platform.
    pub fn as_str(&self) -> (r: &'static str)
        ensures
            r@ == match *self {
                Platform::Windows => "windows"@,
                Platform::Linux => "linux"@,
                Platform::MacOs => "macos"@,
                Platform::All => "all"@,
            },
    {
        match self {
            Platform::Windows => "windows",
            Platform::Linux => "linux",
            Platform::MacOs => "macos",
            Platform::All => "all",
        }
    }
}

/// CPU architecture a native library was compiled for.
#[derive(Debug, Clone, Copy, PartialEq, Eq, Structural)]
pub enum Arch {
    X64,
    Arm64,
}

impl Arch {
    /// The lower-case name of the architecture.
    pub fn as_str(&self) -> (r: &'static str)
        ensures
            r@ == match *self {
                Arch::X64 => "x64"@,
                Arch::Arm64 => "arm64"@,
            },
    {
        match self {
            Arch::X64 => "x64",
            Arch::Arm64 => "arm64",
        }
    }
}

/// A native shared library inside the bundle.
#[derive(Debug)]
pub struct NativeLib {
    /// Path relative to the bundle root.
    pub path: String,
    pub platform: Platform,
    pub arch: Arch,
}

/// The category of a bundled asset, used to route loading.
#[derive(Debug, Clone, Copy, PartialEq, Eq, Structural)]
pub enum AssetKind {
    Texture,
    Font,
    Shader,
    Audio,
    Data,
}

/// One asset inside the bundle.
#[derive(Debug)]
pub struct BundleAssetEntry {
    /// Path relative to the bundle root.
    pub path: String,
    pub kind: AssetKind,
    /// Whether the asset is stored deflate-compressed.
    pub compressed: bool,
}

/// A semantic version: `major.minor.patch`, an optional pre-release and build metadata.
#[derive(Debug)]
pub struct SemVersion {
    pub major: u64,
    pub minor: u64,
    pub patch: u64,
    /// The pre-release identifiers, empty when there are none.
    pub pre: String,
    /// The build metadata, empty when there is none.
    pub build: String,
}

/// The text of a version as `semver::Version` displays it.
pub open spec fn version_text(v: SemVersion) -> Seq<char> {
    let core = decimal(v.major as nat) + "."@ + decimal(v.minor as nat) + "."@ + decimal(
        v.patch as nat,
    );
    let with_pre = if v.pre@.len() == 0 {
        core
    } else {
        core + "-"@ + v.pre@
    };
    if v.build@.len() == 0 {
        with_pre
    } else {
        with_pre + "+"@ + v.build@
    }
}

impl SemVersion {
    /// `major.minor.patch` with empty pre-release and build metadata.
    pub fn new(major: u64, minor: u64, patch: u64) -> (r: Self)
        ensures
            r.major == major,
            r.minor == minor,
            r.patch == patch,
            r.pre@.len() == 0,
            r.build@.len() == 0,
    {
        SemVersion { major, minor, patch, pre: String::new(), build: String::new() }
    }

    /// The version as text, as `semver::Version` displays it.
    pub fn to_text(&self) -> (r: String)
        ensures
            r@ == version_text(*self),
    {
        let mut s = String::new();
        push_decimal(&mut s, self.major);
        push_str(&mut s, ".");
        push_decimal(&mut s, self.minor);
        push_str(&mut s, ".");
        push_decimal(&mut s, self.patch);
        if !self.pre.as_str().is_empty() {
            push_str(&mut s, "-");
            push_str(&mut s, self.pre.as_str());
        }
        if !self.build.as_str().is_empty() {
            push_str(&mut s, "+");
            push_str(&mut s, self.build.as_str());
        }
        proof {
            assert(Seq::<char>::empty() + decimal(self.major as nat) =~= decimal(self.major as nat));
        }
        s
    }
}

/// A dependency on another plugin, by name and version requirement (in `semver` syntax).
#[derive(Debug)]
pub struct BundleDependency {
    pub name: String,
    pub version: String,
}

/// The manifest stored as `manifest.eucc` at the root of a `.eucplugin` bundle.
#[derive(Debug)]
pub struct BundleManifest {
    /// Plugin identifier, lower-case and hyphenated.
    pub name: String,
    pub version: SemVersion,
    pub description: Option<String>,
    pub authors: Vec<String>,
    pub license: Option<String>,
    /// Build profile the bundle was packed with.
    pub profile: BuildProfile,
    /// Minimum engine API version required, as a `semver` requirement.
    pub engine_api_version: String,
    /// Native shared libraries.
    pub native_libs: Vec<NativeLib>,
    /// Path to the JVM JAR, relative to the bundle root.
    pub jar: Option<String>,
    /// Assets shipped with the plugin.
    pub assets: Vec<BundleAssetEntry>,
    /// Other plugins this plugin depends on.
    pub dependencies: Vec<BundleDependency>,
    /// Lower-case hexadecimal SHA-256 of all non-manifest bundle contents, when packed with
    /// integrity verification.
    pub content_hash: Option<String>,
}

impl BundleManifest {
    /// The conventional output file name: `<name>-<version>-<profile>.eucplugin`.
    pub fn output_filename(&self) -> (r: String)
        ensures
            r@ == self.name@ + "-"@ + version_text(self.version) + "-"@ + profile_text(
                self.profile,
            ) + ".eucplugin"@,
    {
        let mut s = self.name.clone();
        push_str(&mut s, "-");
        let v = self.version.to_text();
        push_str(&mut s, v.as_str());
        push_str(&mut s, "-");
        push_str(&mut s, self.profile.as_str());
        push_str(&mut s, ".eucplugin");
        s
    }
}

} // verus!
