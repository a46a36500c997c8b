//! Editor and scene state: project files, editor tabs, loading progress and scripts.
use crate::text::push_str;
use vstd::prelude::*;

verus! {

/// A node of the project's file tree.
#[derive(Debug)]
pub enum Node {
    File(File),
    Folder(Folder),
}

/// A file of the project.
#[derive(Debug)]
pub enum File {
    Unknown,
    ResourceFile { name: String, path: String, resource_type: ResourceType },
    SourceFile { name: String, path: String },
}

impl Default for File {
    fn default() -> (r: Self)
        ensures
            r is Unknown,
    {
        File::Unknown
    }
}

/// A folder of the project, with what it holds.
#[derive(Debug)]
pub struct Folder {
    pub name: String,
    pub path: String,
    pub nodes: Vec<Node>,
}

/// The kind of a resource file.
#[derive(Debug, Clone, Copy, PartialEq, Eq, Structural, Hash)]
pub enum ResourceType {
    Unknown,
    Config,
    Script,
    Model,
    Thumbnail,
    Texture,
    Shader,
}

impl ResourceType {
    /// The name shown for the kind.
    pub fn as_str(&self) -> (r: &'static str)
        ensures
            r@ == match *self {
                ResourceType::Unknown => "unknown"@,
                ResourceType::Model => "model"@,
                ResourceType::Texture => "texture"@,
                ResourceType::Shader => "shaders"@,
                ResourceType::Thumbnail => "thumbnail"@,
                ResourceType::Script => "script"@,
                ResourceType::Config => "eucalyptus project config"@,
            },
    {
        match self {
            ResourceType::Unknown => "unknown",
            ResourceType::Model => "model",
            ResourceType::Texture => "texture",
            ResourceType::Shader => "shaders",
            ResourceType::Thumbnail => "thumbnail",
            ResourceType::Script => "script",
            ResourceType::Config => "eucalyptus project config",
        }
    }
}

/// The script tags attached to an entity.
#[derive(Debug)]
pub struct Script {
    pub tags: Vec<String>,
}

impl Default for Script {
    fn default() -> (r: Self)
        ensures
            r.tags@.len() == 0,
    {
        Script { tags: Vec::new() }
    }
}

/// A dockable tab of the editor.
#[derive(Debug, Clone, Copy, PartialEq, Eq, Structural)]
pub enum EditorTab {
    AssetViewer,
    ResourceInspector,
    ModelEntityList,
    Viewport,
    ErrorConsole,
    Console,
    /// The tab of the plugin with this index.
    Plugin(usize),
}

/// What the editor shows for a plugin.
#[derive(Debug)]
pub struct PluginInfo {
    pub display_name: String,
}

/// Progress of loading a scene into the world.
#[derive(Debug)]
pub enum WorldLoadingStatus {
    Idle,
    LoadingEntity { index: usize, name: String, total: usize },
    Completed,
}

/// How far the loading of a scene has got, as scripts poll it.
#[derive(Debug, Clone)]
pub struct LoadProgress {
    /// The index of the entity being loaded.
    pub current: usize,
    /// How many entities the scene has.
    pub total: usize,
    /// What is happening, for display.
    pub message: String,
}

impl LoadProgress {
    /// Folds one status report of the loader into the progress: `Idle` only sets the message;
    /// `LoadingEntity` sets the position, the total and the message `Loading entity: <name>`;
    /// `Completed` moves the position to the total.
    pub fn apply(&mut self, status: WorldLoadingStatus)
        ensures
            match status {
                WorldLoadingStatus::Idle => final(self).current == old(self).current
                    && final(self).total == old(self).total && final(self).message@ == "Idle"@,
                WorldLoadingStatus::LoadingEntity { index, name, total } => final(self).current
                    == index && final(self).total == total && final(self).message@
                    == "Loading entity: "@ + name@,
                WorldLoadingStatus::Completed => final(self).current == old(self).total
                    && final(self).total == old(self).total && final(self).message@
                    == "Completed"@,
            },
    {
        match status {
            WorldLoadingStatus::Idle => {
                self.message = "Idle".to_owned();
            },
            WorldLoadingStatus::LoadingEntity { index, name, total } => {
                self.current = index;
                self.total = total;
                let mut m = "Loading entity: ".to_owned();
                push_str(&mut m, name.as_str());
                self.message = m;
            },
            WorldLoadingStatus::Completed => {
                self.current = self.total;
                self.message = "Completed".to_owned();
            },
        }
    }
}

} // verus!
