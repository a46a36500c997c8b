//! Core scene, asset and scripting logic of the eucalyptus editor and runtime.
pub mod assoc;
pub mod hierarchy;
pub mod label;
pub mod scripting;
pub mod text;
pub mod resource;
pub mod paths;
pub mod digest;
pub mod metadata;
pub mod order;
pub mod bundle;
pub mod plugin;
pub mod jvm;
pub mod camera;
pub mod components;
pub mod states;
pub mod types;
pub mod ser;
pub mod scene;
pub mod world_hierarchy;
pub mod input;
pub mod runtime;
pub mod registry;
pub mod properties;
pub mod native;
pub mod animation;
pub mod mesh;
