//! Serialized engine formats: compiled file kinds, templates and texture references.
use crate::order::strings;
use vstd::prelude::*;

verus! {

/// A compiled file kind written by the editor.
#[derive(Debug, Clone, Copy, PartialEq, Eq, Structural)]
pub enum SerializedType {
    /// A `*.eucbin` file.
    GenericBinary,
    /// A `*.eucmdl` file.
    Model,
}

impl SerializedType {
    /// The file extension of the kind.
    pub fn extension(&self) -> (r: &'static str)
        ensures
            r@ == match *self {
                SerializedType::GenericBinary => "eucbin"@,
                SerializedType::Model => "eucmdl"@,
            },
    {
        match self {
            SerializedType::GenericBinary => "eucbin",
            SerializedType::Model => "eucmdl",
        }
    }

    /// The extensions of every kind: `eucbin`, then `eucmdl`.
    pub fn iter_extensions() -> (r: Vec<String>)
        ensures
            strings(r@) == seq!["eucbin"@, "eucmdl"@],
    {
        let mut v: Vec<String> = Vec::new();
        v.push(SerializedType::GenericBinary.extension().to_owned());
        v.push(SerializedType::Model.extension().to_owned());
        assert(strings(v@) =~= seq!["eucbin"@, "eucmdl"@]);
        v
    }
}

/// A template for displaying an entity and its children.
#[derive(Debug)]
pub struct Template {
    pub label: String,
}

impl Template {
    /// A template with the given label.
    pub fn new(label: String) -> (r: Self)
        ensures
            r.label == label,
    {
        Template { label }
    }

    /// Refreshes the template; a template has nothing to refresh yet.
    pub fn update(&mut self)
        ensures
            final(self).label == old(self).label,
    {
    }
}

/// How a compiled model refers to a texture.
#[derive(Debug)]
pub enum EucalyptusTextureRef {
    /// The UUID (by its 128 bits) of a file-backed texture with a `.eucmeta` sidecar.
    AssetUuid(u128),
    /// Image bytes embedded in the model file.
    Embedded(Vec<u8>),
}

impl EucalyptusTextureRef {
    /// A reference to the texture asset with the given UUID.
    pub fn from_uuid(uuid: u128) -> (r: Self)
        ensures
            r == EucalyptusTextureRef::AssetUuid(uuid),
    {
        EucalyptusTextureRef::AssetUuid(uuid)
    }
}

} // verus!
