//! Where the bytes of an asset come from.
use vstd::prelude::*;

verus! {

/// A resolved pointer to asset data, handed to the loader.
///
/// This is the loading strategy, not the identity: identity is the UUID of the asset entry.
#[derive(Debug)]
pub enum ResourceReference {
    /// A file; the path is absolute at runtime.
    File(String),
    /// Bytes compiled into the binary.
    Embedded(Vec<u8>),
    /// A byte range within a loaded pack file.
    Packed { offset: u64, length: u64 },
    /// No backing data: generated at runtime.
    Procedural,
}

impl ResourceReference {
    /// The embedded bytes, for an `Embedded` reference; `None` for every other kind.
    pub fn as_embedded_bytes(&self) -> (r: Option<&[u8]>)
        ensures
            match self {
                ResourceReference::Embedded(b) => r matches Some(s) && s@ == b@,
                _ => r is None,
            },
    {
        match self {
            ResourceReference::Embedded(bytes) => Some(bytes.as_slice()),
            _ => None,
        }
    }

    /// Whether loading needs file-system I/O: true exactly for `File`.
    pub fn is_file_backed(&self) -> (r: bool)
        ensures
            r == (self is File),
    {
        matches!(self, ResourceReference::File(_))
    }

    /// Whether loading needs no I/O at all: true for `Embedded`, `Packed` and `Procedural`.
    pub fn is_in_memory(&self) -> (r: bool)
        ensures
            r == (self is Embedded || self is Packed || self is Procedural),
    {
        matches!(
            self,
            ResourceReference::Embedded(_) | ResourceReference::Packed { .. }
                | ResourceReference::Procedural
        )
    }
}

/// Law: every reference is loaded either from a file or from memory, never both.
pub proof fn law_file_or_memory(r: ResourceReference)
    ensures
        (r is File) != (r is Embedded || r is Packed || r is Procedural),
{
}

} // verus!
