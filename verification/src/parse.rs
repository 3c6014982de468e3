//! Per-path processing: classify the target, then decompose and normalize it.

use crate::component::{comp_views, path_to_components, spec_components_of, Component};
use crate::normalize::{fold_components, normalize_components};
use vstd::prelude::*;

verus! {

/// What inspecting a path on the filesystem found. Produced by the caller;
/// this library performs no filesystem access itself.
#[derive(Debug, Clone, Copy, PartialEq, Eq, Structural)]
pub enum PathClassification {
    /// No filesystem entry exists at the path.
    DoesNotExist,
    /// The path names an existing regular file.
    ExistsAsFile,
    /// The path names an existing entry that is not a regular file.
    ExistsAsDirectory,
}

/// Why a path was rejected instead of normalized.
#[derive(Debug, Clone, Copy, PartialEq, Eq, Structural)]
pub enum PathError {
    /// The path already exists.
    Exists,
    /// The path is a regular file.
    NotDir,
}

impl PathError {
    /// A short description of the error.
    pub fn message(&self) -> (r: &'static str)
        ensures
            *self is Exists ==> r@ == "Path does not exist"@,
            *self is NotDir ==> r@ == "Path is a file"@,
    {
        match self {
            PathError::Exists => "Path does not exist",
            PathError::NotDir => "Path is a file",
        }
    }
}

/// Normalizes one path, given as bytes, together with its filesystem
/// classification. A path that exists is rejected: an existing regular file
/// with the file error, any other existing entry with the exists error. A
/// path that does not exist is decomposed into components and folded into
/// its normalized component sequence.
pub fn parse_path(path: &Vec<u8>, classification: PathClassification) -> (r: Result<
    Vec<Component>,
    PathError,
>)
    ensures
        classification is DoesNotExist <==> r is Ok,
        classification is ExistsAsDirectory <==> (r matches Err(e) && e == PathError::Exists),
        classification is ExistsAsFile <==> (r matches Err(e) && e == PathError::NotDir),
        r matches Ok(normalized) ==> comp_views(normalized@) == fold_components(
            spec_components_of(path@),
        ),
{
    match classification {
        PathClassification::ExistsAsDirectory => Err(PathError::Exists),
        PathClassification::ExistsAsFile => Err(PathError::NotDir),
        PathClassification::DoesNotExist => {
            let components = path_to_components(path);
            Ok(normalize_components(&components))
        },
    }
}

} // verus!
