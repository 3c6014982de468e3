//! Resolving a raw path against the current working directory.

use crate::component::SLASH;
use path_absolutize::Absolutize;
use vstd::prelude::*;

verus! {

/// Relies on path_absolutize::Absolutize::absolutize for std::path::Path:
/// it resolves the path against the current working directory, and every
/// path it returns is absolute, so non-empty and beginning with the
/// separator. Returns None when the bytes are not valid UTF-8, or when the
/// working directory cannot be read.
#[verifier::external_body]
fn absolutize_bytes(path: &Vec<u8>) -> (r: Option<Vec<u8>>)
    ensures
        r matches Some(a) ==> a@.len() > 0 && a@[0] == SLASH,
{
    let s = match String::from_utf8(path.clone()) {
        Ok(s) => s,
        Err(_) => return None,
    };
    let p = std::path::PathBuf::from(s);
    match p.absolutize() {
        Ok(a) => match a.to_str() {
            Some(t) => Some(t.as_bytes().to_vec()),
            None => None,
        },
        Err(_) => None,
    }
}

/// Resolves a raw path, given as bytes, to an absolute form against the
/// process's current working directory. Any path it returns is non-empty
/// and begins with the separator; None means the path could not be resolved.
pub fn to_valid_path(path: &Vec<u8>) -> (r: Option<Vec<u8>>)
    ensures
        r matches Some(a) ==> a@.len() > 0 && a@[0] == SLASH,
{
    absolutize_bytes(path)
}

} // verus!
