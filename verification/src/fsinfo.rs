//! Probes of the filesystem that the mount compiler and the resolver
//! consult. Each answer depends on the state of the disk and of the
//! process, so no contract relates it to the arguments; callers state what
//! holds of every outcome.

use vstd::prelude::*;

verus! {

/// What making a path absolute produced: the absolute path, a resolution
/// failure, or a result that is not valid Unicode.
pub(crate) enum AbsPath {
    Abs(String),
    NotAbsolute,
    NotUnicode,
}

/// Relies on `std::path::absolute`: the path resolved against the current
/// working directory, without touching the filesystem.
#[verifier::external_body]
pub(crate) fn absolutize(p: &String) -> (r: AbsPath) {
    match std::path::absolute(std::path::Path::new(p.as_str())) {
        Ok(a) => match a.into_os_string().into_string() {
            Ok(s) => AbsPath::Abs(s),
            Err(_) => AbsPath::NotUnicode,
        },
        Err(_) => AbsPath::NotAbsolute,
    }
}

/// Relies on `std::path::Path::exists`: whether the path points at an
/// existing entity on disk at the moment of the call.
#[verifier::external_body]
pub(crate) fn path_exists(p: &String) -> (r: bool) {
    std::path::Path::new(p.as_str()).exists()
}

/// Relies on `std::path::Path::is_file`: whether the path points at a
/// regular file on disk at the moment of the call.
#[verifier::external_body]
pub(crate) fn path_is_regular(p: &String) -> (r: bool) {
    std::path::Path::new(p.as_str()).is_file()
}

} // verus!
