//! The two operations on file paths that the library leaves to the platform.

use vstd::prelude::*;

verus! {

/// `Path::is_absolute` of std, which depends on the platform. Nothing is
/// claimed of the result.
#[verifier::external_body]
pub(crate) fn path_is_absolute(raw: &str) -> (r: bool) {
    std::path::Path::new(raw).is_absolute()
}

/// `Path::join` of std, which depends on the platform; the result is turned
/// back into text. Nothing is claimed of the result.
#[verifier::external_body]
pub(crate) fn path_join(base: &str, part: &str) -> (r: String) {
    std::path::Path::new(base).join(part).to_string_lossy().into_owned()
}

} // verus!
