//! The user's home directory, through the `dirs` crate.
use vstd::prelude::*;

verus! {

/// `dirs::home_dir`: the current user's home directory, read from the
/// environment and the system, as text. Nothing is stated of the result:
/// it depends on the environment, and is `None` where none can be found.
#[verifier::external_body]
pub(crate) fn home_dir() -> (r: Option<String>)
{
    match dirs::home_dir() {
        Some(p) => Some(p.to_string_lossy().into_owned()),
        None => None,
    }
}

} // verus!
