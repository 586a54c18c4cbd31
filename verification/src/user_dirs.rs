//! The user's home and configuration directories, as the `directories` crate finds
//! them.
use vstd::prelude::*;

use directories::BaseDirs;

verus! {

#[verifier::external_type_specification]
#[verifier::external_body]
pub struct ExBaseDirs(BaseDirs);

/// `directories::BaseDirs::new`: the user's base directories, or nothing when no
/// home directory can be found.  What comes back depends on the environment, so
/// nothing is stated of it.
#[verifier::external_body]
pub(crate) fn base_dirs() -> (r: Option<BaseDirs>) {
    BaseDirs::new()
}

/// `directories::BaseDirs::home_dir`, as text.  Which directory it is depends on the
/// environment; the crate only makes a `BaseDirs` from a non-empty home directory
/// (`$HOME`, or the password entry's directory, each taken only when not empty), so
/// the text is not empty.  That is all that is stated.
#[verifier::external_body]
pub(crate) fn home_dir_of(dirs: &BaseDirs) -> (r: String)
    ensures
        r@.len() > 0,
{
    dirs.home_dir().to_string_lossy().into_owned()
}

/// `directories::BaseDirs::config_dir`, as text.  Which directory it is depends on
/// the environment; the crate takes `$XDG_CONFIG_HOME` only when it is an absolute
/// path and otherwise the home directory joined with `.config`, so the text is not
/// empty.  That is all that is stated.
#[verifier::external_body]
pub(crate) fn config_dir_of(dirs: &BaseDirs) -> (r: String)
    ensures
        r@.len() > 0,
{
    dirs.config_dir().to_string_lossy().into_owned()
}

/// The user's home directory, when one can be found; it is never empty.
pub fn home_dir() -> (r: Option<String>)
    ensures
        r matches Some(h) ==> h@.len() > 0,
{
    match base_dirs() {
        Some(d) => Some(home_dir_of(&d)),
        None => None,
    }
}

} // verus!
