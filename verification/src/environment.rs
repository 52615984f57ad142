//! What the process environment says of where applications are installed:
//! the user's home directory and the shared data directories.

use vstd::prelude::*;

verus! {

/// The base directories of `xdg`, opaque here: a value is only handed from
/// [`xdg::BaseDirectories::new`] to [`data_directories`].
#[verifier::external_type_specification]
#[verifier::external_body]
pub struct ExBaseDirectories(xdg::BaseDirectories);

/// `xdg::BaseDirectories::new` reads the base directories from the
/// environment. It returns for every environment; nothing is claimed of what
/// it returns.
pub assume_specification[ xdg::BaseDirectories::new ]() -> (dirs: xdg::BaseDirectories)
;

/// Calls `xdg::BaseDirectories::get_data_dirs`: the shared data directories
/// in order of preference, each as a text. Nothing is claimed of them: they
/// are what the environment named when `dirs` was made.
#[verifier::external_body]
pub(crate) fn data_directories(dirs: &xdg::BaseDirectories) -> (list: Vec<String>) {
    dirs.get_data_dirs().iter().map(|p| p.to_string_lossy().into_owned()).collect()
}

/// Calls `home::home_dir`: the user's home directory as a text, or none where
/// the environment does not tell. Nothing is claimed of the outcome.
#[verifier::external_body]
pub(crate) fn home_directory() -> (home: Option<String>) {
    home::home_dir().map(|p| p.to_string_lossy().into_owned())
}

} // verus!
