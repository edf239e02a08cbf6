//! Settings of a sorter: where files arrive, the two library roots, the
//! permissions given to what is placed, the catalog key, and the overwrite policy.
use vstd::prelude::*;

verus! {

/// Mode and owner given to placed files and the directories above them.
pub struct PermissionConfig {
    pub mode: u32,
    pub user: String,
    pub group: String,
}

/// Credentials of the movie catalog.
pub struct OmdbConfig {
    pub apikey: String,
}

pub struct Config {
    /// Directory watched for new files.
    pub dir_watch: String,
    /// Root of the show library.
    pub show_path: String,
    /// Root of the movie library.
    pub movie_path: String,
    pub permissions: PermissionConfig,
    pub omdb: OmdbConfig,
    /// Replace a file that already stands at the destination.
    pub overwrite: bool,
}

} // verus!
