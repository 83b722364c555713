//! Persisted app settings: the user-chosen archive directory.

use vstd::prelude::*;

use crate::paths::{join, join_path};

verus! {

broadcast use vstd::string::group_string_axioms;

pub const CONFIG_FILE: &'static str = "config.json";

/// On-disk config. `archive_dir` is required once the user (or default) has picked it.
#[derive(Debug, Clone, PartialEq, Eq)]
pub struct AppConfig {
    pub archive_dir: String,
}

/// `Documents/Simple 3DGS/archive` under the given Documents folder.
pub open spec fn default_archive_path(documents: Seq<char>) -> Seq<char> {
    join_path(join_path(documents, "Simple 3DGS"@), "archive"@)
}

/// `~/Documents/Simple 3DGS/archive` when `documents` is the user Documents folder.
pub fn default_archive_dir(documents: &str) -> (r: String)
    ensures
        r@ == default_archive_path(documents@),
{
    let app = join(documents, "Simple 3DGS");
    join(app.as_str(), "archive")
}

} // verus!
