//! The latest release of the project, as the release service reports it.

use vstd::prelude::*;

verus! {

/// A published release: the page that shows it, its tag, and its notes.
#[derive(Debug)]
pub struct GitHubRelease {
    pub html_url: String,
    pub tag_name: String,
    pub body: String,
}

} // verus!
