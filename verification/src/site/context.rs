use vstd::prelude::*;

use crate::metadata::PostMetadata;

verus! {

/// A page as templates see it in the `posts` list: its front matter and its
/// url.
#[derive(Debug, Clone)]
pub struct PostContext {
    pub meta: PostMetadata,
    pub url: String,
}

} // verus!
