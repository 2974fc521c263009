use vstd::prelude::*;

pub mod change;
pub mod context;
pub mod error;
pub mod output;
pub mod page;
pub mod posts;
pub mod sitemap;

verus! {

/// The folder that holds the site's Markdown sources.
pub const MARKDOWN_PATH: &'static str = "content";

/// The folder that holds the site's static assets.
pub const STATIC_PATH: &'static str = "static";

/// The folder that the build writes the site to.
pub const OUTPUT_PATH: &'static str = "public";

} // verus!
