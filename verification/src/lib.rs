//! A static site generator: Markdown pages with YAML front matter, rendered
//! through templates into a folder of HTML, with a sitemap.  This library
//! holds the rules of the build (where each page goes, which url it gets,
//! which template renders it, how pages are ordered and listed) and the
//! decisions of the setup, page and serve commands.

pub mod add_page;
pub mod config;
pub mod metadata;
pub mod new;
pub mod path;
pub mod serve;
pub mod site;
pub mod text;

pub use config::builder::SiteConfigBuilder;
pub use config::{default_language, Author, MenuItem, SiteConfig, CONFIG_PATH};
pub use metadata::PostMetadata;
pub use site::context::PostContext;
pub use site::error::BuildError;
