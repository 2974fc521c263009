use std::collections::HashMap;
use vstd::prelude::*;

pub mod builder;

verus! {

/// Where the site's configuration is read from, relative to the site root.
pub const CONFIG_PATH: &'static str = "config.yaml";

/// The global config for the site
#[derive(Debug, Clone)]
pub struct SiteConfig {
    pub title: String,
    pub description: String,
    pub base_url: String,
    pub language_code: String,
    pub author: Author,
    pub menu: Vec<MenuItem>,
    pub extra: HashMap<String, String>,
}

/// The author data
#[derive(Debug, Clone)]
pub struct Author {
    pub name: String,
    pub email: Option<String>,
}

/// An item in the menu
#[derive(Debug, Clone)]
pub struct MenuItem {
    pub name: String,
    pub url: String,
}

/// The text an optional string holds.
pub open spec fn opt_text(o: Option<String>) -> Option<Seq<char>> {
    match o {
        Some(s) => Some(s@),
        None => None,
    }
}

impl Default for Author {
    fn default() -> (r: Self)
        ensures
            r.name@ == Seq::<char>::empty(),
            r.email is None,
    {
        Author { name: String::new(), email: None }
    }
}

impl Default for MenuItem {
    fn default() -> (r: Self)
        ensures
            r.name@ == Seq::<char>::empty(),
            r.url@ == Seq::<char>::empty(),
    {
        MenuItem { name: String::new(), url: String::new() }
    }
}

impl Default for SiteConfig {
    fn default() -> (r: Self)
        ensures
            r.title@ == Seq::<char>::empty(),
            r.description@ == Seq::<char>::empty(),
            r.base_url@ == Seq::<char>::empty(),
            r.language_code@ == Seq::<char>::empty(),
            r.author.name@ == Seq::<char>::empty(),
            r.author.email is None,
            r.menu@.len() == 0,
            r.extra@ == Map::<String, String>::empty(),
    {
        SiteConfig {
            title: String::new(),
            description: String::new(),
            base_url: String::new(),
            language_code: String::new(),
            author: Author::default(),
            menu: Vec::new(),
            extra: HashMap::new(),
        }
    }
}

/// The language a site gets when its config names none.
pub fn default_language() -> (r: String)
    ensures
        r@ == "en"@,
{
    "en".to_owned()
}

} // verus!
