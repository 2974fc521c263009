use std::collections::HashMap;
use vstd::prelude::*;

use crate::config::{default_language, opt_text, Author, SiteConfig};

verus! {

/// Builds a [`SiteConfig`] field by field.
pub struct SiteConfigBuilder {
    title: String,
    description: String,
    base_url: String,
    author: Author,
}

/// What a [`SiteConfigBuilder`] holds.
pub struct SiteConfigBuilderView {
    pub title: Seq<char>,
    pub description: Seq<char>,
    pub base_url: Seq<char>,
    pub author_name: Seq<char>,
    pub author_email: Option<Seq<char>>,
}

impl View for SiteConfigBuilder {
    type V = SiteConfigBuilderView;

    closed spec fn view(&self) -> SiteConfigBuilderView {
        SiteConfigBuilderView {
            title: self.title@,
            description: self.description@,
            base_url: self.base_url@,
            author_name: self.author.name@,
            author_email: opt_text(self.author.email),
        }
    }
}

impl Default for SiteConfigBuilder {
    fn default() -> (r: Self)
        ensures
            r@.title == Seq::<char>::empty(),
            r@.description == Seq::<char>::empty(),
            r@.base_url == Seq::<char>::empty(),
            r@.author_name == Seq::<char>::empty(),
            r@.author_email is None,
    {
        SiteConfigBuilder {
            title: String::new(),
            description: String::new(),
            base_url: String::new(),
            author: Author::default(),
        }
    }
}

impl SiteConfigBuilder {
    /// A builder for a blog titled "My blog", with every other field empty.
    pub fn new() -> (r: Self)
        ensures
            r@.title == "My blog"@,
            r@.description == Seq::<char>::empty(),
            r@.base_url == Seq::<char>::empty(),
            r@.author_name == Seq::<char>::empty(),
            r@.author_email is None,
    {
        let d = Self::default();
        SiteConfigBuilder { title: "My blog".to_owned(), ..d }
    }

    /// Sets the title.
    pub fn title(self, title: String) -> (r: Self)
        ensures
            r@ == (SiteConfigBuilderView { title: title@, ..self@ }),
    {
        Self { title, ..self }
    }

    /// Sets the description.
    pub fn description(self, description: String) -> (r: Self)
        ensures
            r@ == (SiteConfigBuilderView { description: description@, ..self@ }),
    {
        Self { description, ..self }
    }

    /// Sets the base url.
    pub fn base_url(self, base_url: String) -> (r: Self)
        ensures
            r@ == (SiteConfigBuilderView { base_url: base_url@, ..self@ }),
    {
        Self { base_url, ..self }
    }

    /// Sets the author's name.
    pub fn author_name(self, author_name: String) -> (r: Self)
        ensures
            r@ == (SiteConfigBuilderView { author_name: author_name@, ..self@ }),
    {
        let author = Author { name: author_name, ..self.author };
        Self { author, ..self }
    }

    /// Sets the author's email.
    pub fn author_email(self, email: String) -> (r: Self)
        ensures
            r@ == (SiteConfigBuilderView { author_email: Some(email@), ..self@ }),
    {
        let author = Author { email: Some(email), ..self.author };
        Self { author, ..self }
    }

    /// The config that the builder describes, in English, with no menu and no
    /// extra settings.
    pub fn build(self) -> (r: SiteConfig)
        ensures
            r.title@ == self@.title,
            r.description@ == self@.description,
            r.base_url@ == self@.base_url,
            r.language_code@ == "en"@,
            r.author.name@ == self@.author_name,
            opt_text(r.author.email) == self@.author_email,
            r.menu@.len() == 0,
            r.extra@ == Map::<String, String>::empty(),
    {
        SiteConfig {
            title: self.title,
            description: self.description,
            base_url: self.base_url,
            language_code: default_language(),
            author: self.author,
            menu: Vec::new(),
            extra: HashMap::new(),
        }
    }
}

} // verus!
