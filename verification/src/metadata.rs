use vstd::prelude::*;

verus! {

/// The front matter of a page.
#[derive(Debug, Clone, PartialEq, Eq)]
pub struct PostMetadata {
    pub title: String,
    pub date: String,
    pub tags: Vec<String>,
    pub template: Option<String>,
}

impl PostMetadata {
    /// The template that the page asks for, if it names one.
    pub fn get_template(&self) -> (r: Option<&str>)
        ensures
            match r {
                Some(t) => self.template matches Some(s) && t@ == s@,
                None => self.template is None,
            },
    {
        match &self.template {
            Some(t) => Some(t.as_str()),
            None => None,
        }
    }
}

} // verus!
