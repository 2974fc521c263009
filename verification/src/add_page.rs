use vstd::prelude::*;
use vstd::string::*;

use crate::config::opt_text;
use crate::new::PromptReply;
use crate::path::{path_extension, path_file_name_of};
use crate::text::{trim, trimmed};

verus! {

/// Why no page name came from the prompt.
#[derive(Debug)]
pub enum PageNameError {
    /// The prompt was interrupted (Ctrl-C).
    Interrupted,
    /// The input ended, or the line entered was blank.
    Eof,
    /// The prompt failed, with this message.
    Failed(String),
}

/// The page name given with the command, if it is not blank (it is kept as
/// it was given, white space and all).
pub fn page_name_from_arg(page_name: Option<String>) -> (r: Option<String>)
    ensures
        match page_name {
            Some(n) => if trimmed(n@).len() > 0 {
                r == Some(n)
            } else {
                r is None
            },
            None => r is None,
        },
{
    match page_name {
        Some(n) => {
            let t = trim(n.as_str());
            if t.as_str().unicode_len() > 0 {
                Some(n)
            } else {
                None
            }
        },
        None => None,
    }
}

/// The page name from the reply to the prompt for one: the line entered,
/// without its surrounding white space, unless it is blank.
pub fn page_name_from_reply(reply: PromptReply) -> (r: Result<String, PageNameError>)
    ensures
        match reply {
            PromptReply::Line(l) => if trimmed(l@).len() > 0 {
                r matches Ok(n) && n@ == trimmed(l@)
            } else {
                r matches Err(PageNameError::Eof)
            },
            PromptReply::Interrupted => r matches Err(PageNameError::Interrupted),
            PromptReply::Eof => r matches Err(PageNameError::Eof),
            PromptReply::Failed(m) => r matches Err(PageNameError::Failed(e)) && e == m,
        },
{
    match reply {
        PromptReply::Line(l) => {
            let t = trim(l.as_str());
            if t.as_str().unicode_len() > 0 {
                Ok(t)
            } else {
                Err(PageNameError::Eof)
            }
        },
        PromptReply::Interrupted => Err(PageNameError::Interrupted),
        PromptReply::Eof => Err(PageNameError::Eof),
        PromptReply::Failed(m) => Err(PageNameError::Failed(m)),
    }
}

/// The source of a new page named `name`, dated `date`: front matter with
/// its title, its date and the `post.html` template, then a heading.
pub open spec fn page_content_of(name: Seq<char>, date: Seq<char>) -> Seq<char> {
    "---\ntitle: \""@ + name + "\"\ndate: \""@ + date + "\"\ntemplate: \"post.html\"\n---\n\n# "@
        + name + "\n"@
}

/// The source of a new page named `name`, dated `date`.
pub fn default_page_content(name: &str, date: &str) -> (r: String)
    ensures
        r@ == page_content_of(name@, date@),
{
    let mut r = "---\ntitle: \"".to_owned();
    r.append(name);
    r.append("\"\ndate: \"");
    r.append(date);
    r.append("\"\ntemplate: \"post.html\"\n---\n\n# ");
    r.append(name);
    r.append("\n");
    r
}

/// `e` is `md` in any case of letters.
pub open spec fn is_md_ignoring_case(e: Seq<char>) -> bool {
    e.len() == 2 && (e[0] == 'm' || e[0] == 'M') && (e[1] == 'd' || e[1] == 'D')
}

/// The file name of a single page named `name`: the name itself where its
/// extension is `md` in any case, else the name with `.md` after it.
pub open spec fn page_file_name_of(name: Seq<char>) -> Seq<char> {
    match path_extension(name) {
        Some(e) => if is_md_ignoring_case(e) {
            name
        } else {
            name + ".md"@
        },
        None => name + ".md"@,
    }
}

/// The file name of a single page named `name`.
pub fn page_file_name(name: &str) -> (r: String)
    ensures
        r@ == page_file_name_of(name@),
{
    let ext = match path_file_name_of(name) {
        Some(f) => crate::path::file_extension(f.as_str()),
        None => None,
    };
    let keep = match ext {
        Some(e) => {
            let es = e.as_str();
            if es.unicode_len() == 2 {
                let a = es.get_char(0);
                let b = es.get_char(1);
                (a == 'm' || a == 'M') && (b == 'd' || b == 'D')
            } else {
                false
            }
        },
        None => false,
    };
    let mut r = name.to_owned();
    if !keep {
        r.append(".md");
    }
    r
}

} // verus!
