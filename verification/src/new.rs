use vstd::prelude::*;
use vstd::string::*;

use crate::config::{opt_text, SiteConfig};
use crate::text::{trim, trimmed};

verus! {

/// What a prompt for a line of input gave back.
#[derive(Debug)]
pub enum PromptReply {
    /// The line that was entered.
    Line(String),
    /// The prompt was interrupted (Ctrl-C).
    Interrupted,
    /// The input ended (Ctrl-D).
    Eof,
    /// The prompt failed, with this message.
    Failed(String),
}

/// Why setting up a new site stopped.
#[derive(Debug)]
pub enum InitError {
    ReadlineError(String),
    InitCancelled,
    IOError(String),
}

/// How many questions a new site asks.
pub const QUESTION_COUNT: usize = 5;

/// The question asked at position `i` when a new site is set up.
pub fn question(i: usize) -> (r: &'static str)
    requires
        i < QUESTION_COUNT,
    ensures
        r@ == question_text(i as int),
{
    if i == 0 {
        "Enter the title of your blog: "
    } else if i == 1 {
        "Description: "
    } else if i == 2 {
        "Base url (Can be filled in later): "
    } else if i == 3 {
        "Author name (Optional): "
    } else {
        "Author email (Optional): "
    }
}

/// The questions a new site asks, in order: title, description, base url,
/// author name, author email.
pub open spec fn question_text(i: int) -> Seq<char> {
    if i == 0 {
        "Enter the title of your blog: "@
    } else if i == 1 {
        "Description: "@
    } else if i == 2 {
        "Base url (Can be filled in later): "@
    } else if i == 3 {
        "Author name (Optional): "@
    } else {
        "Author email (Optional): "@
    }
}

/// `after` is `before` with the setting that question `q` asks for set to
/// `t`: the title, the description, the base url, the author's name or the
/// author's email.
pub open spec fn answered(before: SiteConfig, after: SiteConfig, q: int, t: Seq<char>) -> bool {
    &&& (if q == 0 {
        after.title@ == t
    } else {
        after.title == before.title
    })
    &&& (if q == 1 {
        after.description@ == t
    } else {
        after.description == before.description
    })
    &&& (if q == 2 {
        after.base_url@ == t
    } else {
        after.base_url == before.base_url
    })
    &&& (if q == 3 {
        after.author.name@ == t
    } else {
        after.author.name == before.author.name
    })
    &&& (if q == 4 {
        opt_text(after.author.email) == Some(t)
    } else {
        after.author.email == before.author.email
    })
    &&& after.language_code == before.language_code
    &&& after.menu == before.menu
    &&& after.extra == before.extra
}

impl SiteConfig {
    /// Takes the reply to question `question`: a line that is not blank,
    /// without its surrounding white space, sets the setting that the
    /// question asks for; a blank line keeps it; an interrupted or ended
    /// prompt cancels the setup, and a failed one stops it with its message.
    pub fn answer_question(&mut self, question: usize, reply: PromptReply) -> (r: Result<(), InitError>)
        requires
            question < QUESTION_COUNT,
        ensures
            match reply {
                PromptReply::Line(l) => r is Ok && if trimmed(l@).len() == 0 {
                    *final(self) == *old(self)
                } else {
                    answered(*old(self), *final(self), question as int, trimmed(l@))
                },
                PromptReply::Interrupted => r matches Err(InitError::InitCancelled) && *final(self)
                    == *old(self),
                PromptReply::Eof => r matches Err(InitError::InitCancelled) && *final(self)
                    == *old(self),
                PromptReply::Failed(m) => r matches Err(InitError::ReadlineError(e)) && e == m
                    && *final(self) == *old(self),
            },
    {
        match reply {
            PromptReply::Line(l) => {
                let line = trim(l.as_str());
                if line.as_str().unicode_len() == 0 {
                    return Ok(());
                }
                if question == 0 {
                    self.title = line;
                } else if question == 1 {
                    self.description = line;
                } else if question == 2 {
                    self.base_url = line;
                } else if question == 3 {
                    self.author.name = line;
                } else {
                    self.author.email = Some(line);
                }
                Ok(())
            },
            PromptReply::Interrupted => Err(InitError::InitCancelled),
            PromptReply::Eof => Err(InitError::InitCancelled),
            PromptReply::Failed(m) => Err(InitError::ReadlineError(m)),
        }
    }
}

/// What setting up a site reports once its files are written, for a site
/// titled `title`, a program called `program`, and whether git was found.
pub open spec fn init_report_of(title: Seq<char>, program: Seq<char>, git_installed: bool) -> Seq<char> {
    "\n\u{2705} Project '"@ + title + "' initialized successfully!\nNext steps:\n  cd "@ + title
        + "\n  "@ + program + " serve --watch\n"@ + if git_installed {
        "Next steps: Link this to GitHub to start auto-deploying via Actions!\n"@
    } else {
        "\u{26a0}\u{fe0f} Warning: Git is not detected, it is recommended to install git at https://git-scm.com\nAfter you install git, run: \ngit init\ngit add .\ngit commit -m \"first commit\"\n"@
    }
}

/// What setting up a site reports once its files are written: where the
/// project is and how to serve it, then a word on git.
pub fn init_report(title: &str, program: &str, git_installed: bool) -> (r: String)
    ensures
        r@ == init_report_of(title@, program@, git_installed),
{
    let mut r = "\n\u{2705} Project '".to_owned();
    r.append(title);
    r.append("' initialized successfully!\nNext steps:\n  cd ");
    r.append(title);
    r.append("\n  ");
    r.append(program);
    r.append(" serve --watch\n");
    if git_installed {
        r.append("Next steps: Link this to GitHub to start auto-deploying via Actions!\n");
    } else {
        r.append(
            "\u{26a0}\u{fe0f} Warning: Git is not detected, it is recommended to install git at https://git-scm.com\nAfter you install git, run: \ngit init\ngit add .\ngit commit -m \"first commit\"\n",
        );
    }
    r
}

} // verus!
