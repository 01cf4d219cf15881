//! The program's validated configuration, and the decisions taken while
//! validating it.  Argument parsing itself and the working-directory
//! fallback happen outside the library, which only ever sees plain values.

use vstd::prelude::*;

verus! {

/// The settings the program runs with.
pub struct ProgramArgs {
    /// Where the gist repository sits on disk, if the user named a place.
    pub repo_path: Option<String>,
    /// The local port for the internal listener.
    pub port: u16,
    /// Milliseconds between passive terminal redraws.
    pub terminal_redraw_delay: u64,
    /// Run without the interactive terminal interface.
    pub no_interactivity: bool,
    /// Censor the gist URL in the server log.
    pub hide_url: bool,
}

impl ProgramArgs {
    /// The settings as they stand before any flag is given.
    pub fn with_defaults(repo_path: Option<String>) -> (r: ProgramArgs)
        ensures
            r.repo_path == repo_path,
            r.port == 47362u16,
            r.terminal_redraw_delay == 250u64,
            !r.no_interactivity,
            !r.hide_url,
    {
        ProgramArgs {
            repo_path,
            port: 47362,
            terminal_redraw_delay: 250,
            no_interactivity: false,
            hide_url: false,
        }
    }

    /// Validation must ask the user for a repository path exactly when none
    /// was given and the terminal is interactive.
    pub fn needs_repo_prompt(&self) -> (r: bool)
        ensures
            r == (self.repo_path is None && !self.no_interactivity),
    {
        match self.repo_path {
            Some(_) => false,
            None => !self.no_interactivity,
        }
    }

    /// Validation must fall back to the working directory exactly when no
    /// path was given and the terminal is non-interactive.
    pub fn needs_cwd_fallback(&self) -> (r: bool)
        ensures
            r == (self.repo_path is None && self.no_interactivity),
    {
        match self.repo_path {
            Some(_) => false,
            None => self.no_interactivity,
        }
    }
}

/// What one serving round works on: the two logs' titles are fixed by the
/// dashboard; here only the chosen repository location is carried.
pub struct ProgramInfo {
    /// Where the gist repository sits on disk; nothing while the user has
    /// asked to exit instead.
    pub repo_path: Option<String>,
}

impl ProgramInfo {
    /// Wrap a chosen repository location.
    pub fn new(repo_path: Option<String>) -> (r: ProgramInfo)
        ensures
            r.repo_path == repo_path,
    {
        ProgramInfo { repo_path }
    }
}

/// What `str::to_lowercase` returns: a function of the characters alone.
pub uninterp spec fn lower_of(s: Seq<char>) -> Seq<char>;

/// Relies on str::to_lowercase: the Unicode lowercase of `s`, depending on
/// its characters alone; an empty text stays empty.
#[verifier::external_body]
fn to_lowercase(s: &str) -> (r: String)
    ensures
        r@ == lower_of(s@),
        s@.len() == 0 ==> r@.len() == 0,
{
    s.to_lowercase()
}

/// Does this prompt answer ask to cancel?  The exit word counts in any
/// letter case.
pub fn is_exit_input(s: &str) -> (r: bool)
    ensures
        r == (lower_of(s@) == "exit"@),
{
    let lowered = to_lowercase(s);
    let v = crate::text::chars_of(lowered.as_str());
    crate::text::chars_eq_str(&v, "exit")
}

/// A prompted repository path is adopted exactly when it is not the exit
/// word; the exit word ends the prompt loop with nothing chosen.
pub fn chosen_repo_path(answer: &str) -> (r: Option<String>)
    ensures
        lower_of(answer@) == "exit"@ ==> r is None,
        lower_of(answer@) != "exit"@ ==> (r matches Some(p) && p@ == answer@),
{
    if is_exit_input(answer) {
        None
    } else {
        Some(answer.to_owned())
    }
}

} // verus!
