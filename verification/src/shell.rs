//! Which shell is in use, and where its history file lies.

use crate::paths::{join_path, joined_path};
use crate::text::{chars_of, has_prefix, option_text, same_text};
use vstd::prelude::*;
use vstd::string::*;

verus! {

/// The text `s` in lower case, as `str::to_lowercase` gives it.
pub uninterp spec fn lowercase(s: Seq<char>) -> Seq<char>;

/// `str::to_lowercase`. Nothing is claimed of the result but that it is
/// [`lowercase`] of the text.
#[verifier::external_body]
pub(crate) fn to_lowercase(s: &str) -> (lower: String)
    ensures
        lower@ == lowercase(s@),
{
    s.to_lowercase()
}

/// Whether `pattern` stands somewhere in `s`.
pub open spec fn contains_text(s: Seq<char>, pattern: Seq<char>) -> bool {
    exists|i: int| 0 <= i <= s.len() && pattern.is_prefix_of(#[trigger] s.skip(i))
}

/// The shell that a path in lower case names: zsh before bash before fish,
/// and `unknown` where it names none of them.
pub open spec fn classify(lower: Seq<char>) -> Seq<char> {
    if contains_text(lower, "zsh"@) {
        "zsh"@
    } else if contains_text(lower, "bash"@) {
        "bash"@
    } else if contains_text(lower, "fish"@) {
        "fish"@
    } else {
        "unknown"@
    }
}

/// The shell that the environment names: `unknown` where the variable is not
/// set.
pub open spec fn detected(shell_var: Option<Seq<char>>) -> Seq<char> {
    match shell_var {
        Some(path) => classify(lowercase(path)),
        None => "unknown"@,
    }
}

/// The shell to work with: the one asked for, as it was written, or else the
/// one detected.
pub open spec fn resolved(asked: Option<Seq<char>>, shell_var: Option<Seq<char>>) -> Seq<char> {
    match asked {
        Some(name) => name,
        None => detected(shell_var),
    }
}

/// Where the history file of `shell` lies below the home directory; none for
/// a shell other than bash, zsh and fish.
pub open spec fn history_file(shell: Seq<char>) -> Option<Seq<char>> {
    if shell == "bash"@ {
        Some(".bash_history"@)
    } else if shell == "zsh"@ {
        Some(".zsh_history"@)
    } else if shell == "fish"@ {
        Some(".local/share/fish/fish_history"@)
    } else {
        None
    }
}

/// The history file of `shell` for the home directory `home`; none where
/// there is no home directory or the shell has no history file.
pub open spec fn history_location(shell: Seq<char>, home: Option<Seq<char>>) -> Option<Seq<char>> {
    match (home, history_file(shell)) {
        (Some(base), Some(rel)) => Some(joined_path(base, rel)),
        _ => None,
    }
}

/// Whether `pattern` stands somewhere in `s`.
pub fn text_contains(s: &str, pattern: &str) -> (found: bool)
    ensures
        found == contains_text(s@, pattern@),
{
    let chars = chars_of(s);
    let pat = chars_of(pattern);
    let n = chars.len();
    let mut i: usize = 0;
    while i < n
        invariant
            n == chars@.len(),
            chars@ == s@,
            pat@ == pattern@,
            i <= n,
            forall|j: int| 0 <= j < i ==> !pattern@.is_prefix_of(#[trigger] s@.skip(j)),
        decreases n - i,
    {
        if has_prefix(&chars, i, n, &pat) {
            return true;
        }
        i += 1;
    }
    has_prefix(&chars, n, n, &pat)
}

/// The shell that a path in lower case names.
pub fn classify_shell(lower: &str) -> (shell: String)
    ensures
        shell@ == classify(lower@),
{
    if text_contains(lower, "zsh") {
        "zsh".to_owned()
    } else if text_contains(lower, "bash") {
        "bash".to_owned()
    } else if text_contains(lower, "fish") {
        "fish".to_owned()
    } else {
        "unknown".to_owned()
    }
}

/// The shell that the environment names, given the value of its shell
/// variable.
pub fn detect_shell(shell_var: Option<&str>) -> (shell: String)
    ensures
        shell@ == detected(
            match shell_var {
                Some(path) => Some(path@),
                None => None,
            },
        ),
{
    match shell_var {
        Some(path) => {
            let lower = to_lowercase(path);
            classify_shell(lower.as_str())
        },
        None => "unknown".to_owned(),
    }
}

/// The shell to work with: the one asked for, or else the one detected.
pub fn resolve_shell(asked: Option<String>, shell_var: Option<&str>) -> (shell: String)
    ensures
        shell@ == resolved(
            option_text(asked),
            match shell_var {
                Some(path) => Some(path@),
                None => None,
            },
        ),
{
    match asked {
        Some(name) => name,
        None => detect_shell(shell_var),
    }
}

/// Where the history file of `shell` lies below the home directory.
pub fn history_file_of(shell: &str) -> (rel: Option<String>)
    ensures
        option_text(rel) == history_file(shell@),
{
    if same_text(shell, "bash") {
        Some(".bash_history".to_owned())
    } else if same_text(shell, "zsh") {
        Some(".zsh_history".to_owned())
    } else if same_text(shell, "fish") {
        Some(".local/share/fish/fish_history".to_owned())
    } else {
        None
    }
}

/// The history file of `shell` for the home directory `home`.
pub fn history_path(shell: &str, home: Option<&str>) -> (path: Option<String>)
    ensures
        option_text(path) == history_location(
            shell@,
            match home {
                Some(base) => Some(base@),
                None => None,
            },
        ),
{
    match home {
        Some(base) => match history_file_of(shell) {
            Some(rel) => Some(join_path(base, rel.as_str())),
            None => None,
        },
        None => None,
    }
}

} // verus!
