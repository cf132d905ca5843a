//! Repository identity from what git reports: the `owner/repo` name of the
//! origin remote, the branch and the commit, each with its fallback.

use vstd::prelude::*;
use crate::text::{str_equal, str_trim, trim_seq};

verus! {

/// Named result of compiling `pattern` with `regex::Regex::new` and taking
/// the text of capture group 1 in its first match in `text`; `None` when the
/// pattern does not compile, nothing matches, or group 1 takes no part in
/// the match.
pub uninterp spec fn regex_first_group(pattern: Seq<char>, text: Seq<char>) -> Option<Seq<char>>;

/// Calls `regex::Regex::new`, then `Regex::captures` and `Captures::get(1)`.
/// The result is the named `regex_first_group` of the two arguments.
#[verifier::external_body]
fn first_group(pattern: &str, text: &str) -> (r: Option<String>)
    ensures
        regex_first_group(pattern@, text@) == match r {
            Some(s) => Some(s@),
            None => None,
        },
{
    let re = regex::Regex::new(pattern).ok()?;
    re.captures(text).and_then(|c| c.get(1)).map(|m| m.as_str().to_owned())
}

/// The `owner/repo` part at the end of a remote URL, for HTTPS
/// (`https://host/owner/repo.git`) and SSH (`git@host:owner/repo.git`)
/// forms alike: the match of `[:/]([^/]+/[^/]+?)(?:\.git)?$` in the trimmed
/// URL.
pub open spec fn remote_repo_name(url: Seq<char>) -> Option<Seq<char>> {
    regex_first_group("[:/]([^/]+/[^/]+?)(?:\\.git)?$"@, trim_seq(url))
}

/// Extract `owner/repo` from a remote URL.
pub fn repo_name_from_remote(url: &str) -> (r: Option<String>)
    ensures
        remote_repo_name(url@) == match r {
            Some(s) => Some(s@),
            None => None,
        },
{
    let trimmed = str_trim(url);
    first_group("[:/]([^/]+/[^/]+?)(?:\\.git)?$", trimmed.as_str())
}

/// The characters of an optional text, or the fallback.
pub open spec fn or_else(t: Option<Seq<char>>, fallback: Seq<char>) -> Seq<char> {
    match t {
        Some(s) => s,
        None => fallback,
    }
}

/// The repository name: `owner/repo` of the origin remote when there is
/// one and it has that shape, else the directory's name, else "unknown".
pub open spec fn repo_identity_name(remote_url: Option<Seq<char>>, dir_name: Option<Seq<char>>) -> Seq<char> {
    match remote_url {
        Some(url) => match remote_repo_name(url) {
            Some(n) => n,
            None => or_else(dir_name, "unknown"@),
        },
        None => or_else(dir_name, "unknown"@),
    }
}

/// The trimmed output of a git command, or the fallback when it failed.
pub open spec fn trimmed_or(output: Option<Seq<char>>, fallback: Seq<char>) -> Seq<char> {
    match output {
        Some(s) => trim_seq(s),
        None => fallback,
    }
}

/// The characters of an optional string slice.
pub open spec fn opt_str(s: Option<&str>) -> Option<Seq<char>> {
    match s {
        Some(t) => Some(t@),
        None => None,
    }
}

/// The repository name, branch and commit of a working copy from what git
/// reported: the origin URL, the directory name, and the output of
/// `rev-parse --abbrev-ref HEAD` and `rev-parse HEAD` (`None` where a
/// command failed). The branch falls back to "main", the commit to "HEAD".
pub fn get_git_info(
    remote_url: Option<&str>,
    dir_name: Option<&str>,
    branch_output: Option<&str>,
    commit_output: Option<&str>,
) -> (r: (String, String, String))
    ensures
        r.0@ == repo_identity_name(opt_str(remote_url), opt_str(dir_name)),
        r.1@ == trimmed_or(opt_str(branch_output), "main"@),
        r.2@ == trimmed_or(opt_str(commit_output), "HEAD"@),
{
    let from_remote = match remote_url {
        Some(url) => repo_name_from_remote(url),
        None => None,
    };
    let repo = match from_remote {
        Some(n) => n,
        None => match dir_name {
            Some(d) => d.to_owned(),
            None => "unknown".to_owned(),
        },
    };
    let branch = match branch_output {
        Some(b) => str_trim(b),
        None => "main".to_owned(),
    };
    let commit = match commit_output {
        Some(c) => str_trim(c),
        None => "HEAD".to_owned(),
    };
    proof {
        reveal_strlit("unknown");
        reveal_strlit("main");
        reveal_strlit("HEAD");
    }
    (repo, branch, commit)
}

/// The branch a detected HEAD stands for: a detached HEAD (reported as
/// "HEAD") is named by the trimmed output of `git rev-parse --short=8 HEAD`,
/// unknown when that command failed; any other name stands for itself.
pub open spec fn effective_branch(detected: Seq<char>, sha_output: Option<Seq<char>>) -> Option<Seq<char>> {
    if detected == "HEAD"@ {
        match sha_output {
            Some(o) => Some(trim_seq(o)),
            None => None,
        }
    } else {
        Some(detected)
    }
}

/// The branch a watcher switches to: the effective branch, unless it is
/// unknown or the one already current.
pub open spec fn branch_switch_target(
    current: Seq<char>,
    detected: Seq<char>,
    sha_output: Option<Seq<char>>,
) -> Option<Seq<char>> {
    match effective_branch(detected, sha_output) {
        Some(b) => if b == current {
            None
        } else {
            Some(b)
        },
        None => None,
    }
}

/// Decide a branch switch from the branch now current, the branch git
/// reports and, for a detached HEAD, the output of the short-SHA command
/// (`None` where it failed): the branch to switch to, or `None` when there
/// is nothing to do.
pub fn branch_to_switch_to(current: &str, detected: &str, sha_output: Option<&str>) -> (r: Option<String>)
    ensures
        branch_switch_target(current@, detected@, opt_str(sha_output)) == match r {
            Some(s) => Some(s@),
            None => None,
        },
{
    let effective = if str_equal(detected, "HEAD") {
        match sha_output {
            Some(o) => str_trim(o),
            None => {
                return None;
            },
        }
    } else {
        detected.to_owned()
    };
    if str_equal(effective.as_str(), current) {
        None
    } else {
        Some(effective)
    }
}

} // verus!
