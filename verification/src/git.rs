//! The part of the two version-control tools that is plain logic: deciding
//! whether a collected staged diff counts as a failure, and shaping the
//! confirmation text for a created commit. The backend calls themselves
//! (repository, index, signature handling) live outside the verified crate
//! and hand their results to these functions as plain strings.

use vstd::prelude::*;

verus! {

/// The two version-control tools, as far as their outcomes are plain values.
pub struct GitHandler;

impl GitHandler {
    /// The rule behind `get_staged_diff`: an empty diff is a failure with a
    /// fixed human-readable message, a non-empty diff is returned as-is.
    pub fn staged_diff_outcome(diff: String) -> (r: Result<String, String>)
        ensures
            diff@.len() == 0 ==> (r matches Err(m) && m@ == "没有发现已暂存的变更。"@),
            diff@.len() != 0 ==> (r matches Ok(d) && d@ == diff@),
    {
        if diff.as_str().is_empty() {
            Err(String::from_str("没有发现已暂存的变更。"))
        } else {
            Ok(diff)
        }
    }

    /// The confirmation text `execute_commit` reports for a created commit,
    /// given the new commit's identifier rendered as text.
    pub fn commit_confirmation(commit_id: &str) -> (r: String)
        ensures
            r@ == "Commit successful: "@ + commit_id@,
    {
        let mut s = String::from_str("Commit successful: ");
        s.append(commit_id);
        s
    }
}

} // verus!
