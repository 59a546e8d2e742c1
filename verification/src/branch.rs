//! Branches and the filter that selects among them.
use vstd::prelude::*;

verus! {

/// A local or remote branch with the facts the cleanup needs about it.
#[derive(Debug)]
pub struct Branch {
    /// Short ref name (`feature/x`, or `origin/feature/x` for a remote branch)
    pub name: String,
    /// Whole days since the last commit
    pub age_days: i64,
    /// Whether the branch is merged into the default branch
    pub is_merged: bool,
    /// Whether this is a remote-tracking branch
    pub is_remote: bool,
    /// Abbreviated SHA of the last commit
    pub last_commit_sha: String,
    /// Author date of the last commit, in seconds since the Unix epoch (UTC)
    pub last_commit_date: i64,
    /// Author of the last commit
    pub last_commit_author: String,
}

impl Clone for Branch {
    fn clone(&self) -> (r: Self)
        ensures
            r == *self,
    {
        Branch {
            name: self.name.clone(),
            age_days: self.age_days,
            is_merged: self.is_merged,
            is_remote: self.is_remote,
            last_commit_sha: self.last_commit_sha.clone(),
            last_commit_date: self.last_commit_date,
            last_commit_author: self.last_commit_author.clone(),
        }
    }
}

/// Which branches to consider.
#[derive(Debug, Clone, Copy)]
pub struct BranchFilter {
    /// Only branches at least this many days old
    pub min_age_days: u32,
    /// Only local branches
    pub local_only: bool,
    /// Only remote branches
    pub remote_only: bool,
    /// Only merged branches
    pub merged_only: bool,
}

impl Default for BranchFilter {
    fn default() -> (r: Self)
        ensures
            r.min_age_days == 0,
            !r.local_only,
            !r.remote_only,
            !r.merged_only,
    {
        BranchFilter { min_age_days: 0, local_only: false, remote_only: false, merged_only: false }
    }
}

impl BranchFilter {
    /// Whether `b` passes this filter.
    pub open spec fn accepts(self, b: Branch) -> bool {
        &&& b.age_days >= self.min_age_days
        &&& !(self.local_only && b.is_remote)
        &&& !(self.remote_only && !b.is_remote)
        &&& !(self.merged_only && !b.is_merged)
    }

    /// Whether `b` passes this filter.
    pub fn matches(&self, b: &Branch) -> (r: bool)
        ensures
            r == self.accepts(*b),
    {
        b.age_days >= self.min_age_days as i64 && !(self.local_only && b.is_remote) && !(
        self.remote_only && !b.is_remote) && !(self.merged_only && !b.is_merged)
    }
}

} // verus!
