//! What is remembered of a repository from one run to the next.

use vstd::prelude::*;
use crate::names::NameMap;
use crate::paths;
use crate::text;

verus! {

pub const STATE_DIR_NAME: &'static str = "lbh";

pub const STATE_FILE_NAME: &'static str = "state.json";

/// The file in which it is remembered.
pub fn state_file_path(git_dir: &str) -> (r: String)
    ensures
        r@ == paths::path_under(
            paths::path_under(git_dir@, STATE_DIR_NAME@),
            STATE_FILE_NAME@,
        ),
{
    let dir = paths::join_path(git_dir, STATE_DIR_NAME);
    paths::join_path(dir.as_str(), STATE_FILE_NAME)
}

/// The base of each branch, and the prefix of new branches.
#[derive(Debug)]
pub struct RepoState {
    pub branch_origins: NameMap<String>,
    pub branch_prefix: Option<String>,
}

pub ghost struct RepoStateView {
    pub origins: Map<Seq<char>, Seq<char>>,
    pub prefix: Option<Seq<char>>,
}

impl View for RepoState {
    type V = RepoStateView;

    open spec fn view(&self) -> RepoStateView {
        RepoStateView {
            origins: self.branch_origins@.map_values(|s: String| s@),
            prefix: text::opt_text(self.branch_prefix),
        }
    }
}

impl Default for RepoState {
    fn default() -> (r: RepoState)
        ensures
            r.wf(),
            r@ == (RepoStateView { origins: Map::empty(), prefix: None }),
    {
        let r = RepoState { branch_origins: NameMap::new(), branch_prefix: None };
        assert(r@.origins =~= Map::<Seq<char>, Seq<char>>::empty());
        r
    }
}

impl RepoState {
    pub open spec fn wf(&self) -> bool {
        self.branch_origins.wf()
    }

    pub fn get_branch_origin(&self, branch: &str) -> (r: Option<&str>)
        requires
            self.wf(),
        ensures
            text::opt_slice(r) == origin_of(self@, branch@),
    {
        match self.branch_origins.get(branch) {
            Some(s) => Some(s.as_str()),
            None => None,
        }
    }

    pub fn set_branch_origin(&mut self, branch: &str, base: &str)
        requires
            old(self).wf(),
        ensures
            final(self).wf(),
            final(self)@ == old(self)@.with_origin(branch@, base@),
    {
        let ghost before = self@;
        self.branch_origins.insert(branch, base.to_string());
        assert(self@.origins =~= before.origins.insert(branch@, base@));
    }

    pub fn get_branch_prefix(&self) -> (r: Option<&str>)
        ensures
            text::opt_slice(r) == self@.prefix,
    {
        match &self.branch_prefix {
            Some(s) => Some(s.as_str()),
            None => None,
        }
    }

    pub fn set_branch_prefix(&mut self, branch_prefix: Option<&str>)
        requires
            old(self).wf(),
        ensures
            final(self).wf(),
            final(self)@ == (RepoStateView {
                prefix: text::opt_slice(branch_prefix),
                ..old(self)@
            }),
    {
        self.branch_prefix = match branch_prefix {
            Some(s) => Some(s.to_string()),
            None => None,
        };
    }
}

/// The base that is remembered for a branch.
pub open spec fn origin_of(s: RepoStateView, branch: Seq<char>) -> Option<Seq<char>> {
    if s.origins.contains_key(branch) {
        Some(s.origins[branch])
    } else {
        None
    }
}

impl RepoStateView {
    pub open spec fn with_origin(self, branch: Seq<char>, base: Seq<char>) -> RepoStateView {
        RepoStateView { origins: self.origins.insert(branch, base), ..self }
    }

    /// What is remembered for a branch is what was last set for it, and nothing else changes.
    pub proof fn origins_are_remembered(self, branch: Seq<char>, base: Seq<char>, other: Seq<char>)
        ensures
            origin_of(self.with_origin(branch, base), branch) == Some(base),
            other != branch ==> origin_of(self.with_origin(branch, base), other) == origin_of(
                self,
                other,
            ),
            self.with_origin(branch, base).prefix == self.prefix,
    {
    }
}

} // verus!
