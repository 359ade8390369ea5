//! Per-repository presentation state: the heading line naming the
//! repository and the latest status text under it.  Rendering (color,
//! printing) is the host program's affair.

use vstd::prelude::*;

use crate::manifest::Repo;

verus! {

/// One repository's presentation state during a run.
pub struct RepoTask {
    /// The repository being worked on.
    pub repo: Repo,
    /// The current status text: the heading followed by the latest message.
    pub state: String,
    /// The heading line naming the repository.
    pub repo_name_string: String,
}

impl RepoTask {
    /// The heading line naming the repository, as the contracts see it.
    pub open spec fn name_text(&self) -> Seq<char> {
        self.repo_name_string@
    }

    /// A fresh task: heading prepared, status empty.
    pub fn new(repo: Repo) -> (r: RepoTask)
        ensures
            r.repo == repo,
            r.state@ == Seq::<char>::empty(),
            r.name_text() == "Repo:  "@ + repo.url@,
    {
        let mut name = String::from_str("Repo:  ");
        name.append(repo.url.as_str());
        RepoTask { repo, state: String::new(), repo_name_string: name }
    }

    /// Replaces the status text: the heading, a break, and the new message.
    pub fn update_state(&mut self, new_state_string: String)
        ensures
            final(self).state@ == old(self).name_text() + "\n   "@ + new_state_string@,
            final(self).repo == old(self).repo,
            final(self).name_text() == old(self).name_text(),
    {
        let mut s = self.repo_name_string.clone();
        s.append("\n   ");
        s.append(new_state_string.as_str());
        self.state = s;
    }
}

} // verus!
