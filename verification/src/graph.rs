//! Where the commits stand in the graph.

use vstd::prelude::*;
use crate::git::Commit;
use crate::names::NameMap;

verus! {

/// The commits in the order of the log, and for each the lane and the row on which it is drawn.
#[derive(Debug)]
pub struct Graph<'a> {
    pub commits: Vec<&'a Commit>,
    pub commit_pos_map: NameMap<(usize, usize)>,
    pub max_pos_x: usize,
}

impl<'a> Graph<'a> {
    /// Each commit has a place.
    pub open spec fn wf(&self) -> bool {
        &&& self.commit_pos_map.wf()
        &&& forall|i: int|
            0 <= i < self.commits@.len() ==> self.commit_pos_map@.contains_key(
                (#[trigger] self.commits@[i]).commit_hash@,
            )
    }
}

} // verus!
