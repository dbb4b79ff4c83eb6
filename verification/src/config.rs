//! A local, in-memory project store: the simplest backing for the
//! project-store interface that adapters expose. Asynchronous or
//! persisted stores live with the adapters; the rules governing this
//! one are here, where they are checked.

use vstd::prelude::*;

use crate::project::Project;
use crate::project::ProjectId;

verus! {

/// An in-memory arena of projects with its own id counter: ids are
/// unique and never reused, even after a project is removed.
#[derive(Debug)]
pub struct LocalConfig {
    pub last_id: u64,
    pub projects: Vec<Project>,
}

impl LocalConfig {
    /// Every stored project id was issued by the counter, and no two
    /// stored projects share an id.
    pub open spec fn wf(&self) -> bool {
        &&& forall|i: int|
            0 <= i < self.projects@.len() ==> (#[trigger] self.projects@[i]).id.0 <= self.last_id
        &&& forall|i: int, j: int|
            0 <= i < j < self.projects@.len() ==> (#[trigger] self.projects@[i]).id.0 != (
            #[trigger] self.projects@[j]).id.0
    }

    /// An empty store with no ids issued.
    pub fn new() -> (r: Self)
        ensures
            r.wf(),
            r.last_id == 0,
            r.projects@.len() == 0,
    {
        LocalConfig { last_id: 0, projects: Vec::new() }
    }

    /// Creates an empty project under the next id and returns the id.
    pub fn create_new_project(&mut self, name: String, description: String) -> (r: ProjectId)
        requires
            old(self).wf(),
            old(self).last_id < u64::MAX,
        ensures
            final(self).wf(),
            r.0 == old(self).last_id + 1,
            final(self).last_id == old(self).last_id + 1,
            final(self).projects@.len() == old(self).projects@.len() + 1,
            final(self).projects@.take(old(self).projects@.len() as int) == old(self).projects@,
            final(self).projects@.last().id == r,
            final(self).projects@.last().name == name,
            final(self).projects@.last().description == description,
            final(self).projects@.last().work_slices@.len() == 0,
            final(self).projects@.last().current_slice is None,
    {
        let id_raw: u64 = self.last_id + 1;
        let id = ProjectId::new(id_raw);
        self.projects.push(Project::new(name, description, id));
        self.last_id = id_raw;
        proof {
            assert(final(self).projects@.take(old(self).projects@.len() as int) =~= old(self).projects@);
        }
        id
    }

    /// The ids of all stored projects, in order.
    pub fn project_ids(&self) -> (r: Vec<ProjectId>)
        ensures
            r@.len() == self.projects@.len(),
            forall|i: int| 0 <= i < r@.len() ==> (#[trigger] r@[i]) == self.projects@[i].id,
    {
        let mut out: Vec<ProjectId> = Vec::new();
        let mut i: usize = 0;
        while i < self.projects.len()
            invariant
                0 <= i <= self.projects@.len(),
                out@.len() == i,
                forall|j: int| 0 <= j < i ==> (#[trigger] out@[j]) == self.projects@[j].id,
            decreases self.projects@.len() - i,
        {
            out.push(self.projects[i].id());
            i = i + 1;
        }
        out
    }

    /// The stored project with the given id, if any.
    pub fn project_from_id(&self, id: ProjectId) -> (r: Option<&Project>)
        ensures
            (exists|i: int|
                0 <= i < self.projects@.len() && (#[trigger] self.projects@[i]).id.0 == id.0)
                <==> r is Some,
            r matches Some(p) ==> p.id == id,
    {
        let mut i: usize = 0;
        while i < self.projects.len()
            invariant
                0 <= i <= self.projects@.len(),
                forall|j: int| 0 <= j < i ==> (#[trigger] self.projects@[j]).id.0 != id.0,
            decreases self.projects@.len() - i,
        {
            if self.projects[i].id().inner() == id.inner() {
                return Some(&self.projects[i]);
            }
            i = i + 1;
        }
        None
    }

    /// Removes the project with the given id: succeeds exactly when
    /// such a project is stored, and changes nothing otherwise.
    #[verifier::loop_isolation(false)]
    pub fn remove_project(&mut self, id: ProjectId) -> (r: bool)
        requires
            old(self).wf(),
        ensures
            final(self).wf(),
            r <==> (exists|i: int|
                0 <= i < old(self).projects@.len() && (#[trigger] old(self).projects@[i]).id.0
                    == id.0),
            !r ==> final(self).projects@ == old(self).projects@ && final(self).last_id == old(self).last_id,
            r ==> final(self).last_id == old(self).last_id && exists|i: int|
                0 <= i < old(self).projects@.len() && (#[trigger] old(self).projects@[i]).id.0
                    == id.0 && final(self).projects@ == old(self).projects@.remove(i),
    {
        let mut i: usize = 0;
        while i < self.projects.len()
            invariant
                0 <= i <= self.projects@.len(),
                *self == *old(self),
                forall|j: int| 0 <= j < i ==> (#[trigger] self.projects@[j]).id.0 != id.0,
            decreases self.projects@.len() - i,
        {
            if self.projects[i].id().inner() == id.inner() {
                let ghost pre = self.projects@;
                self.projects.remove(i);
                proof {
                    assert(pre[i as int].id.0 == id.0);
                    assert forall|k: int| 0 <= k < self.projects@.len() implies ((
                    #[trigger] self.projects@[k]).id.0 <= self.last_id) by {
                        let k2: int = if k < i as int {
                            k
                        } else {
                            k + 1
                        };
                        assert(self.projects@[k] == pre[k2]);
                    }
                    assert forall|k: int, l: int| 0 <= k < l < self.projects@.len() implies (
                    #[trigger] self.projects@[k]).id.0 != (#[trigger] self.projects@[l]).id.0 by {
                        let k2: int = if k < i as int {
                            k
                        } else {
                            k + 1
                        };
                        let l2: int = if l < i as int {
                            l
                        } else {
                            l + 1
                        };
                        assert(self.projects@[k] == pre[k2]);
                        assert(self.projects@[l] == pre[l2]);
                        assert(pre[k2].id.0 != pre[l2].id.0);
                    }
                }
                return true;
            }
            i = i + 1;
        }
        false
    }
}

} // verus!
