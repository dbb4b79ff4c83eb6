//! The top-level aggregate: owns every project, allocates identities,
//! dispatches commands to the addressed project, and records a change
//! event for every successful mutation.

use vstd::prelude::*;

use crate::changes::Change;
use crate::clock::now_millis;
use crate::errors::NotFoundError;
use crate::errors::WorkEndError;
use crate::errors::WorkStartError;
use crate::money::Payment;
use crate::project::Project;
use crate::project::ProjectId;
use crate::work_slice::CompleteWorkSlice;
use crate::work_slice::IncompleteWorkSlice;
use crate::work_slice::WorkSlice;
use crate::work_slice::WorkSliceId;

verus! {

/// Whether two states agree on every observable part: both counters,
/// the projects in order, and the pending change log.
pub open spec fn same_state(a: State, b: State) -> bool {
    &&& a.previous_project_id == b.previous_project_id
    &&& a.previous_work_slice_id == b.previous_work_slice_id
    &&& a.projects@ == b.projects@
    &&& a.changes@ == b.changes@
}

/// Creates, modifies and deletes projects, owning them all.
///
/// Identity counters only ever increase: an id, once used, is never
/// reused, even after its owner is deleted.
#[derive(Debug)]
pub struct State {
    pub previous_project_id: u64,
    pub previous_work_slice_id: u64,
    pub projects: Vec<Project>,
    pub changes: Vec<Change>,
}

impl State {
    /// Whether a project with raw id `id` exists.
    pub open spec fn has_project(&self, id: u64) -> bool {
        exists|i: int| 0 <= i < self.projects@.len() && (#[trigger] self.projects@[i]).id.0 == id
    }

    /// Whether any project holds a work slice with raw id `w`.
    pub open spec fn owns(&self, w: u64) -> bool {
        exists|i: int|
            0 <= i < self.projects@.len() && (#[trigger] self.projects@[i]).contains_slice_id(w)
    }

    /// Whether the project with raw id `pid` holds a work slice with
    /// raw id `w`.
    pub open spec fn slice_in_project(&self, pid: u64, w: u64) -> bool {
        exists|i: int|
            0 <= i < self.projects@.len() && (#[trigger] self.projects@[i]).id.0 == pid
                && self.projects@[i].contains_slice_id(w)
    }

    /// Whether the project with raw id `pid` exists and has an open
    /// work slice.
    pub open spec fn project_has_open_slice(&self, pid: u64) -> bool {
        exists|i: int|
            0 <= i < self.projects@.len() && (#[trigger] self.projects@[i]).id.0 == pid
                && self.projects@[i].current_slice is Some
    }

    /// The consistency invariant: every project is well-formed with
    /// internally distinct slice ids, project ids are unique, work
    /// slice ids are unique across all projects combined, and every id
    /// ever issued is bounded by its counter.
    pub open spec fn wf(&self) -> bool {
        &&& forall|i: int| 0 <= i < self.projects@.len() ==> (#[trigger] self.projects@[i]).wf()
        &&& forall|i: int|
            0 <= i < self.projects@.len() ==> (#[trigger] self.projects@[i]).slice_ids_distinct()
        &&& forall|i: int, j: int|
            0 <= i < j < self.projects@.len() ==> (#[trigger] self.projects@[i]).id.0 != (
            #[trigger] self.projects@[j]).id.0
        &&& forall|i: int, j: int, w: u64|
            0 <= i < self.projects@.len() && 0 <= j < self.projects@.len() && i != j ==> !((
            #[trigger] self.projects@[i].contains_slice_id(w)) && (
            #[trigger] self.projects@[j].contains_slice_id(w)))
        &&& forall|i: int|
            0 <= i < self.projects@.len() ==> (#[trigger] self.projects@[i]).id.0
                <= self.previous_project_id
        &&& forall|i: int, w: u64|
            0 <= i < self.projects@.len() && (#[trigger] self.projects@[i].contains_slice_id(w))
                ==> w <= self.previous_work_slice_id
    }

    /// The position of the project with the given id, if any.
    #[verifier::loop_isolation(false)]
    fn find_project_index(&self, id: ProjectId) -> (r: Option<usize>)
        ensures
            self.has_project(id.0) <==> r is Some,
            r matches Some(i) ==> 0 <= i < self.projects@.len() && self.projects@[i as int].id.0
                == id.0,
    {
        let mut i: usize = 0;
        while i < self.projects.len()
            invariant
                0 <= i <= self.projects@.len(),
                forall|j: int| 0 <= j < i ==> (#[trigger] self.projects@[j]).id.0 != id.0,
            decreases self.projects@.len() - i,
        {
            if self.projects[i].id().inner() == id.inner() {
                return Some(i);
            }
            i = i + 1;
        }
        None
    }

    /// An empty state: no projects, no pending changes, no ids issued.
    pub fn empty() -> (r: State)
        ensures
            r.wf(),
            r.projects@.len() == 0,
            r.changes@.len() == 0,
            r.previous_project_id == 0,
            r.previous_work_slice_id == 0,
    {
        State {
            previous_project_id: 0,
            previous_work_slice_id: 0,
            projects: Vec::new(),
            changes: Vec::new(),
        }
    }

    /// Allocates the next project id, creates an empty project under
    /// it, records `ProjectCreated`, and returns the new id.
    pub fn new_project(&mut self, name: String, description: String) -> (r: ProjectId)
        requires
            old(self).wf(),
            old(self).previous_project_id < u64::MAX,
        ensures
            final(self).wf(),
            r.0 == old(self).previous_project_id + 1,
            final(self).previous_project_id == old(self).previous_project_id + 1,
            final(self).previous_work_slice_id == old(self).previous_work_slice_id,
            final(self).projects@.len() == old(self).projects@.len() + 1,
            final(self).projects@.take(old(self).projects@.len() as int) == old(self).projects@,
            final(self).projects@.last().name == name,
            final(self).projects@.last().description == description,
            final(self).projects@.last().id == r,
            final(self).projects@.last().work_slices@.len() == 0,
            final(self).projects@.last().current_slice is None,
            final(self).changes@ == old(self).changes@.push(
                (Change::ProjectCreated {
                    name,
                    description,
                    id: (old(self).previous_project_id + 1) as u64,
                }),
            ),
    {
        let id_raw: u64 = self.previous_project_id + 1;
        self.changes.push(
            Change::ProjectCreated { name: name.clone(), description: description.clone(), id: id_raw },
        );
        let id = ProjectId::new(id_raw);
        self.projects.push(Project::new(name, description, id));
        self.previous_project_id = id_raw;
        proof {
            assert(final(self).projects@.take(old(self).projects@.len() as int) =~= old(self).projects@);
            assert forall|i: int| 0 <= i < final(self).projects@.len() implies (
            #[trigger] final(self).projects@[i]).slice_ids_distinct() by {
                if i < old(self).projects@.len() {
                    assert(old(self).projects@[i].slice_ids_distinct());
                }
            }
        }
        id
    }

    /// Hands the accumulated change events over, in the order the
    /// mutations happened, and leaves the log empty.
    pub fn handle_changes(&mut self) -> (r: Vec<Change>)
        ensures
            r == old(self).changes,
            final(self).changes@.len() == 0,
            final(self).projects == old(self).projects,
            final(self).previous_project_id == old(self).previous_project_id,
            final(self).previous_work_slice_id == old(self).previous_work_slice_id,
            old(self).wf() ==> final(self).wf(),
    {
        let mut out: Vec<Change> = Vec::new();
        core::mem::swap(&mut self.changes, &mut out);
        out
    }

    /// Starts a new open work slice for the addressed project, with
    /// the slice's validity judged against the clock reading `now`.
    /// A fresh work-slice id is allocated only on success, and
    /// `WorkSliceStarted` is recorded; on any failure nothing changes.
    /// Failures, in the order they are checked: the start time is
    /// after `now`; no project has the id; the project already has an
    /// open slice.
    pub fn start_work_at(&mut self, id: ProjectId, payment: Payment, time: i64, now: i64) -> (r:
        Result<(), WorkStartError>)
        requires
            old(self).wf(),
            old(self).previous_work_slice_id < u64::MAX,
        ensures
            final(self).wf(),
            r is Err ==> same_state(*final(self), *old(self)),
            time > now ==> r == Err::<(), WorkStartError>(WorkStartError::InvalidStartTime),
            time <= now && !old(self).has_project(id.0) ==> r == Err::<(), WorkStartError>(
                WorkStartError::InvalidProjectId,
            ),
            time <= now && old(self).has_project(id.0) && old(self).project_has_open_slice(id.0)
                ==> r == Err::<(), WorkStartError>(WorkStartError::AlreadyStarted),
            time <= now && old(self).has_project(id.0) && !old(self).project_has_open_slice(id.0)
                ==> r is Ok,
            r is Ok ==> final(self).previous_work_slice_id == old(self).previous_work_slice_id + 1
                && final(self).previous_project_id == old(self).previous_project_id && final(self).projects@.len() == old(self).projects@.len() && (forall|i: int|
                0 <= i < old(self).projects@.len() && (#[trigger] old(self).projects@[i]).id.0
                    != id.0 ==> final(self).projects@[i] == old(self).projects@[i]) && (forall|
                i: int,
            |
                0 <= i < old(self).projects@.len() && (#[trigger] old(self).projects@[i]).id.0
                    == id.0 ==> final(self).projects@[i] == (Project {
                    current_slice: Some(
                        (IncompleteWorkSlice {
                            start: time,
                            payment,
                            id: WorkSliceId((old(self).previous_work_slice_id + 1) as u64),
                        }),
                    ),
                    ..old(self).projects@[i]
                })) && final(self).changes@ == old(self).changes@.push(
                (Change::WorkSliceStarted {
                    project_id: id.0,
                    work_slice_id: (old(self).previous_work_slice_id + 1) as u64,
                    start_time: time,
                    payment,
                }),
            ),
    {
        if time > now {
            return Err(WorkStartError::InvalidStartTime);
        }
        let idx_opt = self.find_project_index(id);
        let idx = match idx_opt {
            Some(idx) => idx,
            None => {
                return Err(WorkStartError::InvalidProjectId);
            },
        };
        let mut p = self.projects.remove(idx);
        let has_open = p.current_work_slice().is_some();
        if has_open {
            self.projects.insert(idx, p);
            proof {
                assert(self.projects@ =~= old(self).projects@);
            }
            return Err(WorkStartError::AlreadyStarted);
        }
        let wid_raw: u64 = self.previous_work_slice_id + 1;
        let slice = match IncompleteWorkSlice::new_at(time, payment, WorkSliceId::new(wid_raw), now) {
            Some(s) => s,
            None => vstd::pervasive::unreached(),
        };
        let started = p.start_work(slice);
        proof {
            assert(started is Ok);
        }
        self.projects.insert(idx, p);
        self.previous_work_slice_id = wid_raw;
        self.changes.push(
            Change::WorkSliceStarted {
                project_id: id.inner(),
                work_slice_id: wid_raw,
                start_time: time,
                payment,
            },
        );
        proof {
            let pre = *old(self);
            let post = *self;
            let p_new = post.projects@[idx as int];
            assert(post.projects@ =~= pre.projects@.update(idx as int, p_new));
            assert forall|w: u64| #[trigger] p_new.contains_slice_id(w) implies pre.projects@[
                idx as int].contains_slice_id(w) || w > pre.previous_work_slice_id by {
                if p_new.has_completed_id(w) {
                    assert(pre.projects@[idx as int].has_completed_id(w));
                }
            }
            assert forall|w: u64| #[trigger] p_new.contains_slice_id(w) implies w
                <= post.previous_work_slice_id by {
                if p_new.has_completed_id(w) {
                    assert(pre.projects@[idx as int].has_completed_id(w));
                    assert(pre.projects@[idx as int].contains_slice_id(w));
                }
            }
            assert(p_new.slice_ids_distinct()) by {
                assert(pre.projects@[idx as int].slice_ids_distinct());
                if p_new.has_completed_id(wid_raw) {
                    assert(pre.projects@[idx as int].has_completed_id(wid_raw));
                    assert(pre.projects@[idx as int].contains_slice_id(wid_raw));
                    assert(false);
                }
            }
            assert(p_new.wf()) by {
                assert(pre.projects@[idx as int].wf());
            }
            lemma_wf_update_project(pre, post, idx as int, p_new);
        }
        Ok(())
    }

    /// Starts a new open work slice for the addressed project,
    /// judging the start time against the current clock: see
    /// [`Self::start_work_at`] for the exact behaviour at a given
    /// clock reading.
    pub fn start_work(&mut self, id: ProjectId, payment: Payment, time: i64) -> (r: Result<
        (),
        WorkStartError,
    >)
        requires
            old(self).wf(),
            old(self).previous_work_slice_id < u64::MAX,
        ensures
            final(self).wf(),
            r is Err ==> same_state(*final(self), *old(self)),
            r == Err::<(), WorkStartError>(WorkStartError::InvalidProjectId) ==> !old(self).has_project(id.0),
            r == Err::<(), WorkStartError>(WorkStartError::AlreadyStarted) ==> old(self).has_project(id.0) && old(self).project_has_open_slice(id.0),
            r is Ok ==> old(self).has_project(id.0) && !old(self).project_has_open_slice(id.0),
            r is Ok ==> final(self).previous_work_slice_id == old(self).previous_work_slice_id + 1
                && final(self).previous_project_id == old(self).previous_project_id && final(self).projects@.len() == old(self).projects@.len() && (forall|i: int|
                0 <= i < old(self).projects@.len() && (#[trigger] old(self).projects@[i]).id.0
                    != id.0 ==> final(self).projects@[i] == old(self).projects@[i]) && (forall|
                i: int,
            |
                0 <= i < old(self).projects@.len() && (#[trigger] old(self).projects@[i]).id.0
                    == id.0 ==> final(self).projects@[i] == (Project {
                    current_slice: Some(
                        (IncompleteWorkSlice {
                            start: time,
                            payment,
                            id: WorkSliceId((old(self).previous_work_slice_id + 1) as u64),
                        }),
                    ),
                    ..old(self).projects@[i]
                })) && final(self).changes@ == old(self).changes@.push(
                (Change::WorkSliceStarted {
                    project_id: id.0,
                    work_slice_id: (old(self).previous_work_slice_id + 1) as u64,
                    start_time: time,
                    payment,
                }),
            ),
    {
        let now = now_millis();
        self.start_work_at(id, payment, time, now)
    }

    /// Ends the addressed project's open work slice at `time`,
    /// recording `WorkSliceCompleted`; on any failure nothing
    /// changes. Failures: no project has the id; the project has no
    /// open slice; the end time is not strictly after the open
    /// slice's start.
    pub fn end_work(&mut self, id: ProjectId, time: i64) -> (r: Result<(), WorkEndError>)
        requires
            old(self).wf(),
        ensures
            final(self).wf(),
            r is Err ==> same_state(*final(self), *old(self)),
            !old(self).has_project(id.0) <==> r == Err::<(), WorkEndError>(
                WorkEndError::InvalidProjectId,
            ),
            old(self).has_project(id.0) && !old(self).project_has_open_slice(id.0) <==> r == Err::<
                (),
                WorkEndError,
            >(WorkEndError::NoWorkToComplete),
            old(self).has_project(id.0) && old(self).project_has_open_slice(id.0) ==> (forall|
                i: int,
            |
                0 <= i < old(self).projects@.len() && (#[trigger] old(self).projects@[i]).id.0
                    == id.0 ==> (old(self).projects@[i].current_slice matches Some(s) ==> (time
                    <= s.start <==> r == Err::<(), WorkEndError>(WorkEndError::EndTimeTooEarly)))),
            r is Ok ==> final(self).previous_work_slice_id == old(self).previous_work_slice_id
                && final(self).previous_project_id == old(self).previous_project_id && final(self).projects@.len() == old(self).projects@.len() && (forall|i: int|
                0 <= i < old(self).projects@.len() && (#[trigger] old(self).projects@[i]).id.0
                    != id.0 ==> final(self).projects@[i] == old(self).projects@[i]) && (forall|
                i: int,
            |
                0 <= i < old(self).projects@.len() && (#[trigger] old(self).projects@[i]).id.0
                    == id.0 ==> (old(self).projects@[i].current_slice matches Some(s) && final(self).projects@[i] == (Project {
                    work_slices: final(self).projects@[i].work_slices,
                    current_slice: None,
                    ..old(self).projects@[i]
                }) && final(self).projects@[i].work_slices@ == old(self).projects@[i].work_slices@.push(
                    (CompleteWorkSlice { start: s.start, end: time, payment: s.payment, id: s.id }),
                ) && final(self).changes@ == old(self).changes@.push(
                    (Change::WorkSliceCompleted {
                        project_id: id.0,
                        work_slice_id: s.id.0,
                        end_time: time,
                    }),
                ))),
    {
        let idx_opt = self.find_project_index(id);
        let idx = match idx_opt {
            Some(idx) => idx,
            None => {
                return Err(WorkEndError::InvalidProjectId);
            },
        };
        let mut p = self.projects.remove(idx);
        let current = p.current_work_slice();
        let s = match current {
            Some(s) => s,
            None => {
                self.projects.insert(idx, p);
                proof {
                    assert(self.projects@ =~= old(self).projects@);
                }
                return Err(WorkEndError::NoWorkToComplete);
            },
        };
        let completed = p.complete_work(time);
        self.projects.insert(idx, p);
        match completed {
            Err(e) => {
                proof {
                    assert(self.projects@ =~= old(self).projects@);
                }
                match e {
                    crate::errors::CompleteWorkError::EndTimeTooEarly => Err(
                        WorkEndError::EndTimeTooEarly,
                    ),
                    crate::errors::CompleteWorkError::NoWorkToComplete => Err(
                        WorkEndError::NoWorkToComplete,
                    ),
                }
            },
            Ok(()) => {
                self.changes.push(
                    Change::WorkSliceCompleted {
                        project_id: id.inner(),
                        work_slice_id: s.id.inner(),
                        end_time: time,
                    },
                );
                proof {
                    let pre = *old(self);
                    let post = *self;
                    let p_new = post.projects@[idx as int];
                    assert(post.projects@ =~= pre.projects@.update(idx as int, p_new));
                    let p_old = pre.projects@[idx as int];
                    assert(p_old.wf());
                    assert(p_old.slice_ids_distinct());
                    assert forall|w: u64| #[trigger] p_new.contains_slice_id(w) implies
                        p_old.contains_slice_id(w) by {
                        if p_new.has_completed_id(w) {
                            let k = choose|k: int|
                                0 <= k < p_new.work_slices@.len() && (
                                #[trigger] p_new.work_slices@[k]).id.0 == w;
                            if k < p_old.work_slices@.len() {
                                assert(p_old.has_completed_id(w));
                            } else {
                                assert(p_new.work_slices@[k] == p_new.work_slices@.last());
                                assert(p_old.has_current_id(w));
                            }
                        }
                    }
                    assert forall|w: u64| #[trigger] p_new.contains_slice_id(w) implies w
                        <= post.previous_work_slice_id by {}
                    assert(p_new.wf()) by {
                        assert forall|k: int| 0 <= k < p_new.work_slices@.len() implies (
                        #[trigger] p_new.work_slices@[k]).wf() by {
                            if k < p_old.work_slices@.len() {
                                assert(p_old.work_slices@[k].wf());
                            }
                        }
                    }
                    assert(p_new.slice_ids_distinct()) by {
                        assert forall|k: int, l: int|
                            0 <= k < l < p_new.work_slices@.len() implies (
                        #[trigger] p_new.work_slices@[k]).id.0 != (
                        #[trigger] p_new.work_slices@[l]).id.0 by {
                            if l < p_old.work_slices@.len() {
                                assert(p_old.work_slices@[k].id.0 != p_old.work_slices@[l].id.0);
                            } else {
                                assert(p_new.work_slices@[l] == p_new.work_slices@.last());
                                if p_old.has_completed_id(p_new.work_slices@.last().id.0) {
                                    assert(false);
                                }
                                assert(p_old.work_slices@[k].id.0 != p_new.work_slices@.last().id.0);
                            }
                        }
                    }
                    lemma_wf_update_project(pre, post, idx as int, p_new);
                }
                Ok(())
            },
        }
    }

    /// Deletes the project with the given id: succeeds, recording
    /// `ProjectDeleted`, exactly when such a project exists, and
    /// changes nothing otherwise. Afterwards the project is gone and
    /// every lookup of a work slice it owned fails; other projects
    /// are untouched.
    pub fn delete_project(&mut self, id: ProjectId) -> (r: bool)
        requires
            old(self).wf(),
        ensures
            final(self).wf(),
            r <==> old(self).has_project(id.0),
            !r ==> same_state(*final(self), *old(self)),
            r ==> final(self).previous_project_id == old(self).previous_project_id && final(self).previous_work_slice_id == old(self).previous_work_slice_id && final(self).changes@
                == old(self).changes@.push((Change::ProjectDeleted { id: id.0 })) && exists|i: int|
                0 <= i < old(self).projects@.len() && (#[trigger] old(self).projects@[i]).id.0
                    == id.0 && final(self).projects@ == old(self).projects@.remove(i),
            r ==> !final(self).has_project(id.0),
            r ==> (forall|w: u64|
                old(self).slice_in_project(id.0, w) ==> !(#[trigger] final(self).owns(w))),
    {
        let idx_opt = self.find_project_index(id);
        let idx = match idx_opt {
            Some(idx) => idx,
            None => {
                return false;
            },
        };
        self.changes.push(Change::ProjectDeleted { id: id.inner() });
        let removed = self.projects.remove(idx);
        proof {
            let pre = *old(self);
            let post = *self;
            lemma_wf_remove_project(pre, post, idx as int);
            assert(pre.projects@[idx as int].id.0 == id.0 && post.projects@ == pre.projects@.remove(
                idx as int,
            ));
            assert forall|i: int|
                0 <= i < post.projects@.len() implies (#[trigger] post.projects@[i]).id.0
                != id.0 by {
                let k: int = if i < idx as int {
                    i
                } else {
                    i + 1
                };
                assert(post.projects@[i] == pre.projects@[k]);
                assert(k != idx ==> pre.projects@[k].id.0 != pre.projects@[idx as int].id.0);
            }
            assert forall|w: u64|
                pre.slice_in_project(id.0, w) implies !(#[trigger] post.owns(w)) by {
                if post.owns(w) {
                    let i = choose|i: int|
                        0 <= i < post.projects@.len() && (
                        #[trigger] post.projects@[i]).contains_slice_id(w);
                    let k: int = if i < idx as int {
                        i
                    } else {
                        i + 1
                    };
                    assert(post.projects@[i] == pre.projects@[k]);
                    let j = choose|j: int|
                        0 <= j < pre.projects@.len() && (#[trigger] pre.projects@[j]).id.0 == id.0
                            && pre.projects@[j].contains_slice_id(w);
                    assert(j == idx as int);
                    assert(pre.projects@[k].contains_slice_id(w));
                    assert(pre.projects@[idx as int].contains_slice_id(w));
                    assert(false);
                }
            }
        }
        true
    }

    /// Deletes the work slice with the given id from the addressed
    /// project and returns it: fails with `ProjectNotFound` when no
    /// project has the id, and with `WorkSliceNotFound` when the
    /// project holds no such slice; on failure nothing changes. On
    /// success `WorkSliceDeleted` is recorded and no project holds
    /// the slice any more.
    pub fn delete_work_slice_from_project(
        &mut self,
        project_id: ProjectId,
        work_slice_id: WorkSliceId,
    ) -> (r: Result<WorkSlice, NotFoundError>)
        requires
            old(self).wf(),
        ensures
            final(self).wf(),
            r is Err ==> same_state(*final(self), *old(self)),
            !old(self).has_project(project_id.0) <==> r == Err::<WorkSlice, NotFoundError>(
                NotFoundError::ProjectNotFound,
            ),
            old(self).has_project(project_id.0) && !old(self).slice_in_project(
                project_id.0,
                work_slice_id.0,
            ) <==> r == Err::<WorkSlice, NotFoundError>(NotFoundError::WorkSliceNotFound),
            old(self).slice_in_project(project_id.0, work_slice_id.0) <==> r is Ok,
            r matches Ok(w) ==> w.spec_id() == work_slice_id,
            r is Ok ==> final(self).previous_project_id == old(self).previous_project_id && final(self).previous_work_slice_id == old(self).previous_work_slice_id && final(self).changes@
                == old(self).changes@.push(
                (Change::WorkSliceDeleted {
                    project_id: project_id.0,
                    work_slice_id: work_slice_id.0,
                }),
            ) && !final(self).owns(work_slice_id.0) && final(self).projects@.len() == old(self).projects@.len() && (forall|i: int|
                0 <= i < old(self).projects@.len() && (#[trigger] old(self).projects@[i]).id.0
                    != project_id.0 ==> final(self).projects@[i] == old(self).projects@[i]) && (
            forall|i: int, w2: u64|
                0 <= i < old(self).projects@.len() && (#[trigger] old(self).projects@[i]).id.0
                    == project_id.0 ==> ((#[trigger] final(self).projects@[i].contains_slice_id(
                    w2,
                )) <==> old(self).projects@[i].contains_slice_id(w2) && w2 != work_slice_id.0)),
    {
        let idx_opt = self.find_project_index(project_id);
        let idx = match idx_opt {
            Some(idx) => idx,
            None => {
                return Err(NotFoundError::ProjectNotFound);
            },
        };
        let mut p = self.projects.remove(idx);
        let deleted = p.delete_work_slice(work_slice_id);
        self.projects.insert(idx, p);
        let w = match deleted {
            Ok(w) => w,
            Err(_) => {
                proof {
                    assert(self.projects@ =~= old(self).projects@);
                    assert(!old(self).slice_in_project(project_id.0, work_slice_id.0)) by {
                        if old(self).slice_in_project(project_id.0, work_slice_id.0) {
                            let j = choose|j: int|
                                0 <= j < old(self).projects@.len() && (#[trigger] old(self).projects@[j]).id.0 == project_id.0 && old(self).projects@[j].contains_slice_id(work_slice_id.0);
                            assert(j == idx as int);
                            assert(false);
                        }
                    }
                }
                return Err(NotFoundError::WorkSliceNotFound);
            },
        };
        self.changes.push(
            Change::WorkSliceDeleted {
                project_id: project_id.inner(),
                work_slice_id: work_slice_id.inner(),
            },
        );
        proof {
            let pre = *old(self);
            let post = *self;
            let p_old = pre.projects@[idx as int];
            let p_new = post.projects@[idx as int];
            assert(post.projects@ =~= pre.projects@.update(idx as int, p_new));
            assert(p_old.wf());
            assert(p_old.slice_ids_distinct());
            assert(pre.slice_in_project(project_id.0, work_slice_id.0)) by {
                assert(p_old.contains_slice_id(work_slice_id.0));
            }
            assert forall|w2: u64| #[trigger]
                p_new.contains_slice_id(w2) implies p_old.contains_slice_id(w2) && w2
                != work_slice_id.0 by {
                match deleted {
                    Ok(WorkSlice::Incomplete(s)) => {
                        if p_new.has_completed_id(w2) {
                            assert(p_old.has_completed_id(w2));
                            if w2 == work_slice_id.0 {
                                assert(p_old.has_current_id(w2));
                                assert(false);
                            }
                        }
                    },
                    Ok(WorkSlice::Complete(c)) => {
                        let i = choose|i: int|
                            0 <= i < p_old.work_slices@.len() && p_old.work_slices@[i] == c
                                && p_new.work_slices@ == p_old.work_slices@.remove(i);
                        if p_new.has_completed_id(w2) {
                            let k = choose|k: int|
                                0 <= k < p_new.work_slices@.len() && (
                                #[trigger] p_new.work_slices@[k]).id.0 == w2;
                            let k2: int = if k < i {
                                k
                            } else {
                                k + 1
                            };
                            assert(p_new.work_slices@[k] == p_old.work_slices@[k2]);
                            assert(p_old.has_completed_id(w2));
                            if w2 == work_slice_id.0 {
                                assert(p_old.work_slices@[i].id.0 == work_slice_id.0);
                                assert(k2 != i);
                                assert(false);
                            }
                        } else {
                            assert(p_new.has_current_id(w2));
                            assert(p_old.has_current_id(w2));
                            if w2 == work_slice_id.0 {
                                assert(p_old.has_completed_id(w2)) by {
                                    assert(p_old.work_slices@[i].id.0 == work_slice_id.0);
                                }
                                assert(false);
                            }
                        }
                    },
                    Err(_) => {
                        assert(false);
                    },
                }
            }
            assert forall|w2: u64|
                p_old.contains_slice_id(w2) && w2 != work_slice_id.0 implies #[trigger]
                p_new.contains_slice_id(w2) by {
                match deleted {
                    Ok(WorkSlice::Incomplete(s)) => {
                        if p_old.has_completed_id(w2) {
                            assert(p_new.has_completed_id(w2));
                        } else {
                            assert(p_old.has_current_id(w2));
                            assert(w2 == work_slice_id.0);
                            assert(false);
                        }
                    },
                    Ok(WorkSlice::Complete(c)) => {
                        let i = choose|i: int|
                            0 <= i < p_old.work_slices@.len() && p_old.work_slices@[i] == c
                                && p_new.work_slices@ == p_old.work_slices@.remove(i);
                        if p_old.has_completed_id(w2) {
                            let k = choose|k: int|
                                0 <= k < p_old.work_slices@.len() && (
                                #[trigger] p_old.work_slices@[k]).id.0 == w2;
                            assert(k != i) by {
                                assert(p_old.work_slices@[i].id.0 == work_slice_id.0);
                            }
                            let k2: int = if k < i {
                                k
                            } else {
                                k - 1
                            };
                            assert(p_new.work_slices@[k2] == p_old.work_slices@[k]);
                            assert(p_new.has_completed_id(w2));
                        } else {
                            assert(p_new.has_current_id(w2));
                        }
                    },
                    Err(_) => {
                        assert(false);
                    },
                }
            }
            assert(p_new.wf()) by {
                match deleted {
                    Ok(WorkSlice::Complete(c)) => {
                        let i = choose|i: int|
                            0 <= i < p_old.work_slices@.len() && p_old.work_slices@[i] == c
                                && p_new.work_slices@ == p_old.work_slices@.remove(i);
                        assert forall|k: int| 0 <= k < p_new.work_slices@.len() implies (
                        #[trigger] p_new.work_slices@[k]).wf() by {
                            let k2: int = if k < i {
                                k
                            } else {
                                k + 1
                            };
                            assert(p_new.work_slices@[k] == p_old.work_slices@[k2]);
                            assert(p_old.work_slices@[k2].wf());
                        }
                    },
                    _ => {},
                }
            }
            assert(p_new.slice_ids_distinct()) by {
                match deleted {
                    Ok(WorkSlice::Incomplete(s)) => {},
                    Ok(WorkSlice::Complete(c)) => {
                        let i = choose|i: int|
                            0 <= i < p_old.work_slices@.len() && p_old.work_slices@[i] == c
                                && p_new.work_slices@ == p_old.work_slices@.remove(i);
                        assert forall|k: int, l: int|
                            0 <= k < l < p_new.work_slices@.len() implies (
                        #[trigger] p_new.work_slices@[k]).id.0 != (
                        #[trigger] p_new.work_slices@[l]).id.0 by {
                            let k2: int = if k < i {
                                k
                            } else {
                                k + 1
                            };
                            let l2: int = if l < i {
                                l
                            } else {
                                l + 1
                            };
                            assert(p_new.work_slices@[k] == p_old.work_slices@[k2]);
                            assert(p_new.work_slices@[l] == p_old.work_slices@[l2]);
                            assert(p_old.work_slices@[k2].id.0 != p_old.work_slices@[l2].id.0);
                        }
                        match p_new.current_slice {
                            Some(cur) => {
                                if p_new.has_completed_id(cur.id.0) {
                                    assert(p_old.has_completed_id(cur.id.0));
                                    assert(false);
                                }
                            },
                            None => {},
                        }
                    },
                    Err(_) => {
                        assert(false);
                    },
                }
            }
            lemma_wf_update_project(pre, post, idx as int, p_new);
            assert(!post.owns(work_slice_id.0)) by {
                if post.owns(work_slice_id.0) {
                    let i = choose|i: int|
                        0 <= i < post.projects@.len() && (
                        #[trigger] post.projects@[i]).contains_slice_id(work_slice_id.0);
                    if i == idx as int {
                        assert(false);
                    } else {
                        assert(pre.projects@[i].contains_slice_id(work_slice_id.0));
                        assert(p_old.contains_slice_id(work_slice_id.0));
                        assert(false);
                    }
                }
            }
        }
        Ok(w)
    }

    /// Deletes the work slice with the given id from whichever
    /// project holds it: succeeds, recording `WorkSliceDeleted`
    /// against the owning project, exactly when some project holds
    /// the slice, and changes nothing otherwise. On success only the
    /// named slice goes: the project count is kept, every project not
    /// holding the slice is untouched, and the owning project keeps
    /// exactly its slices with other ids.
    pub fn delete_work_slice(&mut self, id: WorkSliceId) -> (r: bool)
        requires
            old(self).wf(),
        ensures
            final(self).wf(),
            r <==> old(self).owns(id.0),
            !r ==> same_state(*final(self), *old(self)),
            r ==> !final(self).owns(id.0) && final(self).previous_project_id == old(self).previous_project_id && final(self).previous_work_slice_id == old(self).previous_work_slice_id && exists|pid: u64|
                #![trigger old(self).slice_in_project(pid, id.0)]
                old(self).slice_in_project(pid, id.0) && final(self).changes@ == old(self).changes@.push((Change::WorkSliceDeleted { project_id: pid, work_slice_id: id.0 })),
            r ==> final(self).projects@.len() == old(self).projects@.len(),
            r ==> (forall|i: int|
                0 <= i < old(self).projects@.len() && !((#[trigger] old(self).projects@[i]).contains_slice_id(id.0)) ==> final(self).projects@[i] == old(self).projects@[i]),
            r ==> (forall|i: int, w2: u64|
                0 <= i < old(self).projects@.len() && (#[trigger] old(self).projects@[i]).contains_slice_id(id.0) ==> ((#[trigger] final(self).projects@[i].contains_slice_id(w2)) <==> old(self).projects@[i].contains_slice_id(w2) && w2 != id.0)),
    {
        let owner = self.project_id_from_work_slice(id);
        match owner {
            Some(project_id) => {
                let deleted = self.delete_work_slice_from_project(project_id, id);
                proof {
                    assert(deleted is Ok);
                    let pre = *old(self);
                    let post = *self;
                    let j = choose|j: int|
                        0 <= j < pre.projects@.len() && (#[trigger] pre.projects@[j]).id.0
                            == project_id.0 && pre.projects@[j].contains_slice_id(id.0);
                    assert forall|i: int|
                        0 <= i < pre.projects@.len() && !((
                    #[trigger] pre.projects@[i]).contains_slice_id(id.0)) implies post.projects@[i]
                        == pre.projects@[i] by {
                        if pre.projects@[i].id.0 == project_id.0 {
                            if i != j {
                                if i < j {
                                    assert(pre.projects@[i].id.0 != pre.projects@[j].id.0);
                                } else {
                                    assert(pre.projects@[j].id.0 != pre.projects@[i].id.0);
                                }
                            }
                            assert(pre.projects@[i].contains_slice_id(id.0));
                            assert(false);
                        }
                    }
                    assert forall|i: int, w2: u64|
                        0 <= i < pre.projects@.len() && (
                    #[trigger] pre.projects@[i]).contains_slice_id(id.0) implies ((
                    #[trigger] post.projects@[i].contains_slice_id(w2))
                        <==> pre.projects@[i].contains_slice_id(w2) && w2 != id.0) by {
                        if i != j {
                            assert(!(pre.projects@[i].contains_slice_id(id.0)
                                && pre.projects@[j].contains_slice_id(id.0)));
                            assert(false);
                        }
                        assert(pre.projects@[i].id.0 == project_id.0);
                    }
                }
                true
            },
            None => false,
        }
    }

    /// The ids of all projects, in the order the projects are held.
    pub fn all_project_ids(&self) -> (r: Vec<ProjectId>)
        ensures
            r@.len() == self.projects@.len(),
            forall|i: int| 0 <= i < r@.len() ==> (#[trigger] r@[i]) == self.projects@[i].id,
    {
        let mut out: Vec<ProjectId> = Vec::new();
        let mut i: usize = 0;
        while i < self.projects.len()
            invariant
                0 <= i <= self.projects@.len(),
                out@.len() == i,
                forall|j: int| 0 <= j < i ==> (#[trigger] out@[j]) == self.projects@[j].id,
            decreases self.projects@.len() - i,
        {
            out.push(self.projects[i].id());
            i = i + 1;
        }
        out
    }

    /// All projects, in the order they are held.
    pub fn all_projects(&self) -> (r: &Vec<Project>)
        ensures
            r == &self.projects,
    {
        &self.projects
    }

    /// The project with the given id: found exactly when such a
    /// project exists (it may have been deleted).
    pub fn project_from_id(&self, id: ProjectId) -> (r: Option<&Project>)
        ensures
            self.has_project(id.0) <==> r is Some,
            r matches Some(p) ==> p.id == id && exists|i: int|
                0 <= i < self.projects@.len() && (#[trigger] self.projects@[i]) == *p,
    {
        let mut i: usize = 0;
        while i < self.projects.len()
            invariant
                0 <= i <= self.projects@.len(),
                forall|j: int| 0 <= j < i ==> (#[trigger] self.projects@[j]).id.0 != id.0,
            decreases self.projects@.len() - i,
        {
            if self.projects[i].id().inner() == id.inner() {
                return Some(&self.projects[i]);
            }
            i = i + 1;
        }
        None
    }

    /// Whether a project with the given id exists (false once it has
    /// been deleted).
    pub fn project_exists(&self, id: ProjectId) -> (r: bool)
        ensures
            r <==> self.has_project(id.0),
    {
        let mut i: usize = 0;
        while i < self.projects.len()
            invariant
                0 <= i <= self.projects@.len(),
                forall|j: int| 0 <= j < i ==> (#[trigger] self.projects@[j]).id.0 != id.0,
            decreases self.projects@.len() - i,
        {
            if self.projects[i].id().inner() == id.inner() {
                return true;
            }
            i = i + 1;
        }
        false
    }

    /// The id of the project holding the work slice with the given id:
    /// found exactly when some project, completed slices and open one
    /// alike, holds it.
    pub fn project_id_from_work_slice(&self, work_slice_id: WorkSliceId) -> (r: Option<ProjectId>)
        ensures
            self.owns(work_slice_id.0) <==> r is Some,
            r matches Some(pid) ==> self.slice_in_project(pid.0, work_slice_id.0),
    {
        let mut i: usize = 0;
        while i < self.projects.len()
            invariant
                0 <= i <= self.projects@.len(),
                forall|j: int|
                    0 <= j < i ==> !((#[trigger] self.projects@[j]).contains_slice_id(
                        work_slice_id.0,
                    )),
            decreases self.projects@.len() - i,
        {
            if self.projects[i].contains_work_slice_id(work_slice_id) {
                return Some(self.projects[i].id());
            }
            i = i + 1;
        }
        None
    }

    /// The work slice with the given id, complete or incomplete, from
    /// whichever project holds it: found exactly when one does.
    pub fn work_slice_from_id(&self, id: WorkSliceId) -> (r: Option<WorkSlice>)
        ensures
            self.owns(id.0) <==> r is Some,
            r matches Some(w) ==> w.spec_id() == id,
    {
        let mut i: usize = 0;
        while i < self.projects.len()
            invariant
                0 <= i <= self.projects@.len(),
                forall|j: int|
                    0 <= j < i ==> !((#[trigger] self.projects@[j]).contains_slice_id(id.0)),
            decreases self.projects@.len() - i,
        {
            let found = self.projects[i].work_slice_from_id(id);
            match found {
                Some(w) => {
                    return Some(w);
                },
                None => {},
            }
            i = i + 1;
        }
        None
    }
}

/// Replacing one project by another that keeps its id, stays
/// well-formed, and introduces no slice id that is either already held
/// elsewhere or above the new counter, preserves the state invariant.
proof fn lemma_wf_update_project(pre: State, post: State, idx: int, p_new: Project)
    requires
        pre.wf(),
        0 <= idx < pre.projects@.len(),
        post.projects@ == pre.projects@.update(idx, p_new),
        post.previous_project_id == pre.previous_project_id,
        post.previous_work_slice_id >= pre.previous_work_slice_id,
        p_new.id == pre.projects@[idx].id,
        p_new.wf(),
        p_new.slice_ids_distinct(),
        forall|w: u64| #[trigger]
            p_new.contains_slice_id(w) ==> pre.projects@[idx].contains_slice_id(w) || w
                > pre.previous_work_slice_id,
        forall|w: u64| #[trigger] p_new.contains_slice_id(w) ==> w <= post.previous_work_slice_id,
    ensures
        post.wf(),
{
    assert forall|i: int, j: int, w: u64|
        0 <= i < post.projects@.len() && 0 <= j < post.projects@.len() && i != j implies !((
    #[trigger] post.projects@[i].contains_slice_id(w)) && (
    #[trigger] post.projects@[j].contains_slice_id(w))) by {
        if post.projects@[i].contains_slice_id(w) && post.projects@[j].contains_slice_id(w) {
            if i == idx {
                assert(pre.projects@[j].contains_slice_id(w));
                if pre.projects@[idx].contains_slice_id(w) {
                    assert(false);
                } else {
                    assert(w > pre.previous_work_slice_id);
                    assert(false);
                }
            } else if j == idx {
                assert(pre.projects@[i].contains_slice_id(w));
                if pre.projects@[idx].contains_slice_id(w) {
                    assert(false);
                } else {
                    assert(w > pre.previous_work_slice_id);
                    assert(false);
                }
            } else {
                assert(pre.projects@[i].contains_slice_id(w));
                assert(pre.projects@[j].contains_slice_id(w));
                assert(false);
            }
        }
    }
    assert forall|i: int, w: u64|
        0 <= i < post.projects@.len() && (#[trigger] post.projects@[i].contains_slice_id(w))
        implies w <= post.previous_work_slice_id by {
        if i != idx {
            assert(pre.projects@[i].contains_slice_id(w));
        }
    }
}

/// Removing one project whole, with the counters kept, preserves the
/// state invariant.
proof fn lemma_wf_remove_project(pre: State, post: State, idx: int)
    requires
        pre.wf(),
        0 <= idx < pre.projects@.len(),
        post.projects@ == pre.projects@.remove(idx),
        post.previous_project_id == pre.previous_project_id,
        post.previous_work_slice_id == pre.previous_work_slice_id,
    ensures
        post.wf(),
{
    assert forall|i: int| 0 <= i < post.projects@.len() implies ((#[trigger] post.projects@[i]).wf()
        && post.projects@[i].slice_ids_distinct() && post.projects@[i].id.0
        <= post.previous_project_id) by {
        let k: int = if i < idx {
            i
        } else {
            i + 1
        };
        assert(post.projects@[i] == pre.projects@[k]);
        assert(pre.projects@[k].wf());
        assert(pre.projects@[k].slice_ids_distinct());
    }
    assert forall|i: int, j: int| 0 <= i < j < post.projects@.len() implies (
    #[trigger] post.projects@[i]).id.0 != (#[trigger] post.projects@[j]).id.0 by {
        let ki: int = if i < idx {
            i
        } else {
            i + 1
        };
        let kj: int = if j < idx {
            j
        } else {
            j + 1
        };
        assert(post.projects@[i] == pre.projects@[ki]);
        assert(post.projects@[j] == pre.projects@[kj]);
        assert(pre.projects@[ki].id.0 != pre.projects@[kj].id.0);
    }
    assert forall|i: int, j: int, w: u64|
        0 <= i < post.projects@.len() && 0 <= j < post.projects@.len() && i != j implies !((
    #[trigger] post.projects@[i].contains_slice_id(w)) && (
    #[trigger] post.projects@[j].contains_slice_id(w))) by {
        let ki: int = if i < idx {
            i
        } else {
            i + 1
        };
        let kj: int = if j < idx {
            j
        } else {
            j + 1
        };
        assert(post.projects@[i] == pre.projects@[ki]);
        assert(post.projects@[j] == pre.projects@[kj]);
        if post.projects@[i].contains_slice_id(w) && post.projects@[j].contains_slice_id(w) {
            assert(pre.projects@[ki].contains_slice_id(w));
            assert(pre.projects@[kj].contains_slice_id(w));
            assert(false);
        }
    }
    assert forall|i: int, w: u64|
        0 <= i < post.projects@.len() && (#[trigger] post.projects@[i].contains_slice_id(w))
        implies w <= post.previous_work_slice_id by {
        let k: int = if i < idx {
            i
        } else {
            i + 1
        };
        assert(post.projects@[i] == pre.projects@[k]);
        assert(pre.projects@[k].contains_slice_id(w));
    }
}

} // verus!
