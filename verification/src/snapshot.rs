//! The persisted snapshot format: plain per-project records, untrusted
//! on the way in. Loading validates every record and every invariant
//! before a state is constructed — a state is never partially loaded —
//! and exporting produces records that load back to the same projects.

use vstd::prelude::*;

use crate::errors::DataToCompleteWorkSliceError;
use crate::errors::StateInitError;
use crate::errors::DataToProjectError;
use crate::project::Project;
use crate::project::ProjectId;
use crate::work_slice::CompleteWorkSlice;
use crate::work_slice::IncompleteWorkSlice;
use crate::work_slice::WorkSliceId;

verus! {

/// A persisted open work slice: start time (milliseconds since the
/// Unix epoch), payment policy, and raw id.
#[derive(Clone, Copy, Debug)]
pub struct IncompleteWorkSliceData {
    pub start: i64,
    pub payment: crate::money::Payment,
    pub id: u64,
}

/// A persisted completed work slice: start and end times
/// (milliseconds since the Unix epoch), payment policy, and raw id.
#[derive(Clone, Copy, Debug)]
pub struct CompleteWorkSliceData {
    pub start: i64,
    pub end: i64,
    pub payment: crate::money::Payment,
    pub id: u64,
}

/// A persisted project: name, description, raw id, completed slices
/// in order, and the open slice if there was one.
#[derive(Clone, Debug)]
pub struct ProjectData {
    pub name: String,
    pub description: String,
    pub work_slices: Vec<CompleteWorkSliceData>,
    pub current_slice: Option<IncompleteWorkSliceData>,
    pub id: u64,
}

/// The completed work slice described by a record.
pub open spec fn spec_complete_slice_of(d: CompleteWorkSliceData) -> CompleteWorkSlice {
    CompleteWorkSlice { start: d.start, end: d.end, payment: d.payment, id: WorkSliceId(d.id) }
}

/// The open work slice described by a record.
pub open spec fn spec_incomplete_slice_of(d: IncompleteWorkSliceData) -> IncompleteWorkSlice {
    IncompleteWorkSlice { start: d.start, payment: d.payment, id: WorkSliceId(d.id) }
}

/// A completed-slice record is acceptable at load time `now` when its
/// start is not in the future and its end is strictly after its start.
pub open spec fn complete_data_valid(d: CompleteWorkSliceData, now: i64) -> bool {
    d.start <= now && d.end > d.start
}

/// An open-slice record is acceptable at load time `now` when its
/// start is not in the future.
pub open spec fn incomplete_data_valid(d: IncompleteWorkSliceData, now: i64) -> bool {
    d.start <= now
}

/// A project record is acceptable at load time `now` when every one
/// of its slice records is.
pub open spec fn project_data_valid(p: ProjectData, now: i64) -> bool {
    &&& forall|i: int|
        0 <= i < p.work_slices@.len() ==> complete_data_valid(#[trigger] p.work_slices@[i], now)
    &&& match p.current_slice {
        Some(c) => incomplete_data_valid(c, now),
        None => true,
    }
}

/// Whether a project record holds a slice record, completed or open,
/// with raw id `w`.
pub open spec fn data_contains_ws(p: ProjectData, w: u64) -> bool {
    (exists|i: int| 0 <= i < p.work_slices@.len() && (#[trigger] p.work_slices@[i]).id == w)
        || (match p.current_slice {
        Some(c) => c.id == w,
        None => false,
    })
}

/// No two slice records of one project record, the open one included,
/// share an id.
pub open spec fn data_slice_ids_distinct(p: ProjectData) -> bool {
    &&& forall|i: int, j: int|
        0 <= i < j < p.work_slices@.len() ==> (#[trigger] p.work_slices@[i]).id != (
        #[trigger] p.work_slices@[j]).id
    &&& match p.current_slice {
        Some(c) => !(exists|i: int|
            0 <= i < p.work_slices@.len() && (#[trigger] p.work_slices@[i]).id == c.id),
        None => true,
    }
}

/// A whole snapshot is acceptable at load time `now` when every
/// record is valid, project ids are pairwise distinct, and work-slice
/// ids are pairwise distinct across all records combined.
pub open spec fn snapshot_valid(data: Seq<ProjectData>, now: i64) -> bool {
    &&& forall|i: int| 0 <= i < data.len() ==> project_data_valid(#[trigger] data[i], now)
    &&& forall|i: int, j: int| 0 <= i < j < data.len() ==> (#[trigger] data[i]).id != (
    #[trigger] data[j]).id
    &&& forall|i: int| 0 <= i < data.len() ==> data_slice_ids_distinct(#[trigger] data[i])
    &&& forall|i: int, j: int, w: u64|
        0 <= i < data.len() && 0 <= j < data.len() && i != j ==> !((#[trigger] data_contains_ws(
            data[i],
            w,
        )) && (#[trigger] data_contains_ws(data[j], w)))
}

/// Whether a project holds exactly what a record describes: the same
/// name, description and id, the same completed slices in the same
/// order, and the same open slice or none.
pub open spec fn project_matches_data(p: Project, d: ProjectData) -> bool {
    &&& p.name@ == d.name@
    &&& p.description@ == d.description@
    &&& p.id.0 == d.id
    &&& p.work_slices@.len() == d.work_slices@.len()
    &&& forall|i: int|
        0 <= i < d.work_slices@.len() ==> p.work_slices@[i] == spec_complete_slice_of(
            #[trigger] d.work_slices@[i],
        )
    &&& match (p.current_slice, d.current_slice) {
        (Some(s), Some(c)) => s == spec_incomplete_slice_of(c),
        (None, None) => true,
        _ => false,
    }
}

/// A project and a record that match hold the same slice ids, and the
/// one's slice ids are internally distinct exactly when the other's
/// are.
pub proof fn lemma_matches_preserves_ids(p: Project, d: ProjectData)
    requires
        project_matches_data(p, d),
    ensures
        forall|w: u64| #[trigger] p.contains_slice_id(w) <==> data_contains_ws(d, w),
        p.slice_ids_distinct() <==> data_slice_ids_distinct(d),
{
    assert forall|w: u64| #[trigger] p.contains_slice_id(w) <==> data_contains_ws(d, w) by {
        if p.has_completed_id(w) {
            let i = choose|i: int|
                0 <= i < p.work_slices@.len() && (#[trigger] p.work_slices@[i]).id.0 == w;
            assert(d.work_slices@[i].id == w);
            assert(data_contains_ws(d, w));
        }
        if exists|i: int| 0 <= i < d.work_slices@.len() && (#[trigger] d.work_slices@[i]).id == w {
            let i = choose|i: int|
                0 <= i < d.work_slices@.len() && (#[trigger] d.work_slices@[i]).id == w;
            assert(p.work_slices@[i].id.0 == w);
            assert(p.has_completed_id(w));
        }
    }
    if data_slice_ids_distinct(d) {
        assert forall|i: int, j: int| 0 <= i < j < p.work_slices@.len() implies (
        #[trigger] p.work_slices@[i]).id.0 != (#[trigger] p.work_slices@[j]).id.0 by {
            assert(d.work_slices@[i].id != d.work_slices@[j].id);
        }
        match p.current_slice {
            Some(s) => {
                if p.has_completed_id(s.id.0) {
                    let i = choose|i: int|
                        0 <= i < p.work_slices@.len() && (#[trigger] p.work_slices@[i]).id.0
                            == s.id.0;
                    assert(d.work_slices@[i].id == s.id.0);
                    assert(false);
                }
            },
            None => {},
        }
        assert(p.slice_ids_distinct());
    }
    if p.slice_ids_distinct() {
        assert forall|i: int, j: int| 0 <= i < j < d.work_slices@.len() implies (
        #[trigger] d.work_slices@[i]).id != (#[trigger] d.work_slices@[j]).id by {
            assert(p.work_slices@[i].id.0 != p.work_slices@[j].id.0);
        }
        match d.current_slice {
            Some(c) => {
                if exists|i: int|
                    0 <= i < d.work_slices@.len() && (#[trigger] d.work_slices@[i]).id == c.id {
                    let i = choose|i: int|
                        0 <= i < d.work_slices@.len() && (#[trigger] d.work_slices@[i]).id == c.id;
                    assert(p.work_slices@[i].id.0 == c.id);
                    assert(p.has_completed_id(c.id));
                    assert(false);
                }
            },
            None => {},
        }
        assert(data_slice_ids_distinct(d));
    }
}

impl CompleteWorkSliceData {
    /// Reconstructs the completed slice this record describes, judged
    /// against the load-time clock reading `now`: fails exactly when
    /// the record is invalid, naming what is wrong.
    pub fn into_work_slice(self, now: i64) -> (r: Result<
        CompleteWorkSlice,
        DataToCompleteWorkSliceError,
    >)
        ensures
            complete_data_valid(self, now) <==> r is Ok,
            r matches Ok(c) ==> c == spec_complete_slice_of(self),
            self.start > now ==> r == Err::<CompleteWorkSlice, DataToCompleteWorkSliceError>(
                DataToCompleteWorkSliceError::StartTimeAfterNow,
            ),
            self.start <= now && self.end <= self.start ==> r == Err::<
                CompleteWorkSlice,
                DataToCompleteWorkSliceError,
            >(DataToCompleteWorkSliceError::EndTimeBeforeStart),
    {
        match IncompleteWorkSlice::new_at(self.start, self.payment, WorkSliceId::new(self.id), now) {
            Some(incomplete) => match CompleteWorkSlice::new(incomplete, self.end) {
                Ok(complete) => Ok(complete),
                Err(_) => Err(DataToCompleteWorkSliceError::EndTimeBeforeStart),
            },
            None => Err(DataToCompleteWorkSliceError::StartTimeAfterNow),
        }
    }
}

impl IncompleteWorkSliceData {
    /// Reconstructs the open slice this record describes, judged
    /// against the load-time clock reading `now`: fails exactly when
    /// the recorded start is in the future.
    pub fn into_work_slice(self, now: i64) -> (r: Option<IncompleteWorkSlice>)
        ensures
            incomplete_data_valid(self, now) <==> r is Some,
            r matches Some(s) ==> s == spec_incomplete_slice_of(self),
    {
        IncompleteWorkSlice::new_at(self.start, self.payment, WorkSliceId::new(self.id), now)
    }
}

impl ProjectData {
    /// Reconstructs the project this record describes, judged against
    /// the load-time clock reading `now`: fails exactly when some
    /// slice record is invalid, the completed ones checked first.
    #[verifier::loop_isolation(false)]
    pub fn into_project(self, now: i64) -> (r: Result<Project, DataToProjectError>)
        ensures
            project_data_valid(self, now) <==> r is Ok,
            r matches Ok(p) ==> project_matches_data(p, self) && p.wf(),
            r matches Err(e) ==> (e matches DataToProjectError::CompleteWorkSlice(_) ==> exists|
                i: int,
            |
                0 <= i < self.work_slices@.len() && !complete_data_valid(
                    #[trigger] self.work_slices@[i],
                    now,
                )),
            r matches Err(e) ==> (e == DataToProjectError::IncompleteWorkSlice ==> (forall|i: int|
                0 <= i < self.work_slices@.len() ==> complete_data_valid(
                    #[trigger] self.work_slices@[i],
                    now,
                )) && (self.current_slice matches Some(c) && !incomplete_data_valid(c, now))),
    {
        let ProjectData { name, description, work_slices, current_slice, id } = self;
        let mut slices: Vec<CompleteWorkSlice> = Vec::new();
        let mut i: usize = 0;
        while i < work_slices.len()
            invariant
                0 <= i <= work_slices@.len(),
                slices@.len() == i,
                forall|j: int|
                    0 <= j < i ==> complete_data_valid(#[trigger] work_slices@[j], now)
                        && slices@[j] == spec_complete_slice_of(work_slices@[j]),
            decreases work_slices@.len() - i,
        {
            match work_slices[i].into_work_slice(now) {
                Ok(c) => {
                    slices.push(c);
                },
                Err(e) => {
                    return Err(DataToProjectError::CompleteWorkSlice(e));
                },
            }
            i = i + 1;
        }
        let current = match current_slice {
            None => None,
            Some(c) => match c.into_work_slice(now) {
                Some(s) => Some(s),
                None => {
                    return Err(DataToProjectError::IncompleteWorkSlice);
                },
            },
        };
        proof {
            assert forall|j: int| 0 <= j < slices@.len() implies (#[trigger] slices@[j]).wf() by {
                assert(complete_data_valid(work_slices@[j], now));
            }
        }
        let p = Project::new_with_slices(name, description, ProjectId::new(id), slices, current);
        Ok(p)
    }
}

impl Project {
    /// The snapshot record describing this project: the same name,
    /// description, id and slices, as plain values.
    #[verifier::loop_isolation(false)]
    pub fn to_data(&self) -> (r: ProjectData)
        ensures
            project_matches_data(*self, r),
    {
        let mut ws: Vec<CompleteWorkSliceData> = Vec::new();
        let mut i: usize = 0;
        while i < self.work_slices.len()
            invariant
                0 <= i <= self.work_slices@.len(),
                ws@.len() == i,
                forall|j: int|
                    0 <= j < i ==> self.work_slices@[j] == spec_complete_slice_of(
                        #[trigger] ws@[j],
                    ),
            decreases self.work_slices@.len() - i,
        {
            let s = &self.work_slices[i];
            ws.push(
                CompleteWorkSliceData {
                    start: s.start(),
                    end: s.completion(),
                    payment: s.payment(),
                    id: s.id().inner(),
                },
            );
            i = i + 1;
        }
        let current = match self.current_work_slice() {
            Some(c) => Some(
                IncompleteWorkSliceData { start: c.start(), payment: c.payment(), id: c.id().inner() },
            ),
            None => None,
        };
        ProjectData {
            name: self.name.clone(),
            description: self.description.clone(),
            work_slices: ws,
            current_slice: current,
            id: self.id().inner(),
        }
    }
}

/// Whether the projects' ids are pairwise distinct.
#[verifier::loop_isolation(false)]
fn project_ids_pairwise_distinct(projects: &Vec<Project>) -> (r: bool)
    ensures
        r <==> (forall|i: int, j: int|
            0 <= i < j < projects@.len() ==> (#[trigger] projects@[i]).id.0 != (
            #[trigger] projects@[j]).id.0),
{
    let n = projects.len();
    let mut i: usize = 0;
    while i < n
        invariant
            0 <= i <= n,
            forall|a: int, b: int|
                0 <= a < b < n && a < i ==> (#[trigger] projects@[a]).id.0 != (
                #[trigger] projects@[b]).id.0,
        decreases n - i,
    {
        let mut j: usize = i + 1;
        while j < n
            invariant
                i < j <= n,
                forall|b: int|
                    i < b < j ==> (#[trigger] projects@[b]).id.0 != projects@[i as int].id.0,
            decreases n - j,
        {
            if projects[i].id().inner() == projects[j].id().inner() {
                return false;
            }
            j = j + 1;
        }
        i = i + 1;
    }
    true
}

/// Whether one project's slice ids, the open one included, are
/// pairwise distinct.
#[verifier::loop_isolation(false)]
fn slice_ids_internally_distinct(p: &Project) -> (r: bool)
    ensures
        r <==> p.slice_ids_distinct(),
{
    let m = p.work_slices.len();
    let mut k: usize = 0;
    while k < m
        invariant
            0 <= k <= m,
            forall|a: int, b: int|
                0 <= a < b < m && a < k ==> (#[trigger] p.work_slices@[a]).id.0 != (
                #[trigger] p.work_slices@[b]).id.0,
        decreases m - k,
    {
        let mut l: usize = k + 1;
        while l < m
            invariant
                k < l <= m,
                forall|b: int|
                    k < b < m && b < l ==> (#[trigger] p.work_slices@[b]).id.0 != p.work_slices@[
                        k as int].id.0,
            decreases m - l,
        {
            if p.work_slices[k].id().inner() == p.work_slices[l].id().inner() {
                return false;
            }
            l = l + 1;
        }
        k = k + 1;
    }
    match p.current_work_slice() {
        Some(c) => {
            let mut k2: usize = 0;
            while k2 < m
                invariant
                    0 <= k2 <= m,
                    forall|b: int| 0 <= b < k2 ==> (#[trigger] p.work_slices@[b]).id.0 != c.id.0,
                decreases m - k2,
            {
                if p.work_slices[k2].id().inner() == c.id.inner() {
                    proof {
                        assert(p.has_completed_id(c.id.0));
                    }
                    return false;
                }
                k2 = k2 + 1;
            }
        },
        None => {},
    }
    true
}

/// Whether two projects hold a work-slice id in common.
#[verifier::loop_isolation(false)]
fn shares_work_slice_id(a: &Project, b: &Project) -> (r: bool)
    ensures
        r <==> (exists|w: u64|
            #![trigger a.contains_slice_id(w), b.contains_slice_id(w)]
            a.contains_slice_id(w) && b.contains_slice_id(w)),
{
    let m = a.work_slices.len();
    let mut k: usize = 0;
    while k < m
        invariant
            0 <= k <= m,
            forall|j: int|
                0 <= j < k ==> !b.contains_slice_id((#[trigger] a.work_slices@[j]).id.0),
        decreases m - k,
    {
        if b.contains_work_slice_id(a.work_slices[k].id()) {
            proof {
                let w = a.work_slices@[k as int].id.0;
                assert(a.has_completed_id(w));
                assert(a.contains_slice_id(w) && b.contains_slice_id(w));
            }
            return true;
        }
        k = k + 1;
    }
    match a.current_work_slice() {
        Some(c) => {
            if b.contains_work_slice_id(c.id) {
                proof {
                    assert(a.has_current_id(c.id.0));
                    assert(a.contains_slice_id(c.id.0) && b.contains_slice_id(c.id.0));
                }
                return true;
            }
            proof {
                assert forall|w: u64| a.contains_slice_id(w) implies !b.contains_slice_id(w) by {
                    if a.has_completed_id(w) {
                        let j = choose|j: int|
                            0 <= j < a.work_slices@.len() && (#[trigger] a.work_slices@[j]).id.0
                                == w;
                        assert(!b.contains_slice_id(a.work_slices@[j].id.0));
                    }
                }
            }
        },
        None => {
            proof {
                assert forall|w: u64| a.contains_slice_id(w) implies !b.contains_slice_id(w) by {
                    if a.has_completed_id(w) {
                        let j = choose|j: int|
                            0 <= j < a.work_slices@.len() && (#[trigger] a.work_slices@[j]).id.0
                                == w;
                        assert(!b.contains_slice_id(a.work_slices@[j].id.0));
                    }
                }
            }
        },
    }
    false
}

/// Whether no two projects hold a work-slice id in common.
#[verifier::loop_isolation(false)]
fn no_shared_work_slice_ids(projects: &Vec<Project>) -> (r: bool)
    ensures
        r <==> (forall|i: int, j: int, w: u64|
            0 <= i < projects@.len() && 0 <= j < projects@.len() && i != j ==> !((
            #[trigger] projects@[i].contains_slice_id(w)) && (
            #[trigger] projects@[j].contains_slice_id(w)))),
{
    let n = projects.len();
    let mut i: usize = 0;
    while i < n
        invariant
            0 <= i <= n,
            forall|a: int, b: int, w: u64|
                0 <= a < b < n && a < i ==> !((#[trigger] projects@[a].contains_slice_id(w)) && (
                #[trigger] projects@[b].contains_slice_id(w))),
        decreases n - i,
    {
        let mut j: usize = i + 1;
        while j < n
            invariant
                i < j <= n,
                forall|b: int, w: u64|
                    i < b < j ==> !((#[trigger] projects@[i as int].contains_slice_id(w)) && (
                    #[trigger] projects@[b].contains_slice_id(w))),
            decreases n - j,
        {
            if shares_work_slice_id(&projects[i], &projects[j]) {
                return false;
            }
            j = j + 1;
        }
        i = i + 1;
    }
    proof {
        assert forall|i2: int, j2: int, w: u64|
            0 <= i2 < projects@.len() && 0 <= j2 < projects@.len() && i2 != j2 implies !((
        #[trigger] projects@[i2].contains_slice_id(w)) && (
        #[trigger] projects@[j2].contains_slice_id(w))) by {
            if i2 < j2 {
            } else {
                if projects@[i2].contains_slice_id(w) && projects@[j2].contains_slice_id(w) {
                    assert(!(projects@[j2].contains_slice_id(w)
                        && projects@[i2].contains_slice_id(w)));
                }
            }
        }
    }
    true
}

/// The largest project id among the projects, or zero if there are
/// none.
#[verifier::loop_isolation(false)]
fn max_project_id_of(projects: &Vec<Project>) -> (r: u64)
    ensures
        forall|i: int| 0 <= i < projects@.len() ==> (#[trigger] projects@[i]).id.0 <= r,
        r == 0 || exists|i: int|
            0 <= i < projects@.len() && (#[trigger] projects@[i]).id.0 == r,
{
    let mut m: u64 = 0;
    let mut i: usize = 0;
    while i < projects.len()
        invariant
            0 <= i <= projects@.len(),
            forall|j: int| 0 <= j < i ==> (#[trigger] projects@[j]).id.0 <= m,
            m == 0 || exists|j: int| 0 <= j < i && (#[trigger] projects@[j]).id.0 == m,
        decreases projects@.len() - i,
    {
        let pid = projects[i].id().inner();
        if pid > m {
            m = pid;
        }
        i = i + 1;
    }
    m
}

/// The largest work-slice id held by one project, or zero if it holds
/// none.
#[verifier::loop_isolation(false)]
fn max_work_slice_id_of_project(p: &Project) -> (r: u64)
    ensures
        forall|w: u64| #[trigger] p.contains_slice_id(w) ==> w <= r,
        r == 0 || p.contains_slice_id(r),
{
    let mut m: u64 = 0;
    let mut k: usize = 0;
    while k < p.work_slices.len()
        invariant
            0 <= k <= p.work_slices@.len(),
            forall|j: int| 0 <= j < k ==> (#[trigger] p.work_slices@[j]).id.0 <= m,
            m == 0 || exists|j: int| 0 <= j < k && (#[trigger] p.work_slices@[j]).id.0 == m,
        decreases p.work_slices@.len() - k,
    {
        let wid = p.work_slices[k].id().inner();
        if wid > m {
            m = wid;
        }
        k = k + 1;
    }
    match p.current_work_slice() {
        Some(c) => {
            let wid = c.id.inner();
            if wid > m {
                m = wid;
            }
        },
        None => {},
    }
    proof {
        assert forall|w: u64| #[trigger] p.contains_slice_id(w) implies w <= m by {
            if p.has_completed_id(w) {
                let j = choose|j: int|
                    0 <= j < p.work_slices@.len() && (#[trigger] p.work_slices@[j]).id.0 == w;
            }
        }
        if m != 0 {
            if p.has_completed_id(m) || p.has_current_id(m) {
            } else {
                assert(false);
            }
        }
    }
    m
}

/// The largest work-slice id held by any project, or zero if none is
/// held.
#[verifier::loop_isolation(false)]
fn max_work_slice_id_of(projects: &Vec<Project>) -> (r: u64)
    ensures
        forall|i: int, w: u64|
            0 <= i < projects@.len() && (#[trigger] projects@[i].contains_slice_id(w)) ==> w <= r,
        r == 0 || exists|i: int, w: u64|
            0 <= i < projects@.len() && (#[trigger] projects@[i].contains_slice_id(w)) && w == r,
{
    let mut m: u64 = 0;
    let mut i: usize = 0;
    while i < projects.len()
        invariant
            0 <= i <= projects@.len(),
            forall|j: int, w: u64|
                0 <= j < i && (#[trigger] projects@[j].contains_slice_id(w)) ==> w <= m,
            m == 0 || exists|j: int, w: u64|
                0 <= j < i && (#[trigger] projects@[j].contains_slice_id(w)) && w == m,
        decreases projects@.len() - i,
    {
        let pm = max_work_slice_id_of_project(&projects[i]);
        if pm > m {
            m = pm;
        }
        i = i + 1;
    }
    m
}

impl crate::state::State {
    /// Reconstructs a state from a persisted snapshot, judged against
    /// the load-time clock reading `now`. The snapshot is untrusted:
    /// loading succeeds exactly when every record is valid and all
    /// ids, of projects and of work slices alike, are pairwise
    /// distinct; otherwise the named load error comes back and no
    /// state is built. On success the id counters stand at the
    /// largest ids observed (zero if none), so ids issued later never
    /// collide with loaded ones.
    #[verifier::loop_isolation(false)]
    pub fn new_at(initial_data: Vec<ProjectData>, now: i64) -> (r: Result<
        crate::state::State,
        StateInitError,
    >)
        ensures
            snapshot_valid(initial_data@, now) <==> r is Ok,
            r matches Err(e) ==> (e matches StateInitError::ProjectLoadError(_) ==> exists|i: int|
                0 <= i < initial_data@.len() && !project_data_valid(
                    #[trigger] initial_data@[i],
                    now,
                )),
            (exists|i: int|
                0 <= i < initial_data@.len() && !project_data_valid(
                    #[trigger] initial_data@[i],
                    now,
                )) ==> r matches Err(StateInitError::ProjectLoadError(_)),
            (forall|i: int|
                0 <= i < initial_data@.len() ==> project_data_valid(
                    #[trigger] initial_data@[i],
                    now,
                )) && !(forall|i: int, j: int|
                0 <= i < j < initial_data@.len() ==> (#[trigger] initial_data@[i]).id != (
                #[trigger] initial_data@[j]).id) ==> r == Err::<
                crate::state::State,
                StateInitError,
            >(StateInitError::DuplicateProjectId),
            (forall|i: int|
                0 <= i < initial_data@.len() ==> project_data_valid(
                    #[trigger] initial_data@[i],
                    now,
                )) && (forall|i: int, j: int|
                0 <= i < j < initial_data@.len() ==> (#[trigger] initial_data@[i]).id != (
                #[trigger] initial_data@[j]).id) && !((forall|i: int|
                0 <= i < initial_data@.len() ==> data_slice_ids_distinct(
                    #[trigger] initial_data@[i],
                )) && (forall|i: int, j: int, w: u64|
                0 <= i < initial_data@.len() && 0 <= j < initial_data@.len() && i != j ==> !((
                #[trigger] data_contains_ws(initial_data@[i], w)) && (#[trigger] data_contains_ws(
                    initial_data@[j],
                    w,
                ))))) ==> r == Err::<crate::state::State, StateInitError>(
                StateInitError::DuplicateWorkSliceId,
            ),
            r == Err::<crate::state::State, StateInitError>(StateInitError::DuplicateProjectId)
                ==> !(forall|i: int, j: int|
                0 <= i < j < initial_data@.len() ==> (#[trigger] initial_data@[i]).id != (
                #[trigger] initial_data@[j]).id),
            r == Err::<crate::state::State, StateInitError>(StateInitError::DuplicateWorkSliceId)
                ==> !((forall|i: int|
                0 <= i < initial_data@.len() ==> data_slice_ids_distinct(
                    #[trigger] initial_data@[i],
                )) && (forall|i: int, j: int, w: u64|
                0 <= i < initial_data@.len() && 0 <= j < initial_data@.len() && i != j ==> !((
                #[trigger] data_contains_ws(initial_data@[i], w)) && (#[trigger] data_contains_ws(
                    initial_data@[j],
                    w,
                ))))),
            r matches Ok(s) ==> s.wf() && s.changes@.len() == 0 && s.projects@.len()
                == initial_data@.len() && (forall|i: int|
                0 <= i < initial_data@.len() ==> project_matches_data(
                    #[trigger] s.projects@[i],
                    initial_data@[i],
                )) && (forall|i: int|
                0 <= i < initial_data@.len() ==> (#[trigger] initial_data@[i]).id
                    <= s.previous_project_id) && (s.previous_project_id == 0 || exists|i: int|
                0 <= i < initial_data@.len() && (#[trigger] initial_data@[i]).id
                    == s.previous_project_id) && (forall|i: int, w: u64|
                0 <= i < initial_data@.len() && (#[trigger] data_contains_ws(
                    initial_data@[i],
                    w,
                )) ==> w <= s.previous_work_slice_id) && (s.previous_work_slice_id == 0 || exists|
                i: int,
                w: u64,
            |
                0 <= i < initial_data@.len() && (#[trigger] data_contains_ws(
                    initial_data@[i],
                    w,
                )) && w == s.previous_work_slice_id),
    {
        let ghost orig = initial_data@;
        let mut data = initial_data;
        let mut projects: Vec<Project> = Vec::new();
        while data.len() > 0
            invariant
                projects@.len() + data@.len() == orig.len(),
                data@ == orig.skip(projects@.len() as int),
                forall|j: int|
                    0 <= j < projects@.len() ==> project_data_valid(#[trigger] orig[j], now)
                        && project_matches_data(projects@[j], orig[j]) && projects@[j].wf(),
            decreases data@.len(),
        {
            let ghost k = projects@.len() as int;
            let d = data.remove(0);
            proof {
                assert(d == orig[k]);
                assert(data@ =~= orig.skip(k + 1));
            }
            match d.into_project(now) {
                Ok(p) => {
                    projects.push(p);
                },
                Err(e) => {
                    proof {
                        assert(!project_data_valid(orig[k], now));
                    }
                    return Err(StateInitError::ProjectLoadError(e));
                },
            }
        }
        proof {
            assert(forall|j: int|
                0 <= j < orig.len() ==> project_data_valid(#[trigger] orig[j], now));
        }
        if !project_ids_pairwise_distinct(&projects) {
            proof {
                let (i, j) = choose|i: int, j: int|
                    0 <= i < j < projects@.len() && (#[trigger] projects@[i]).id.0 == (
                    #[trigger] projects@[j]).id.0;
                assert(orig[i].id == orig[j].id);
            }
            return Err(StateInitError::DuplicateProjectId);
        }
        proof {
            assert forall|a: int, b: int| 0 <= a < b < orig.len() implies (
            #[trigger] orig[a]).id != (#[trigger] orig[b]).id by {
                assert(project_matches_data(projects@[a], orig[a]));
                assert(project_matches_data(projects@[b], orig[b]));
                assert(projects@[a].id.0 != projects@[b].id.0);
            }
        }
        let n = projects.len();
        let mut i: usize = 0;
        while i < n
            invariant
                0 <= i <= n,
                n == projects@.len(),
                forall|j: int| 0 <= j < i ==> (#[trigger] projects@[j]).slice_ids_distinct(),
            decreases n - i,
        {
            if !slice_ids_internally_distinct(&projects[i]) {
                proof {
                    lemma_matches_preserves_ids(projects@[i as int], orig[i as int]);
                }
                return Err(StateInitError::DuplicateWorkSliceId);
            }
            i = i + 1;
        }
        if !no_shared_work_slice_ids(&projects) {
            proof {
                let (i2, j2, w) = choose|i2: int, j2: int, w: u64|
                    0 <= i2 < projects@.len() && 0 <= j2 < projects@.len() && i2 != j2 && (
                    #[trigger] projects@[i2].contains_slice_id(w)) && (
                    #[trigger] projects@[j2].contains_slice_id(w));
                lemma_matches_preserves_ids(projects@[i2], orig[i2]);
                lemma_matches_preserves_ids(projects@[j2], orig[j2]);
                assert(data_contains_ws(orig[i2], w) && data_contains_ws(orig[j2], w));
            }
            return Err(StateInitError::DuplicateWorkSliceId);
        }
        let previous_project_id = max_project_id_of(&projects);
        let previous_work_slice_id = max_work_slice_id_of(&projects);
        let s = crate::state::State {
            previous_project_id,
            previous_work_slice_id,
            projects,
            changes: Vec::new(),
        };
        proof {
            assert forall|i2: int| 0 <= i2 < orig.len() implies data_slice_ids_distinct(
                #[trigger] orig[i2],
            ) by {
                lemma_matches_preserves_ids(s.projects@[i2], orig[i2]);
            }
            assert forall|i2: int, j2: int, w: u64|
                0 <= i2 < orig.len() && 0 <= j2 < orig.len() && i2 != j2 implies !((
            #[trigger] data_contains_ws(orig[i2], w)) && (#[trigger] data_contains_ws(
                orig[j2],
                w,
            ))) by {
                lemma_matches_preserves_ids(s.projects@[i2], orig[i2]);
                lemma_matches_preserves_ids(s.projects@[j2], orig[j2]);
                if data_contains_ws(orig[i2], w) && data_contains_ws(orig[j2], w) {
                    assert(s.projects@[i2].contains_slice_id(w));
                    assert(s.projects@[j2].contains_slice_id(w));
                    assert(false);
                }
            }
            assert forall|i2: int, j2: int| 0 <= i2 < j2 < orig.len() implies (
            #[trigger] orig[i2]).id != (#[trigger] orig[j2]).id by {
                assert(s.projects@[i2].id.0 != s.projects@[j2].id.0);
            }
            assert(snapshot_valid(orig, now));
            assert forall|i2: int, w: u64|
                0 <= i2 < orig.len() && (#[trigger] data_contains_ws(orig[i2], w)) implies w
                <= s.previous_work_slice_id by {
                lemma_matches_preserves_ids(s.projects@[i2], orig[i2]);
                assert(s.projects@[i2].contains_slice_id(w));
            }
            if s.previous_work_slice_id != 0 {
                let (i2, w) = choose|i2: int, w: u64|
                    0 <= i2 < s.projects@.len() && (#[trigger] s.projects@[i2].contains_slice_id(
                        w,
                    )) && w == s.previous_work_slice_id;
                lemma_matches_preserves_ids(s.projects@[i2], orig[i2]);
                assert(data_contains_ws(orig[i2], w));
            }
            assert forall|i2: int| 0 <= i2 < s.projects@.len() implies (
            #[trigger] s.projects@[i2]).wf() by {
                assert(project_data_valid(orig[i2], now));
            }
            if s.previous_project_id != 0 {
                let i2 = choose|i2: int|
                    0 <= i2 < s.projects@.len() && (#[trigger] s.projects@[i2]).id.0
                        == s.previous_project_id;
                assert(orig[i2].id == s.previous_project_id);
            }
        }
        Ok(s)
    }

    /// Reconstructs a state from a persisted snapshot, judged against
    /// the current clock: see [`Self::new_at`] for the exact
    /// behaviour at a given clock reading. The duplicate-id errors,
    /// and everything promised of a successfully built state, do not
    /// depend on the clock; the empty snapshot, and any snapshot that
    /// is acceptable at every reading, loads successfully whatever
    /// the clock says.
    pub fn new(initial_data: Vec<ProjectData>) -> (r: Result<crate::state::State, StateInitError>)
        ensures
            initial_data@.len() == 0 ==> r is Ok,
            snapshot_valid(initial_data@, i64::MIN) ==> r is Ok,
            r matches Err(StateInitError::ProjectLoadError(_)) ==> initial_data@.len() > 0,
            !(forall|i: int, j: int|
                0 <= i < j < initial_data@.len() ==> (#[trigger] initial_data@[i]).id != (
                #[trigger] initial_data@[j]).id) ==> r is Err,
            !((forall|i: int|
                0 <= i < initial_data@.len() ==> data_slice_ids_distinct(
                    #[trigger] initial_data@[i],
                )) && (forall|i: int, j: int, w: u64|
                0 <= i < initial_data@.len() && 0 <= j < initial_data@.len() && i != j ==> !((
                #[trigger] data_contains_ws(initial_data@[i], w)) && (#[trigger] data_contains_ws(
                    initial_data@[j],
                    w,
                ))))) ==> r is Err,
            r == Err::<crate::state::State, StateInitError>(StateInitError::DuplicateProjectId)
                ==> !(forall|i: int, j: int|
                0 <= i < j < initial_data@.len() ==> (#[trigger] initial_data@[i]).id != (
                #[trigger] initial_data@[j]).id),
            r == Err::<crate::state::State, StateInitError>(StateInitError::DuplicateWorkSliceId)
                ==> !((forall|i: int|
                0 <= i < initial_data@.len() ==> data_slice_ids_distinct(
                    #[trigger] initial_data@[i],
                )) && (forall|i: int, j: int, w: u64|
                0 <= i < initial_data@.len() && 0 <= j < initial_data@.len() && i != j ==> !((
                #[trigger] data_contains_ws(initial_data@[i], w)) && (#[trigger] data_contains_ws(
                    initial_data@[j],
                    w,
                ))))),
            r matches Ok(s) ==> s.wf() && s.changes@.len() == 0 && s.projects@.len()
                == initial_data@.len() && (forall|i: int|
                0 <= i < initial_data@.len() ==> project_matches_data(
                    #[trigger] s.projects@[i],
                    initial_data@[i],
                )),
    {
        let now = crate::clock::now_millis();
        let r = Self::new_at(initial_data, now);
        proof {
            if initial_data@.len() == 0 {
                assert(snapshot_valid(initial_data@, now));
            }
            if snapshot_valid(initial_data@, i64::MIN) {
                lemma_snapshot_valid_monotonic(initial_data@, i64::MIN, now);
            }
        }
        r
    }

    /// The snapshot records describing every project, in order:
    /// exactly what the persistence sink needs to serialize a full
    /// snapshot, and what [`Self::new_at`] accepts back.
    #[verifier::loop_isolation(false)]
    pub fn snapshot(&self) -> (r: Vec<ProjectData>)
        ensures
            r@.len() == self.projects@.len(),
            forall|i: int|
                0 <= i < r@.len() ==> project_matches_data(self.projects@[i], #[trigger] r@[i]),
    {
        let mut out: Vec<ProjectData> = Vec::new();
        let mut i: usize = 0;
        while i < self.projects.len()
            invariant
                0 <= i <= self.projects@.len(),
                out@.len() == i,
                forall|j: int|
                    0 <= j < i ==> project_matches_data(self.projects@[j], #[trigger] out@[j]),
            decreases self.projects@.len() - i,
        {
            out.push(self.projects[i].to_data());
            i = i + 1;
        }
        out
    }
}

/// A snapshot acceptable at one clock reading is acceptable at every
/// later one: record validity only asks that no recorded start lie in
/// the future of the reading, and the id conditions do not involve
/// the clock at all.
pub proof fn lemma_snapshot_valid_monotonic(data: Seq<ProjectData>, n1: i64, n2: i64)
    requires
        snapshot_valid(data, n1),
        n1 <= n2,
    ensures
        snapshot_valid(data, n2),
{
    assert forall|i: int| 0 <= i < data.len() implies project_data_valid(
        #[trigger] data[i],
        n2,
    ) by {
        assert(project_data_valid(data[i], n1));
        assert forall|k: int| 0 <= k < data[i].work_slices@.len() implies complete_data_valid(
            #[trigger] data[i].work_slices@[k],
            n2,
        ) by {
            assert(complete_data_valid(data[i].work_slices@[k], n1));
        }
    }
}

/// Round trip, first half: the snapshot of a well-formed state is
/// accepted by the loader at any clock reading `now` that is not
/// before any recorded start time — so exporting and reloading
/// succeeds, rather than erring, whenever the clock has not moved
/// backwards past recorded work.
pub proof fn lemma_snapshot_round_trip_accepted(s: crate::state::State, data: Seq<ProjectData>, now: i64)
    requires
        s.wf(),
        data.len() == s.projects@.len(),
        forall|i: int|
            0 <= i < data.len() ==> project_matches_data(#[trigger] s.projects@[i], data[i]),
        forall|i: int, k: int|
            0 <= i < s.projects@.len() && 0 <= k < s.projects@[i].work_slices@.len() ==> (
            #[trigger] s.projects@[i].work_slices@[k]).start <= now,
        forall|i: int|
            0 <= i < s.projects@.len() ==> ((#[trigger] s.projects@[i]).current_slice matches Some(
                c,
            ) ==> c.start <= now),
    ensures
        snapshot_valid(data, now),
{
    assert forall|i: int| 0 <= i < data.len() implies project_data_valid(
        #[trigger] data[i],
        now,
    ) by {
        let p = s.projects@[i];
        assert(p.wf());
        assert forall|k: int| 0 <= k < data[i].work_slices@.len() implies complete_data_valid(
            #[trigger] data[i].work_slices@[k],
            now,
        ) by {
            assert(p.work_slices@[k] == spec_complete_slice_of(data[i].work_slices@[k]));
            assert(p.work_slices@[k].wf());
            assert(p.work_slices@[k].start <= now);
        }
        match data[i].current_slice {
            Some(c) => {
                assert(p.current_slice matches Some(cur) && cur == spec_incomplete_slice_of(c));
            },
            None => {},
        }
    }
    assert forall|i: int, j: int| 0 <= i < j < data.len() implies (#[trigger] data[i]).id != (
    #[trigger] data[j]).id by {
        assert(s.projects@[i].id.0 != s.projects@[j].id.0);
    }
    assert forall|i: int| 0 <= i < data.len() implies data_slice_ids_distinct(
        #[trigger] data[i],
    ) by {
        assert(s.projects@[i].slice_ids_distinct());
        lemma_matches_preserves_ids(s.projects@[i], data[i]);
    }
    assert forall|i: int, j: int, w: u64|
        0 <= i < data.len() && 0 <= j < data.len() && i != j implies !((
    #[trigger] data_contains_ws(data[i], w)) && (#[trigger] data_contains_ws(data[j], w))) by {
        lemma_matches_preserves_ids(s.projects@[i], data[i]);
        lemma_matches_preserves_ids(s.projects@[j], data[j]);
        if data_contains_ws(data[i], w) && data_contains_ws(data[j], w) {
            assert(s.projects@[i].contains_slice_id(w));
            assert(s.projects@[j].contains_slice_id(w));
            assert(false);
        }
    }
}

/// Round trip, second half: two states whose projects both match the
/// same snapshot records hold the same projects — the same ids, names,
/// descriptions, completed slices with their exact payments and
/// timestamps, and the same open slice or none. So reloading an
/// exported snapshot reproduces every project as it was.
pub proof fn lemma_snapshot_round_trip_reproduces(
    s1: crate::state::State,
    s2: crate::state::State,
    data: Seq<ProjectData>,
)
    requires
        s1.projects@.len() == data.len(),
        s2.projects@.len() == data.len(),
        forall|i: int|
            0 <= i < data.len() ==> project_matches_data(#[trigger] s1.projects@[i], data[i]),
        forall|i: int|
            0 <= i < data.len() ==> project_matches_data(#[trigger] s2.projects@[i], data[i]),
    ensures
        forall|i: int|
            0 <= i < data.len() ==> (#[trigger] s1.projects@[i]).id == s2.projects@[i].id
                && s1.projects@[i].name@ == s2.projects@[i].name@ && s1.projects@[i].description@
                == s2.projects@[i].description@ && s1.projects@[i].work_slices@
                == s2.projects@[i].work_slices@ && s1.projects@[i].current_slice
                == s2.projects@[i].current_slice,
{
    assert forall|i: int| 0 <= i < data.len() implies (#[trigger] s1.projects@[i]).id
        == s2.projects@[i].id && s1.projects@[i].name@ == s2.projects@[i].name@
        && s1.projects@[i].description@ == s2.projects@[i].description@
        && s1.projects@[i].work_slices@ == s2.projects@[i].work_slices@
        && s1.projects@[i].current_slice == s2.projects@[i].current_slice by {
        assert forall|k: int| 0 <= k < data[i].work_slices@.len() implies s1.projects@[i].work_slices@[k]
            == s2.projects@[i].work_slices@[k] by {
            assert(s1.projects@[i].work_slices@[k] == spec_complete_slice_of(
                data[i].work_slices@[k],
            ));
            assert(s2.projects@[i].work_slices@[k] == spec_complete_slice_of(
                data[i].work_slices@[k],
            ));
        }
        assert(s1.projects@[i].work_slices@ =~= s2.projects@[i].work_slices@);
        match (s1.projects@[i].current_slice, s2.projects@[i].current_slice) {
            (Some(a), Some(b)) => {
                assert(a == b);
            },
            (None, None) => {},
            _ => {
                assert(false);
            },
        }
    }
}

} // verus!
