//! A project: a named aggregate owning an ordered collection of
//! completed work slices and at most one open slice, with the
//! start/stop state machine over them.

use vstd::prelude::*;

use crate::errors::CompleteWorkError;
use crate::errors::WorkSliceNotFoundError;
use crate::clock::now_millis;
use crate::money::MoneyExact;
use crate::money::Payment;
use crate::work_slice::CompleteWorkSlice;
use crate::work_slice::IncompleteWorkSlice;
use crate::work_slice::WorkSlice;
use crate::work_slice::WorkSliceId;

verus! {

/// The identity of a project: an opaque 64-bit integer, unique for the
/// lifetime of the owning [`crate::state::State`].
#[derive(Clone, Copy, Debug, PartialEq, Eq, Structural, Hash)]
pub struct ProjectId(pub u64);

impl ProjectId {
    /// Wraps a raw id. Fresh ids should come from the owning state's
    /// counter; this is for reconstruction from persisted data.
    pub fn new(id: u64) -> (r: Self)
        ensures
            r.0 == id,
    {
        ProjectId(id)
    }

    /// The raw 64-bit value of this id.
    pub fn inner(&self) -> (r: u64)
        ensures
            r == self.0,
    {
        self.0
    }
}

/// The sum, in [`MoneyExact`] units, of the payments owed for a
/// sequence of completed work slices.
pub open spec fn spec_total_units(s: Seq<CompleteWorkSlice>) -> int
    decreases s.len(),
{
    if s.len() == 0 {
        0
    } else {
        spec_total_units(s.drop_last()) + s.last().spec_payment_units()
    }
}

/// The payment owed for a well-formed work slice is never negative.
pub proof fn lemma_payment_units_nonneg(c: CompleteWorkSlice)
    requires
        c.wf(),
    ensures
        c.spec_payment_units() >= 0,
{
    match c.payment {
        Payment::Hourly(rate) => {
            assert((rate.0 as int) * (c.end - c.start) >= 0) by (nonlinear_arith)
                requires
                    rate.0 as int >= 0,
                    c.end - c.start >= 0,
            ;
        },
        Payment::Fixed(fee) => {},
    }
}

proof fn lemma_total_units_take_step(s: Seq<CompleteWorkSlice>, i: int)
    requires
        0 <= i < s.len(),
    ensures
        spec_total_units(s.take(i + 1)) == spec_total_units(s.take(i))
            + s[i].spec_payment_units(),
{
    assert(s.take(i + 1).drop_last() =~= s.take(i));
    assert(s.take(i + 1).last() == s[i]);
}

proof fn lemma_total_units_take_le(s: Seq<CompleteWorkSlice>, i: int)
    requires
        0 <= i <= s.len(),
        forall|k: int| 0 <= k < s.len() ==> (#[trigger] s[k]).wf(),
    ensures
        spec_total_units(s.take(i)) <= spec_total_units(s),
    decreases s.len() - i,
{
    if i == s.len() {
        assert(s.take(i) =~= s);
    } else {
        lemma_total_units_take_step(s, i);
        lemma_payment_units_nonneg(s[i]);
        lemma_total_units_take_le(s, i + 1);
    }
}

/// A group of work slices billed together: an ordered list of
/// completed slices and at most one open slice at any time.
///
/// Two projects are equal exactly when their ids are equal, whatever
/// their other fields hold.
#[derive(Debug)]
pub struct Project {
    pub name: String,
    pub description: String,
    pub work_slices: Vec<CompleteWorkSlice>,
    pub current_slice: Option<IncompleteWorkSlice>,
    pub id: ProjectId,
}

impl PartialEq for Project {
    fn eq(&self, other: &Self) -> (r: bool) {
        self.id == other.id
    }
}

impl vstd::std_specs::cmp::PartialEqSpecImpl for Project {
    open spec fn obeys_eq_spec() -> bool {
        true
    }

    open spec fn eq_spec(&self, other: &Self) -> bool {
        self.id == other.id
    }
}

impl Eq for Project {}

impl Project {
    /// A project is well-formed when every completed slice is: each
    /// end strictly after its start.
    pub open spec fn wf(&self) -> bool {
        forall|i: int|
            0 <= i < self.work_slices@.len() ==> (#[trigger] self.work_slices@[i]).wf()
    }

    /// Whether some completed slice of this project has the raw id `w`.
    pub open spec fn has_completed_id(&self, w: u64) -> bool {
        exists|i: int|
            0 <= i < self.work_slices@.len() && (#[trigger] self.work_slices@[i]).id.0 == w
    }

    /// Whether the open slice of this project, if any, has the raw id
    /// `w`.
    pub open spec fn has_current_id(&self, w: u64) -> bool {
        match self.current_slice {
            Some(s) => s.id.0 == w,
            None => false,
        }
    }

    /// Whether any slice of this project, completed or open, has the
    /// raw id `w`.
    pub open spec fn contains_slice_id(&self, w: u64) -> bool {
        self.has_completed_id(w) || self.has_current_id(w)
    }

    /// No two slices of this project, the open one included, share an
    /// id.
    pub open spec fn slice_ids_distinct(&self) -> bool {
        &&& forall|i: int, j: int|
            0 <= i < j < self.work_slices@.len() ==> (#[trigger] self.work_slices@[i]).id.0 != (
            #[trigger] self.work_slices@[j]).id.0
        &&& match self.current_slice {
            Some(s) => !self.has_completed_id(s.id.0),
            None => true,
        }
    }

    /// A fresh project with the given identity and no work recorded.
    pub fn new(name: String, description: String, id: ProjectId) -> (r: Self)
        ensures
            r.name == name,
            r.description == description,
            r.id == id,
            r.work_slices@ =~= Seq::<CompleteWorkSlice>::empty(),
            r.current_slice is None,
            r.wf(),
    {
        Project { name, description, id, work_slices: Vec::new(), current_slice: None }
    }

    /// A project rebuilt from persisted parts; every completed slice
    /// handed in must be well-formed.
    pub(crate) fn new_with_slices(
        name: String,
        description: String,
        id: ProjectId,
        work_slices: Vec<CompleteWorkSlice>,
        current_slice: Option<IncompleteWorkSlice>,
    ) -> (r: Self)
        requires
            forall|i: int| 0 <= i < work_slices@.len() ==> (#[trigger] work_slices@[i]).wf(),
        ensures
            r == (Project { name, description, id, work_slices, current_slice }),
            r.wf(),
    {
        Project { name, description, id, work_slices, current_slice }
    }

    /// The project's name.
    pub fn name(&self) -> (r: &str)
        ensures
            r@ == self.name@,
    {
        self.name.as_str()
    }

    /// The project's description.
    pub fn description(&self) -> (r: &String)
        ensures
            r@ == self.description@,
    {
        &self.description
    }

    /// The project's id.
    pub fn id(&self) -> (r: ProjectId)
        ensures
            r == self.id,
    {
        self.id
    }

    /// The completed work slices of this project, in order, the
    /// current one (if any) not among them.
    pub fn complete_work_slices(&self) -> (r: &Vec<CompleteWorkSlice>)
        ensures
            r == &self.work_slices,
    {
        &self.work_slices
    }

    /// The current, open work slice, if one exists.
    pub fn current_work_slice(&self) -> (r: Option<IncompleteWorkSlice>)
        ensures
            r == self.current_slice,
    {
        self.current_slice
    }

    /// Records an already-completed slice against this project.
    pub fn add_slice(&mut self, work_slice: CompleteWorkSlice)
        ensures
            final(self).work_slices@ == old(self).work_slices@.push(work_slice),
            final(self).current_slice == old(self).current_slice,
            final(self).name == old(self).name,
            final(self).description == old(self).description,
            final(self).id == old(self).id,
    {
        self.work_slices.push(work_slice);
    }

    /// Makes `current_work` the project's open slice: succeeds exactly
    /// when no slice is currently open, and changes nothing otherwise.
    pub fn start_work(&mut self, current_work: IncompleteWorkSlice) -> (r: Result<(), ()>)
        ensures
            old(self).current_slice is None <==> r is Ok,
            r is Ok ==> *final(self) == (Project {
                current_slice: Some(current_work),
                ..*old(self)
            }),
            r is Err ==> *final(self) == *old(self),
    {
        if self.current_slice.is_none() {
            self.current_slice = Some(current_work);
            Ok(())
        } else {
            Err(())
        }
    }

    /// Opens a slice with the given policy and id, starting at the
    /// current clock reading: succeeds exactly when no slice is
    /// currently open, and changes nothing otherwise.
    pub fn start_work_now(&mut self, payment: Payment, id: WorkSliceId) -> (r: Result<(), ()>)
        ensures
            old(self).current_slice is None <==> r is Ok,
            r is Ok ==> (final(self).current_slice matches Some(s) && s.payment == payment
                && s.id == id),
            r is Ok ==> final(self).work_slices == old(self).work_slices && final(self).name == old(self).name && final(self).description == old(self).description && final(self).id == old(self).id,
            r is Err ==> *final(self) == *old(self),
    {
        if self.current_slice.is_none() {
            let now = now_millis();
            let slice = IncompleteWorkSlice::new_at(now, payment, id, now);
            match slice {
                Some(s) => {
                    self.current_slice = Some(s);
                    Ok(())
                },
                None => vstd::pervasive::unreached(),
            }
        } else {
            Err(())
        }
    }

    /// Closes the open slice at `end`. Fails with `NoWorkToComplete`
    /// when no slice is open, and with `EndTimeTooEarly` when `end` is
    /// not strictly after the open slice's start; on failure the
    /// project, its open slice included, is unchanged. On success the
    /// closed slice is appended to the completed list.
    pub fn complete_work(&mut self, end: i64) -> (r: Result<(), CompleteWorkError>)
        ensures
            old(self).current_slice is None ==> r == Err::<(), CompleteWorkError>(
                CompleteWorkError::NoWorkToComplete,
            ) && *final(self) == *old(self),
            old(self).current_slice matches Some(s) ==> (end <= s.start ==> r == Err::<
                (),
                CompleteWorkError,
            >(CompleteWorkError::EndTimeTooEarly) && *final(self) == *old(self)),
            old(self).current_slice matches Some(s) ==> (end > s.start ==> r is Ok
                && final(self).work_slices@ == old(self).work_slices@.push(
                (CompleteWorkSlice { start: s.start, end, payment: s.payment, id: s.id }),
            ) && final(self).current_slice is None && final(self).name == old(self).name
                && final(self).description == old(self).description
                && final(self).id == old(self).id),
    {
        match self.current_slice {
            Some(current_work) => match current_work.complete(end) {
                Ok(complete) => {
                    self.work_slices.push(complete);
                    self.current_slice = None;
                    Ok(())
                },
                Err(_) => Err(CompleteWorkError::EndTimeTooEarly),
            },
            None => Err(CompleteWorkError::NoWorkToComplete),
        }
    }

    /// Closes the open slice at the current clock reading. Fails with
    /// `NoWorkToComplete` exactly when no slice is open, and with
    /// `EndTimeTooEarly` only if the clock has not advanced past the
    /// open slice's start; on failure nothing changes.
    pub fn complete_work_now(&mut self) -> (r: Result<(), CompleteWorkError>)
        ensures
            old(self).current_slice is None <==> r == Err::<(), CompleteWorkError>(
                CompleteWorkError::NoWorkToComplete,
            ),
            r == Err::<(), CompleteWorkError>(CompleteWorkError::EndTimeTooEarly) ==> *final(self)
                == *old(self),
            old(self).current_slice is None ==> *final(self) == *old(self),
            old(self).current_slice matches Some(s) ==> (r is Ok ==> final(self).work_slices@.len()
                == old(self).work_slices@.len() + 1 && final(self).work_slices@.take(
                old(self).work_slices@.len() as int,
            ) == old(self).work_slices@ && final(self).work_slices@.last() == (CompleteWorkSlice {
                start: s.start,
                end: final(self).work_slices@.last().end,
                payment: s.payment,
                id: s.id,
            }) && final(self).work_slices@.last().wf() && final(self).current_slice is None
                && final(self).name == old(self).name
                && final(self).description == old(self).description
                && final(self).id == old(self).id),
    {
        let now = now_millis();
        let r = self.complete_work(now);
        proof {
            if old(self).current_slice matches Some(s) && now > s.start {
                assert(final(self).work_slices@.take(old(self).work_slices@.len() as int)
                    =~= old(self).work_slices@);
            }
        }
        r
    }

    /// The total payment owed for the completed slices of this
    /// project; the open slice, if any, is not included.
    pub fn total_payment(&self) -> (r: MoneyExact)
        requires
            self.wf(),
            spec_total_units(self.work_slices@) <= u128::MAX,
        ensures
            r.units == spec_total_units(self.work_slices@),
    {
        let mut acc: u128 = 0;
        let mut i: usize = 0;
        while i < self.work_slices.len()
            invariant
                0 <= i <= self.work_slices@.len(),
                self.wf(),
                spec_total_units(self.work_slices@) <= u128::MAX,
                acc == spec_total_units(self.work_slices@.take(i as int)),
            decreases self.work_slices@.len() - i,
        {
            proof {
                lemma_total_units_take_step(self.work_slices@, i as int);
                lemma_total_units_take_le(self.work_slices@, i as int + 1);
                lemma_payment_units_nonneg(self.work_slices@[i as int]);
            }
            let p = self.work_slices[i].calculate_payment();
            acc = acc + p.as_units();
            i = i + 1;
        }
        proof {
            assert(self.work_slices@.take(self.work_slices@.len() as int) =~= self.work_slices@);
        }
        MoneyExact { units: acc }
    }

    /// The total payment owed for the completed slices: a synonym of
    /// [`Self::total_payment`].
    pub fn payment(&self) -> (r: MoneyExact)
        requires
            self.wf(),
            spec_total_units(self.work_slices@) <= u128::MAX,
        ensures
            r.units == spec_total_units(self.work_slices@),
    {
        self.total_payment()
    }

    /// Deletes the slice with the given id, open or completed, and
    /// returns it: succeeds exactly when this project holds such a
    /// slice, and changes nothing otherwise. The open slice is
    /// checked first.
    #[verifier::loop_isolation(false)]
    pub fn delete_work_slice(&mut self, work_slice_id: WorkSliceId) -> (r: Result<
        WorkSlice,
        WorkSliceNotFoundError,
    >)
        ensures
            old(self).contains_slice_id(work_slice_id.0) <==> r is Ok,
            r is Err ==> *final(self) == *old(self),
            r matches Ok(w) ==> w.spec_id() == work_slice_id,
            r matches Ok(WorkSlice::Incomplete(s)) ==> old(self).current_slice == Some(s) && final(self).current_slice is None && final(self).work_slices == old(self).work_slices,
            r matches Ok(WorkSlice::Complete(c)) ==> exists|i: int|
                0 <= i < old(self).work_slices@.len() && old(self).work_slices@[i] == c && final(self).work_slices@ == old(self).work_slices@.remove(i),
            r matches Ok(WorkSlice::Complete(c)) ==> final(self).current_slice == old(self).current_slice,
            final(self).name == old(self).name,
            final(self).description == old(self).description,
            final(self).id == old(self).id,
    {
        let mut current_matches = false;
        match self.current_slice {
            Some(s) => {
                if s.id.inner() == work_slice_id.inner() {
                    current_matches = true;
                }
            },
            None => {},
        }
        if current_matches {
            let s = match self.current_slice {
                Some(s) => s,
                None => vstd::pervasive::unreached(),
            };
            self.current_slice = None;
            Ok(WorkSlice::Incomplete(s))
        } else {
            let mut i: usize = 0;
            while i < self.work_slices.len()
                invariant
                    *self == *old(self),
                    0 <= i <= self.work_slices@.len(),
                    forall|j: int|
                        0 <= j < i ==> (#[trigger] self.work_slices@[j]).id.0 != work_slice_id.0,
                decreases self.work_slices@.len() - i,
            {
                if self.work_slices[i].id().inner() == work_slice_id.inner() {
                    proof {
                        assert(old(self).work_slices@[i as int].id.0 == work_slice_id.0);
                    }
                    let c = self.work_slices.remove(i);
                    proof {
                        assert(old(self).work_slices@[i as int] == c);
                        assert(self.work_slices@ == old(self).work_slices@.remove(i as int));
                    }
                    return Ok(WorkSlice::Complete(c));
                }
                i = i + 1;
            }
            Err(WorkSliceNotFoundError)
        }
    }

    /// Whether this project holds a slice with the given id, open or
    /// completed.
    #[verifier::loop_isolation(false)]
    pub fn contains_work_slice_id(&self, id: WorkSliceId) -> (r: bool)
        ensures
            r <==> self.contains_slice_id(id.0),
    {
        match self.current_slice {
            Some(s) => {
                if s.id.inner() == id.inner() {
                    return true;
                }
            },
            None => {},
        }
        let mut i: usize = 0;
        while i < self.work_slices.len()
            invariant
                0 <= i <= self.work_slices@.len(),
                forall|j: int| 0 <= j < i ==> (#[trigger] self.work_slices@[j]).id.0 != id.0,
            decreases self.work_slices@.len() - i,
        {
            if self.work_slices[i].id().inner() == id.inner() {
                return true;
            }
            i = i + 1;
        }
        false
    }

    /// The slice of this project carrying the given id, open or
    /// completed: found exactly when the project holds such a slice.
    /// The open slice is checked first.
    #[verifier::loop_isolation(false)]
    pub fn work_slice_from_id(&self, id: WorkSliceId) -> (r: Option<WorkSlice>)
        ensures
            self.contains_slice_id(id.0) <==> r is Some,
            r matches Some(w) ==> w.spec_id() == id,
            r matches Some(WorkSlice::Incomplete(s)) ==> self.current_slice == Some(s),
            r matches Some(WorkSlice::Complete(c)) ==> exists|i: int|
                0 <= i < self.work_slices@.len() && (#[trigger] self.work_slices@[i]) == c,
    {
        match self.current_slice {
            Some(s) => {
                if s.id.inner() == id.inner() {
                    return Some(WorkSlice::Incomplete(s));
                }
            },
            None => {},
        }
        let mut i: usize = 0;
        while i < self.work_slices.len()
            invariant
                0 <= i <= self.work_slices@.len(),
                forall|j: int| 0 <= j < i ==> (#[trigger] self.work_slices@[j]).id.0 != id.0,
            decreases self.work_slices@.len() - i,
        {
            if self.work_slices[i].id().inner() == id.inner() {
                return Some(WorkSlice::Complete(self.work_slices[i]));
            }
            i = i + 1;
        }
        None
    }
}

} // verus!
