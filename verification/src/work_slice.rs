//! A work slice is one timed interval of billable work: open
//! (incomplete) while the work is going on, closed (complete) once an
//! end time is fixed. Times are milliseconds since the Unix epoch.

use vstd::prelude::*;

use crate::clock::now_millis;
use crate::money::MoneyExact;
use crate::money::Payment;
use vstd::std_specs::cmp::PartialEqSpec;

verus! {

/// The identity of a work slice: an opaque 64-bit integer, unique
/// across all projects of one [`crate::state::State`].
#[derive(Clone, Copy, Debug, PartialEq, Eq, Structural, Hash)]
pub struct WorkSliceId(pub u64);

impl WorkSliceId {
    /// Wraps a raw id. Fresh ids should come from the owning state's
    /// counter; this is for reconstruction from persisted data.
    pub fn new(id: u64) -> (r: Self)
        ensures
            r.0 == id,
    {
        WorkSliceId(id)
    }

    /// The raw 64-bit value of this id.
    pub fn inner(&self) -> (r: u64)
        ensures
            r == self.0,
    {
        self.0
    }
}

/// A work slice which has started but has not ended.
///
/// Two incomplete work slices are equal exactly when their ids are
/// equal, whatever their other fields hold.
#[derive(Clone, Copy, Debug)]
pub struct IncompleteWorkSlice {
    pub start: i64,
    pub payment: Payment,
    pub id: WorkSliceId,
}

impl PartialEq for IncompleteWorkSlice {
    fn eq(&self, other: &Self) -> (r: bool) {
        self.id == other.id
    }
}

impl vstd::std_specs::cmp::PartialEqSpecImpl for IncompleteWorkSlice {
    open spec fn obeys_eq_spec() -> bool {
        true
    }

    open spec fn eq_spec(&self, other: &Self) -> bool {
        self.id == other.id
    }
}

impl Eq for IncompleteWorkSlice {}

impl IncompleteWorkSlice {
    /// The start time of this work slice, in milliseconds since the
    /// Unix epoch.
    pub fn start(&self) -> (r: i64)
        ensures
            r == self.start,
    {
        self.start
    }

    /// The payment policy of this work slice.
    pub fn payment(&self) -> (r: Payment)
        ensures
            r == self.payment,
    {
        self.payment
    }

    /// The id of this work slice.
    pub fn id(&self) -> (r: WorkSliceId)
        ensures
            r == self.id,
    {
        self.id
    }

    /// Constructs an open work slice beginning at `start`, judged
    /// against the clock reading `now`: work cannot start in the
    /// future, so this fails exactly when `start > now`.
    pub fn new_at(start: i64, payment: Payment, id: WorkSliceId, now: i64) -> (r: Option<Self>)
        ensures
            start <= now <==> r is Some,
            r matches Some(s) ==> s == (IncompleteWorkSlice { start, payment, id }),
    {
        if start <= now {
            Some(IncompleteWorkSlice { start, payment, id })
        } else {
            None
        }
    }

    /// Constructs an open work slice beginning at `start`, judged
    /// against the current clock: fails when `start` is in the future.
    pub fn new(start: i64, payment: Payment, id: WorkSliceId) -> (r: Option<Self>)
        ensures
            r matches Some(s) ==> s == (IncompleteWorkSlice { start, payment, id }) && s.start
                == start,
    {
        let now = now_millis();
        Self::new_at(start, payment, id, now)
    }

    /// Closes this work slice at `end` if `end` is strictly after the
    /// start; otherwise returns it unchanged, so a bad end time never
    /// loses the open slice.
    pub fn complete(self, end: i64) -> (r: Result<CompleteWorkSlice, IncompleteWorkSlice>)
        ensures
            end > self.start <==> r is Ok,
            r matches Ok(c) ==> c == (CompleteWorkSlice {
                start: self.start,
                end,
                payment: self.payment,
                id: self.id,
            }),
            r matches Err(s) ==> s == self,
    {
        CompleteWorkSlice::new(self, end)
    }

    /// Closes this work slice at the current clock reading. Fails, and
    /// returns the slice unchanged, only if the clock has not advanced
    /// past the start.
    pub fn complete_now(self) -> (r: Result<CompleteWorkSlice, IncompleteWorkSlice>)
        ensures
            r matches Ok(c) ==> c.start == self.start && c.payment == self.payment && c.id
                == self.id && c.wf(),
            r matches Err(s) ==> s == self,
    {
        let now = now_millis();
        self.complete(now)
    }

    /// Time worked so far by the clock reading `now`, in milliseconds.
    pub fn duration_at(&self, now: i64) -> (r: u64)
        requires
            now >= self.start,
        ensures
            r == now - self.start,
    {
        ((now as i128) - (self.start as i128)) as u64
    }

    /// Time worked so far against the current clock, in milliseconds:
    /// the distance from the start to a fresh clock reading, or zero if
    /// the clock has fallen behind the start. What the clock reads is
    /// outside the library's control, so nothing more is promised here;
    /// for an exact contract see [`Self::duration_at`].
    pub fn duration(&self) -> u64 {
        let now = now_millis();
        if now <= self.start {
            0
        } else {
            self.duration_at(now)
        }
    }

    /// Money earned so far by the clock reading `now`.
    pub fn calculate_payment_so_far_at(&self, now: i64) -> (r: MoneyExact)
        requires
            now >= self.start,
        ensures
            r.units == self.payment.calc_units(now - self.start),
    {
        self.payment.calculate(self.duration_at(now))
    }

    /// Money earned so far against the current clock. The elapsed time
    /// depends on what the clock reads, so only what holds for every
    /// reading is promised: a fixed fee is owed in full whatever the
    /// elapsed time. For an exact contract see
    /// [`Self::calculate_payment_so_far_at`].
    pub fn calculate_payment_so_far(&self) -> (r: MoneyExact)
        ensures
            self.payment matches Payment::Fixed(fee) ==> r.units == (fee.0 as int) * (
            crate::money::UNITS_PER_PENCE as int),
    {
        self.payment.calculate(self.duration())
    }
}

/// A work slice which has been completed: its end is strictly after
/// its start.
///
/// Two complete work slices are equal exactly when their ids are
/// equal, whatever their other fields hold.
#[derive(Clone, Copy, Debug)]
pub struct CompleteWorkSlice {
    pub start: i64,
    pub end: i64,
    pub payment: Payment,
    pub id: WorkSliceId,
}

impl PartialEq for CompleteWorkSlice {
    fn eq(&self, other: &Self) -> (r: bool) {
        self.id == other.id
    }
}

impl vstd::std_specs::cmp::PartialEqSpecImpl for CompleteWorkSlice {
    open spec fn obeys_eq_spec() -> bool {
        true
    }

    open spec fn eq_spec(&self, other: &Self) -> bool {
        self.id == other.id
    }
}

impl Eq for CompleteWorkSlice {}

impl CompleteWorkSlice {
    /// A complete work slice is well-formed when its end is strictly
    /// after its start; every constructor establishes this.
    pub open spec fn wf(&self) -> bool {
        self.end > self.start
    }

    /// The length of the interval, in milliseconds.
    pub open spec fn spec_duration(&self) -> int {
        self.end - self.start
    }

    /// The money owed for the interval, in [`MoneyExact`] units.
    pub open spec fn spec_payment_units(&self) -> int {
        self.payment.calc_units(self.spec_duration())
    }

    /// The start time of this work slice.
    pub fn start(&self) -> (r: i64)
        ensures
            r == self.start,
    {
        self.start
    }

    /// The payment policy of this work slice.
    pub fn payment(&self) -> (r: Payment)
        ensures
            r == self.payment,
    {
        self.payment
    }

    /// The id of this work slice.
    pub fn id(&self) -> (r: WorkSliceId)
        ensures
            r == self.id,
    {
        self.id
    }

    /// The end time of this work slice.
    pub fn completion(&self) -> (r: i64)
        ensures
            r == self.end,
    {
        self.end
    }

    /// Closes `work_slice` at `end`: succeeds, preserving every field
    /// and fixing the end, exactly when `end` is strictly after the
    /// start; otherwise hands the open slice back unchanged.
    pub fn new(work_slice: IncompleteWorkSlice, end: i64) -> (r: Result<
        CompleteWorkSlice,
        IncompleteWorkSlice,
    >)
        ensures
            end > work_slice.start <==> r is Ok,
            r matches Ok(c) ==> c == (CompleteWorkSlice {
                start: work_slice.start,
                end,
                payment: work_slice.payment,
                id: work_slice.id,
            }) && c.wf(),
            r matches Err(s) ==> s == work_slice,
    {
        if end > work_slice.start {
            Ok(
                CompleteWorkSlice {
                    end,
                    start: work_slice.start,
                    payment: work_slice.payment,
                    id: work_slice.id,
                },
            )
        } else {
            Err(work_slice)
        }
    }

    /// The time between the end and the start, in milliseconds.
    pub fn duration(&self) -> (r: u64)
        requires
            self.wf(),
        ensures
            r == self.spec_duration(),
    {
        ((self.end as i128) - (self.start as i128)) as u64
    }

    /// The money owed for this work slice.
    pub fn calculate_payment(&self) -> (r: MoneyExact)
        requires
            self.wf(),
        ensures
            r.units == self.spec_payment_units(),
    {
        self.payment.calculate(self.duration())
    }
}

/// Equality of work slices, open or closed, is by id alone: two slices
/// compare equal exactly when their ids match, regardless of start,
/// end or payment.
pub proof fn lemma_work_slice_eq_is_by_id(
    a: IncompleteWorkSlice,
    b: IncompleteWorkSlice,
    c: CompleteWorkSlice,
    d: CompleteWorkSlice,
)
    ensures
        a.eq_spec(&b) <==> a.id == b.id,
        c.eq_spec(&d) <==> c.id == d.id,
{
}

/// A single work slice, complete or incomplete.
#[derive(Clone, Copy, Debug)]
pub enum WorkSlice {
    Complete(CompleteWorkSlice),
    Incomplete(IncompleteWorkSlice),
}

impl WorkSlice {
    /// A work slice is well-formed when, if complete, its end is after
    /// its start.
    pub open spec fn wf(&self) -> bool {
        match self {
            WorkSlice::Complete(c) => c.wf(),
            WorkSlice::Incomplete(_) => true,
        }
    }

    /// The id of the underlying slice.
    pub open spec fn spec_id(&self) -> WorkSliceId {
        match self {
            WorkSlice::Complete(c) => c.id,
            WorkSlice::Incomplete(s) => s.id,
        }
    }

    /// The complete work slice that this holds, if it holds one,
    /// consuming this value: a synonym of [`Self::complete`].
    pub fn as_complete(self) -> (r: Option<CompleteWorkSlice>)
        ensures
            r == (match self {
                WorkSlice::Complete(c) => Some(c),
                WorkSlice::Incomplete(_) => None::<CompleteWorkSlice>,
            }),
    {
        self.complete()
    }

    /// The incomplete work slice that this holds, if it holds one,
    /// consuming this value: a synonym of [`Self::incomplete`].
    pub fn as_incomplete(self) -> (r: Option<IncompleteWorkSlice>)
        ensures
            r == (match self {
                WorkSlice::Complete(_) => None::<IncompleteWorkSlice>,
                WorkSlice::Incomplete(s) => Some(s),
            }),
    {
        self.incomplete()
    }

    /// The complete work slice that this holds, if it holds one.
    pub fn complete(self) -> (r: Option<CompleteWorkSlice>)
        ensures
            r == (match self {
                WorkSlice::Complete(c) => Some(c),
                WorkSlice::Incomplete(_) => None::<CompleteWorkSlice>,
            }),
    {
        match self {
            WorkSlice::Complete(c) => Some(c),
            WorkSlice::Incomplete(_) => None,
        }
    }

    /// The incomplete work slice that this holds, if it holds one.
    pub fn incomplete(self) -> (r: Option<IncompleteWorkSlice>)
        ensures
            r == (match self {
                WorkSlice::Complete(_) => None::<IncompleteWorkSlice>,
                WorkSlice::Incomplete(s) => Some(s),
            }),
    {
        match self {
            WorkSlice::Complete(_) => None,
            WorkSlice::Incomplete(s) => Some(s),
        }
    }

    /// The complete work slice that this holds; the caller must know
    /// that it holds one.
    pub fn unwrap(self) -> (r: CompleteWorkSlice)
        requires
            self is Complete,
        ensures
            self == WorkSlice::Complete(r),
    {
        match self {
            WorkSlice::Complete(c) => c,
            WorkSlice::Incomplete(_) => vstd::pervasive::unreached(),
        }
    }

    /// The start time of the underlying slice.
    pub fn start(&self) -> (r: i64)
        ensures
            r == (match self {
                WorkSlice::Complete(c) => c.start,
                WorkSlice::Incomplete(s) => s.start,
            }),
    {
        match self {
            WorkSlice::Complete(c) => c.start(),
            WorkSlice::Incomplete(s) => s.start(),
        }
    }

    /// The payment policy of the underlying slice.
    pub fn payment_rate(&self) -> (r: Payment)
        ensures
            r == (match self {
                WorkSlice::Complete(c) => c.payment,
                WorkSlice::Incomplete(s) => s.payment,
            }),
    {
        match self {
            WorkSlice::Complete(c) => c.payment(),
            WorkSlice::Incomplete(s) => s.payment(),
        }
    }

    /// The id of the underlying slice.
    pub fn id(&self) -> (r: WorkSliceId)
        ensures
            r == self.spec_id(),
    {
        match self {
            WorkSlice::Complete(c) => c.id(),
            WorkSlice::Incomplete(s) => s.id(),
        }
    }

    /// The duration of the underlying interval by the clock reading
    /// `now`: for a complete slice `now` plays no part.
    pub fn duration_at(&self, now: i64) -> (r: u64)
        requires
            self.wf(),
            self matches WorkSlice::Incomplete(s) ==> now >= s.start,
        ensures
            r == (match self {
                WorkSlice::Complete(c) => c.spec_duration(),
                WorkSlice::Incomplete(s) => now - s.start,
            }),
    {
        match self {
            WorkSlice::Complete(c) => c.duration(),
            WorkSlice::Incomplete(s) => s.duration_at(now),
        }
    }

    /// The money owed for the underlying slice by the clock reading
    /// `now`: the full payment of a complete slice, or the payment so
    /// far of an incomplete one.
    pub fn total_payment_at(&self, now: i64) -> (r: MoneyExact)
        requires
            self.wf(),
            self matches WorkSlice::Incomplete(s) ==> now >= s.start,
        ensures
            r.units == (match self {
                WorkSlice::Complete(c) => c.spec_payment_units(),
                WorkSlice::Incomplete(s) => s.payment.calc_units(now - s.start),
            }),
    {
        match self {
            WorkSlice::Complete(c) => c.calculate_payment(),
            WorkSlice::Incomplete(s) => s.calculate_payment_so_far_at(now),
        }
    }
}

} // verus!
