use track_work::money::Money;
use track_work::money::Payment;
use track_work::money::UNITS_PER_PENCE;
use track_work::work_slice::CompleteWorkSlice;
use track_work::work_slice::IncompleteWorkSlice;
use track_work::work_slice::WorkSliceId;
use track_work::errors::CompleteWorkError;
use track_work::errors::DataToCompleteWorkSliceError;
use track_work::project::Project;
use track_work::project::ProjectId;
use track_work::snapshot::CompleteWorkSliceData;

fn almost_equal(a: f64, b: f64) -> bool {
    (a - b).abs() <= 0.0001
}

fn pence_of_units(units: u128) -> f64 {
    units as f64 / UNITS_PER_PENCE as f64
}

const HOUR_MS: i64 = 60 * 60 * 1000;

#[test]
fn incomplete_work_slice_eq() {
    let now: i64 = 1_700_000_000_000;
    let before = now - 5 * HOUR_MS;
    let tests = [
        IncompleteWorkSlice::new_at(before, Payment::Hourly(Money::new(1000)), WorkSliceId::new(0), now)
            .unwrap(),
        IncompleteWorkSlice::new_at(now, Payment::Hourly(Money::new(2000)), WorkSliceId::new(1), now)
            .unwrap(),
    ];
    for test in &tests {
        assert_eq!(test, test);
    }
    assert_ne!(tests[0], tests[1]);
    assert_ne!(tests[1], tests[0]);
}

#[test]
fn work_slice_payment_calculation() {
    let now: i64 = 1_700_000_000_000;
    let after = now + 5 * HOUR_MS;
    let before = now - 5 * HOUR_MS;
    let tests = [
        (
            IncompleteWorkSlice::new_at(
                before,
                Payment::Hourly(Money::new(1000)),
                WorkSliceId::new(0),
                now,
            ),
            Some(5000.0),
        ),
        (
            IncompleteWorkSlice::new_at(
                now,
                Payment::Hourly(Money::new(2000)),
                WorkSliceId::new(1),
                now,
            ),
            Some(0.0),
        ),
        (
            IncompleteWorkSlice::new_at(
                after,
                Payment::Fixed(Money::new(20000)),
                WorkSliceId::new(2),
                now,
            ),
            None,
        ),
    ];
    assert!(tests[0].0.is_some());
    assert!(tests[1].0.is_some());
    assert!(tests[2].0.is_none());

    let slice_before = tests[0].0.unwrap();
    let expected_before = tests[0].1.unwrap();
    assert!(almost_equal(
        pence_of_units(slice_before.calculate_payment_so_far_at(now).as_units()),
        expected_before,
    ));
    let completed = slice_before.complete(now).unwrap();
    assert!(almost_equal(
        pence_of_units(completed.calculate_payment().as_units()),
        expected_before,
    ));

    let slice_now = tests[1].0.unwrap();
    let expected_now = tests[1].1.unwrap();
    assert!(almost_equal(
        pence_of_units(slice_now.calculate_payment_so_far_at(now).as_units()),
        expected_now,
    ));
    // The end must be strictly after the start, so completing at the
    // very start time hands the open slice back unchanged.
    let failed = slice_now.complete(now);
    assert!(failed.is_err());
    assert_eq!(failed.unwrap_err(), slice_now);
}

#[test]
fn slice_creation_fails_iff_start_in_future() {
    let now: i64 = 1_700_000_000_000;
    let p = Payment::Fixed(Money::new(10));
    assert!(IncompleteWorkSlice::new_at(now - 1, p, WorkSliceId::new(1), now).is_some());
    assert!(IncompleteWorkSlice::new_at(now, p, WorkSliceId::new(2), now).is_some());
    assert!(IncompleteWorkSlice::new_at(now + 1, p, WorkSliceId::new(3), now).is_none());
}

#[test]
fn completion_fails_iff_end_not_after_start() {
    let now: i64 = 1_700_000_000_000;
    let start = now - 1000;
    let p = Payment::Hourly(Money::new(3600));
    let open = IncompleteWorkSlice::new_at(start, p, WorkSliceId::new(7), now).unwrap();
    let too_early = open.complete(start - 1);
    assert_eq!(too_early.unwrap_err(), open);
    let same_time = open.complete(start);
    assert_eq!(same_time.unwrap_err(), open);
    let done = open.complete(start + 2500).unwrap();
    assert_eq!(done.duration(), 2500);
    assert_eq!(done.start(), start);
    assert_eq!(done.completion(), start + 2500);
    assert_eq!(done.id(), WorkSliceId::new(7));
    assert_eq!(done.payment(), p);
}

#[test]
fn complete_work_slice_eq_by_id() {
    let now: i64 = 1_700_000_000_000;
    let a = IncompleteWorkSlice::new_at(now - 100, Payment::Fixed(Money::new(1)), WorkSliceId::new(5), now)
        .unwrap()
        .complete(now)
        .unwrap();
    let b = IncompleteWorkSlice::new_at(now - 999, Payment::Fixed(Money::new(2)), WorkSliceId::new(5), now)
        .unwrap()
        .complete(now + 50)
        .unwrap();
    let c = IncompleteWorkSlice::new_at(now - 100, Payment::Fixed(Money::new(1)), WorkSliceId::new(6), now)
        .unwrap()
        .complete(now)
        .unwrap();
    // Equality is by id alone: same id with different fields is equal,
    // same fields with a different id is not.
    assert_eq!(a, b);
    assert_ne!(a, c);
    let _ = CompleteWorkSlice::new(
        IncompleteWorkSlice::new_at(now, Payment::Fixed(Money::new(1)), WorkSliceId::new(9), now)
            .unwrap(),
        now + 1,
    )
    .unwrap();
}

#[test]
fn slice_record_error_kinds() {
    let now: i64 = 1_700_000_000_000;
    let fee = Payment::Fixed(Money::new(10));
    let future = CompleteWorkSliceData { start: now + 1, end: now + 2, payment: fee, id: 1 };
    assert_eq!(
        future.into_work_slice(now).unwrap_err(),
        DataToCompleteWorkSliceError::StartTimeAfterNow
    );
    let backwards = CompleteWorkSliceData { start: now - 10, end: now - 10, payment: fee, id: 1 };
    assert_eq!(
        backwards.into_work_slice(now).unwrap_err(),
        DataToCompleteWorkSliceError::EndTimeBeforeStart
    );
    let good = CompleteWorkSliceData { start: now - 10, end: now, payment: fee, id: 1 };
    let slice = good.into_work_slice(now).unwrap();
    assert_eq!(slice.start(), now - 10);
    assert_eq!(slice.completion(), now);
    assert_eq!(slice.id(), WorkSliceId::new(1));
}

#[test]
fn project_work_slice_lifecycle_errors() {
    let now: i64 = 1_700_000_000_000;
    let mut project =
        Project::new(String::from("alpha"), String::from("first"), ProjectId::new(1));
    assert_eq!(project.complete_work(now), Err(CompleteWorkError::NoWorkToComplete));
    let open =
        IncompleteWorkSlice::new_at(now - 100, Payment::Fixed(Money::new(5)), WorkSliceId::new(2), now)
            .unwrap();
    assert!(project.start_work(open).is_ok());
    assert!(project.start_work(open).is_err());
    assert_eq!(project.complete_work(now - 100), Err(CompleteWorkError::EndTimeTooEarly));
    // The failed completion left the open slice in place.
    assert_eq!(project.current_work_slice().unwrap().id(), WorkSliceId::new(2));
    assert!(project.complete_work(now).is_ok());
    assert_eq!(project.complete_work_slices().len(), 1);
    // Deleting an unknown slice fails; deleting the completed one
    // hands it back.
    assert!(project.delete_work_slice(WorkSliceId::new(9)).is_err());
    let got = project.delete_work_slice(WorkSliceId::new(2)).unwrap();
    assert_eq!(got.id(), WorkSliceId::new(2));
    assert!(got.as_complete().is_some());
    assert!(got.as_incomplete().is_none());
    assert_eq!(project.complete_work_slices().len(), 0);
}
