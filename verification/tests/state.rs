use track_work::changes::Change;
use track_work::config::LocalConfig;
use track_work::errors::NotFoundError;
use track_work::errors::StateInitError;
use track_work::errors::WorkEndError;
use track_work::errors::WorkStartError;
use track_work::money::Money;
use track_work::money::Payment;
use track_work::money::UNITS_PER_PENCE;
use track_work::snapshot::CompleteWorkSliceData;
use track_work::snapshot::IncompleteWorkSliceData;
use track_work::snapshot::ProjectData;
use track_work::state::State;
use track_work::work_slice::WorkSlice;
use track_work::work_slice::WorkSliceId;

fn almost_equal(a: f64, b: f64) -> bool {
    (a - b).abs() <= 0.0001
}

const NOW: i64 = 1_700_000_000_000;

#[test]
fn start_and_complete_conflicts() {
    let mut state = State::empty();
    let id = state.new_project(String::from("alpha"), String::from("first"));
    let hourly = Payment::Hourly(Money::new(800));

    assert!(state.start_work_at(id, hourly, NOW - 10_000, NOW).is_ok());
    // Starting again while a slice is open is refused.
    assert_eq!(
        state.start_work_at(id, hourly, NOW - 5_000, NOW),
        Err(WorkStartError::AlreadyStarted)
    );
    // The end must be strictly after the start.
    assert_eq!(state.end_work(id, NOW - 10_000), Err(WorkEndError::EndTimeTooEarly));
    assert!(state.end_work(id, NOW).is_ok());
    // With no open slice, there is nothing to complete.
    assert_eq!(state.end_work(id, NOW + 1), Err(WorkEndError::NoWorkToComplete));
}

#[test]
fn start_work_error_cases() {
    let mut state = State::empty();
    let id = state.new_project(String::from("alpha"), String::from("first"));
    let fee = Payment::Fixed(Money::new(100));

    // A start time in the future is refused before anything else.
    assert_eq!(
        state.start_work_at(id, fee, NOW + 1, NOW),
        Err(WorkStartError::InvalidStartTime)
    );
    // An unknown project id is refused.
    let ghost_id = track_work::project::ProjectId::new(999);
    assert_eq!(
        state.start_work_at(ghost_id, fee, NOW - 1, NOW),
        Err(WorkStartError::InvalidProjectId)
    );
    assert_eq!(state.end_work(ghost_id, NOW), Err(WorkEndError::InvalidProjectId));
}

#[test]
fn delete_project_orphans_its_slices() {
    let mut state = State::empty();
    let a = state.new_project(String::from("alpha"), String::from("first"));
    let b = state.new_project(String::from("beta"), String::from("second"));
    let pay = Payment::Hourly(Money::new(1000));

    assert!(state.start_work_at(a, pay, NOW - 8_000, NOW).is_ok());
    assert!(state.end_work(a, NOW - 1_000).is_ok());
    assert!(state.start_work_at(b, pay, NOW - 4_000, NOW).is_ok());
    assert!(state.end_work(b, NOW - 2_000).is_ok());

    let a_slice = state
        .project_from_id(a)
        .unwrap()
        .complete_work_slices()
        .first()
        .unwrap()
        .id();
    let b_slice = state
        .project_from_id(b)
        .unwrap()
        .complete_work_slices()
        .first()
        .unwrap()
        .id();
    assert_eq!(state.project_id_from_work_slice(a_slice), Some(a));

    assert!(state.delete_project(a));
    // The project is gone, and lookups of its slices fail.
    assert!(state.project_from_id(a).is_none());
    assert!(!state.project_exists(a));
    assert!(state.project_id_from_work_slice(a_slice).is_none());
    assert!(state.work_slice_from_id(a_slice).is_none());
    // The other project is unaffected.
    assert_eq!(state.project_id_from_work_slice(b_slice), Some(b));
    assert_eq!(state.project_from_id(b).unwrap().complete_work_slices().len(), 1);
    // Deleting again fails.
    assert!(!state.delete_project(a));
}

#[test]
fn delete_work_slices() {
    let mut state = State::empty();
    let a = state.new_project(String::from("alpha"), String::from("first"));
    let pay = Payment::Fixed(Money::new(500));

    assert!(state.start_work_at(a, pay, NOW - 8_000, NOW).is_ok());
    assert!(state.end_work(a, NOW - 6_000).is_ok());
    assert!(state.start_work_at(a, pay, NOW - 5_000, NOW).is_ok());

    // A bystander project, to check that deletions elsewhere leave it
    // alone.
    let b = state.new_project(String::from("beta"), String::from("second"));
    assert!(state.start_work_at(b, pay, NOW - 7_000, NOW).is_ok());
    assert!(state.end_work(b, NOW - 6_500).is_ok());
    let b_slice = state
        .project_from_id(b)
        .unwrap()
        .complete_work_slices()
        .first()
        .unwrap()
        .id();

    let completed_id = state
        .project_from_id(a)
        .unwrap()
        .complete_work_slices()
        .first()
        .unwrap()
        .id();
    let open_id = state.project_from_id(a).unwrap().current_work_slice().unwrap().id();

    // The open slice is checked first and comes back as incomplete.
    let got = state.delete_work_slice_from_project(a, open_id).unwrap();
    assert!(matches!(got, WorkSlice::Incomplete(_)));
    assert_eq!(got.id(), open_id);
    assert!(state.project_from_id(a).unwrap().current_work_slice().is_none());

    // Unknown ids are told apart from unknown projects.
    assert!(matches!(
        state.delete_work_slice_from_project(a, open_id),
        Err(NotFoundError::WorkSliceNotFound)
    ));
    let ghost_id = track_work::project::ProjectId::new(999);
    assert!(matches!(
        state.delete_work_slice_from_project(ghost_id, completed_id),
        Err(NotFoundError::ProjectNotFound)
    ));

    // Deleting by slice id alone finds the owner itself, and touches
    // nothing else: the other project and its slice stay as they were.
    assert!(state.delete_work_slice(completed_id));
    assert!(state.work_slice_from_id(completed_id).is_none());
    assert!(!state.delete_work_slice(completed_id));
    assert_eq!(state.all_projects().len(), 2);
    assert_eq!(state.project_from_id(b).unwrap().complete_work_slices().len(), 1);
    assert_eq!(state.project_id_from_work_slice(b_slice), Some(b));
}

#[test]
fn change_log_records_each_mutation_once() {
    let mut state = State::empty();
    let a = state.new_project(String::from("alpha"), String::from("first"));
    let pay = Payment::Hourly(Money::new(200));
    assert!(state.start_work_at(a, pay, NOW - 3_000, NOW).is_ok());
    // A failed mutation records nothing.
    assert_eq!(
        state.start_work_at(a, pay, NOW - 2_000, NOW),
        Err(WorkStartError::AlreadyStarted)
    );
    assert!(state.end_work(a, NOW).is_ok());
    assert!(state.delete_project(a));

    let changes = state.handle_changes();
    assert_eq!(changes.len(), 4);
    assert!(matches!(&changes[0], Change::ProjectCreated { name, .. } if name == "alpha"));
    assert!(
        matches!(&changes[1], Change::WorkSliceStarted { start_time, .. } if *start_time == NOW - 3_000)
    );
    assert!(matches!(&changes[2], Change::WorkSliceCompleted { end_time, .. } if *end_time == NOW));
    assert!(matches!(&changes[3], Change::ProjectDeleted { .. }));
    // Draining leaves the log empty.
    assert_eq!(state.handle_changes().len(), 0);
}

#[test]
fn snapshot_round_trip() {
    let mut state = State::empty();
    let a = state.new_project(String::from("alpha"), String::from("first"));
    let b = state.new_project(String::from("beta"), String::from("second"));
    let hourly = Payment::Hourly(Money::new(1250));
    let fixed = Payment::Fixed(Money::new(8000));

    assert!(state.start_work_at(a, hourly, NOW - 10_000, NOW).is_ok());
    assert!(state.end_work(a, NOW - 4_000).is_ok());
    assert!(state.start_work_at(a, fixed, NOW - 3_000, NOW).is_ok());
    assert!(state.start_work_at(b, fixed, NOW - 9_000, NOW).is_ok());
    assert!(state.end_work(b, NOW - 8_000).is_ok());

    let data = state.snapshot();
    let reloaded = State::new_at(data, NOW).unwrap();

    assert_eq!(reloaded.all_project_ids(), state.all_project_ids());
    let old_projects = state.all_projects();
    let new_projects = reloaded.all_projects();
    assert_eq!(new_projects.len(), old_projects.len());
    for i in 0..old_projects.len() {
        let po = &old_projects[i];
        let pn = &new_projects[i];
        assert_eq!(pn.id(), po.id());
        assert_eq!(pn.name(), po.name());
        assert_eq!(pn.description(), po.description());
        let so = po.complete_work_slices();
        let sn = pn.complete_work_slices();
        assert_eq!(sn.len(), so.len());
        for k in 0..so.len() {
            assert_eq!(sn[k].id(), so[k].id());
            assert_eq!(sn[k].start(), so[k].start());
            assert_eq!(sn[k].completion(), so[k].completion());
            assert_eq!(sn[k].payment(), so[k].payment());
            assert!(almost_equal(
                sn[k].calculate_payment().as_units() as f64 / UNITS_PER_PENCE as f64,
                so[k].calculate_payment().as_units() as f64 / UNITS_PER_PENCE as f64,
            ));
        }
        match (pn.current_work_slice(), po.current_work_slice()) {
            (Some(cn), Some(co)) => {
                assert_eq!(cn.id(), co.id());
                assert_eq!(cn.start(), co.start());
                assert_eq!(cn.payment(), co.payment());
            }
            (None, None) => {}
            _ => panic!("open slice not reproduced"),
        }
    }
    // Ids issued after a reload never collide with loaded ones.
    let mut reloaded = reloaded;
    let c = reloaded.new_project(String::from("gamma"), String::from("third"));
    assert!(c.inner() > b.inner());
}

#[test]
fn loading_validates_the_snapshot() {
    let fee = Payment::Fixed(Money::new(10));
    let good = ProjectData {
        name: String::from("alpha"),
        description: String::from("first"),
        work_slices: vec![CompleteWorkSliceData {
            start: NOW - 5_000,
            end: NOW - 1_000,
            payment: fee,
            id: 1,
        }],
        current_slice: Some(IncompleteWorkSliceData { start: NOW - 500, payment: fee, id: 2 }),
        id: 1,
    };
    assert!(State::new_at(vec![good.clone()], NOW).is_ok());

    // A slice whose end is not after its start is a hard load error.
    let mut bad_end = good.clone();
    bad_end.work_slices[0].end = bad_end.work_slices[0].start;
    assert!(matches!(
        State::new_at(vec![bad_end], NOW),
        Err(StateInitError::ProjectLoadError(_))
    ));

    // A slice starting in the future is a hard load error.
    let mut bad_start = good.clone();
    bad_start.current_slice = Some(IncompleteWorkSliceData { start: NOW + 1, payment: fee, id: 2 });
    assert!(matches!(
        State::new_at(vec![bad_start], NOW),
        Err(StateInitError::ProjectLoadError(_))
    ));

    // Duplicate project ids are refused.
    let mut twin = good.clone();
    twin.work_slices[0].id = 3;
    twin.current_slice = Some(IncompleteWorkSliceData { start: NOW - 500, payment: fee, id: 4 });
    assert_eq!(
        State::new_at(vec![good.clone(), twin], NOW).unwrap_err(),
        StateInitError::DuplicateProjectId
    );

    // Duplicate work-slice ids, across projects, are refused.
    let mut other = good.clone();
    other.id = 2;
    assert_eq!(
        State::new_at(vec![good.clone(), other], NOW).unwrap_err(),
        StateInitError::DuplicateWorkSliceId
    );

    // Duplicate work-slice ids within one project are refused too.
    let mut inner_dup = good.clone();
    inner_dup.current_slice =
        Some(IncompleteWorkSliceData { start: NOW - 500, payment: fee, id: 1 });
    assert_eq!(
        State::new_at(vec![inner_dup], NOW).unwrap_err(),
        StateInitError::DuplicateWorkSliceId
    );

    // An empty snapshot loads to an empty state, at an explicit
    // reading and against the real clock alike.
    let empty = State::new_at(Vec::new(), NOW).unwrap();
    assert_eq!(empty.all_projects().len(), 0);
    assert!(State::new(Vec::new()).is_ok());

    // An invalid record is reported before any duplicate id: here the
    // snapshot has both a bad end time and two projects sharing an id.
    let mut bad_and_dup = good.clone();
    bad_and_dup.work_slices[0].end = bad_and_dup.work_slices[0].start;
    assert!(matches!(
        State::new_at(vec![bad_and_dup, good.clone()], NOW),
        Err(StateInitError::ProjectLoadError(_))
    ));

    // Duplicate project ids are reported before duplicate work-slice
    // ids when a snapshot has both.
    let twin_all = good.clone();
    assert_eq!(
        State::new_at(vec![good.clone(), twin_all], NOW).unwrap_err(),
        StateInitError::DuplicateProjectId
    );
}

#[test]
fn hourly_accrual_end_to_end() {
    // Create a project, work five seconds at 800 pence per hour, end
    // the work: one completed slice, at least five seconds long,
    // worth about 1.11 pence.
    let mut state = State::empty();
    let id = state.new_project(String::from("alpha"), String::from("first"));
    assert!(state
        .start_work_at(id, Payment::Hourly(Money::new(800)), NOW - 5_000, NOW)
        .is_ok());
    assert!(state.end_work(id, NOW).is_ok());

    let project = state.project_from_id(id).unwrap();
    let slices = project.complete_work_slices();
    assert_eq!(slices.len(), 1);
    assert!(project.current_work_slice().is_none());
    let slice = &slices[0];
    assert!(slice.duration() >= 5_000);
    let pence = slice.calculate_payment().as_units() as f64 / UNITS_PER_PENCE as f64;
    assert!(almost_equal(pence, 800.0 * 5.0 / 3600.0));
    let total = project.total_payment().as_units() as f64 / UNITS_PER_PENCE as f64;
    assert!(almost_equal(total, pence));
}

#[test]
fn now_based_operations() {
    // The clock-reading entry points behave like the explicit-time
    // ones: starting in the past succeeds, and completing succeeds
    // once the clock has moved past the start.
    let mut state = State::empty();
    let id = state.new_project(String::from("alpha"), String::from("first"));
    assert!(state.start_work(id, Payment::Hourly(Money::new(100)), NOW - 1_000).is_ok());
    assert_eq!(
        state.start_work(id, Payment::Hourly(Money::new(100)), NOW - 1_000),
        Err(WorkStartError::AlreadyStarted)
    );

    let mut project = track_work::project::Project::new(
        String::from("beta"),
        String::from("second"),
        track_work::project::ProjectId::new(7),
    );
    assert!(project.start_work_now(Payment::Fixed(Money::new(25)), WorkSliceId::new(9)).is_ok());
    assert!(project.start_work_now(Payment::Fixed(Money::new(25)), WorkSliceId::new(10)).is_err());
    // The clock may not have advanced past the start within the same
    // millisecond; retry until it has.
    loop {
        match project.complete_work_now() {
            Ok(()) => break,
            Err(track_work::errors::CompleteWorkError::EndTimeTooEarly) => continue,
            Err(track_work::errors::CompleteWorkError::NoWorkToComplete) => {
                panic!("open slice lost")
            }
        }
    }
    assert_eq!(project.complete_work_slices().len(), 1);
    assert_eq!(
        project.complete_work_now(),
        Err(track_work::errors::CompleteWorkError::NoWorkToComplete)
    );
}

#[test]
fn local_config_store() {
    let mut config = LocalConfig::new();
    let a = config.create_new_project(String::from("alpha"), String::from("first"));
    let b = config.create_new_project(String::from("beta"), String::from("second"));
    assert_ne!(a, b);
    assert_eq!(config.project_ids(), vec![a, b]);
    assert_eq!(config.project_from_id(a).unwrap().name(), "alpha");
    assert!(config.remove_project(a));
    assert!(config.project_from_id(a).is_none());
    assert!(!config.remove_project(a));
    // Ids are never reused after removal.
    let c = config.create_new_project(String::from("gamma"), String::from("third"));
    assert!(c.inner() > b.inner());
}
