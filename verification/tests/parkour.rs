use parkour_lobby::parkour::{
    check_for_parkour_start, checkpoint_progress, first_invalid_course, item_interactions,
    mark_slot_changed,
    update_parkour_actionbar_status, update_parkour_tracker, BlockPos, CancelOutcome, Interaction,
    ParkourCourse, ParkourTracker, TrackerEvent, CANCEL_ITEM_SLOT,
};

fn pos(x: i64, y: i64, z: i64) -> BlockPos {
    BlockPos { x, y, z }
}

fn course(points: &[(i64, i64, i64)]) -> ParkourCourse {
    ParkourCourse {
        name: Vec::new(),
        checkpoints: points.iter().map(|&(x, y, z)| pos(x, y, z)).collect(),
    }
}

fn courses() -> Vec<ParkourCourse> {
    vec![
        course(&[(0, 64, 0), (5, 65, 0), (10, 66, 0)]),
        course(&[(100, 70, 100), (104, 72, 100)]),
        course(&[(0, 64, 0), (-5, 65, 0)]),
    ]
}

#[test]
fn courses_need_a_start_and_a_finish() {
    assert_eq!(first_invalid_course(&courses()), None);
    let mut bad = courses();
    bad.push(course(&[(1, 2, 3)]));
    bad.push(course(&[]));
    assert_eq!(first_invalid_course(&bad), Some(3));
    assert_eq!(first_invalid_course(&Vec::new()), None);
}

#[test]
fn stepping_on_a_start_begins_the_first_course_there() {
    let cs = courses();
    let t = check_for_parkour_start(&cs, pos(0, 64, 0)).unwrap();
    assert_eq!(t, ParkourTracker { course_index: 0, checkpoint_index: 0, actionbar_tenths: 0 });
    let t = check_for_parkour_start(&cs, pos(100, 70, 100)).unwrap();
    assert_eq!(t.course_index, 1);
    assert_eq!(check_for_parkour_start(&cs, pos(5, 65, 0)), None);
    assert_eq!(check_for_parkour_start(&cs, pos(0, 65, 0)), None);
}

#[test]
fn checkpoints_are_reached_in_order_until_the_finish() {
    let cs = courses();
    let mut t = check_for_parkour_start(&cs, pos(0, 64, 0)).unwrap();
    // Standing anywhere else, even on a later checkpoint, changes nothing.
    assert_eq!(update_parkour_tracker(&cs, &mut t, pos(10, 66, 0)), TrackerEvent::Unchanged);
    assert_eq!(update_parkour_tracker(&cs, &mut t, pos(0, 64, 0)), TrackerEvent::Unchanged);
    assert_eq!(t.checkpoint_index, 0);
    assert_eq!(
        update_parkour_tracker(&cs, &mut t, pos(5, 65, 0)),
        TrackerEvent::CheckpointReached { reached: 1, total: 2 }
    );
    assert_eq!(t.checkpoint_index, 1);
    assert_eq!(update_parkour_tracker(&cs, &mut t, pos(10, 66, 0)), TrackerEvent::Completed);
    assert_eq!(t.checkpoint_index, 2);
}

#[test]
fn a_two_checkpoint_course_completes_at_once() {
    let cs = courses();
    let mut t = check_for_parkour_start(&cs, pos(100, 70, 100)).unwrap();
    assert_eq!(update_parkour_tracker(&cs, &mut t, pos(104, 72, 100)), TrackerEvent::Completed);
}

#[test]
fn cancelling_is_refused_on_the_start() {
    let cs = courses();
    let t = ParkourTracker { course_index: 1, checkpoint_index: 0, actionbar_tenths: 3 };
    let start = pos(100, 70, 100);
    assert_eq!(
        item_interactions(&cs, Some(t), start, true, Interaction::UseOnBlock),
        CancelOutcome::Refused { resend_slot: true }
    );
    assert_eq!(
        item_interactions(&cs, Some(t), start, true, Interaction::UseItem),
        CancelOutcome::Refused { resend_slot: false }
    );
    assert_eq!(
        item_interactions(&cs, Some(t), start, true, Interaction::UseOnEntity),
        CancelOutcome::Refused { resend_slot: false }
    );
}

#[test]
fn cancelling_elsewhere_ends_the_course() {
    let cs = courses();
    let t = ParkourTracker { course_index: 1, checkpoint_index: 0, actionbar_tenths: 0 };
    assert_eq!(
        item_interactions(&cs, Some(t), pos(101, 70, 100), true, Interaction::UseItem),
        CancelOutcome::Cancelled
    );
    // Without a course the cancel item is simply cleared.
    assert_eq!(
        item_interactions(&cs, None, pos(100, 70, 100), true, Interaction::UseOnBlock),
        CancelOutcome::Cancelled
    );
}

#[test]
fn other_items_and_packets_are_ignored() {
    let cs = courses();
    let t = ParkourTracker { course_index: 0, checkpoint_index: 0, actionbar_tenths: 0 };
    assert_eq!(
        item_interactions(&cs, Some(t), pos(1, 1, 1), false, Interaction::UseItem),
        CancelOutcome::Ignored
    );
    assert_eq!(
        item_interactions(&cs, Some(t), pos(1, 1, 1), true, Interaction::Other),
        CancelOutcome::Ignored
    );
    assert_eq!(CANCEL_ITEM_SLOT, 44);
}

#[test]
fn action_bar_shows_time_and_progress_when_time_changes() {
    let cs = courses();
    let mut t = ParkourTracker { course_index: 0, checkpoint_index: 1, actionbar_tenths: 0 };
    assert_eq!(update_parkour_actionbar_status(&cs, &mut t, 0), None);
    assert_eq!(
        update_parkour_actionbar_status(&cs, &mut t, 123).unwrap(),
        "Parkour - 12.3s (1/2)"
    );
    assert_eq!(t.actionbar_tenths, 123);
    assert_eq!(update_parkour_actionbar_status(&cs, &mut t, 123), None);
    assert_eq!(
        update_parkour_actionbar_status(&cs, &mut t, 7).unwrap(),
        "Parkour - 0.7s (1/2)"
    );
    assert_eq!(
        update_parkour_actionbar_status(&cs, &mut t, 10).unwrap(),
        "Parkour - 1.0s (1/2)"
    );
}

#[test]
fn checkpoint_progress_text() {
    assert_eq!(checkpoint_progress(1, 2), "1/2");
    assert_eq!(checkpoint_progress(10, 250), "10/250");
}

#[test]
fn cancel_slot_is_marked_changed() {
    assert_eq!(mark_slot_changed(0, CANCEL_ITEM_SLOT), 1u64 << 44);
    assert_eq!(mark_slot_changed(0b101, 1), 0b111);
    assert_eq!(mark_slot_changed(u64::MAX, 63), u64::MAX);
    assert_eq!(mark_slot_changed(1u64 << 44, 44), 1u64 << 44);
}

#[test]
fn following_every_checkpoint_completes_the_course() {
    let cs = vec![course(&[(0, 0, 0), (1, 0, 0), (2, 0, 0), (3, 0, 0), (4, 0, 0)])];
    let mut t = check_for_parkour_start(&cs, pos(0, 0, 0)).unwrap();
    let mut events = Vec::new();
    for p in &cs[0].checkpoints[1..] {
        events.push(update_parkour_tracker(&cs, &mut t, *p));
    }
    assert_eq!(
        events,
        vec![
            TrackerEvent::CheckpointReached { reached: 1, total: 4 },
            TrackerEvent::CheckpointReached { reached: 2, total: 4 },
            TrackerEvent::CheckpointReached { reached: 3, total: 4 },
            TrackerEvent::Completed,
        ]
    );
}
