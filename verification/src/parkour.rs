use vstd::prelude::*;

use crate::decimal::{decimal, push_decimal};
use crate::legacy::TextSegment;
use crate::text::StringExecFns;

verus! {

/// The block a position lies in: its coordinates rounded down.
#[derive(Clone, Copy, Debug, PartialEq, Eq, Structural)]
pub struct BlockPos {
    pub x: i64,
    pub y: i64,
    pub z: i64,
}

/// A parkour course: its name and its checkpoints, the first of which is the
/// start and the last the finish.
#[derive(Clone, Debug)]
pub struct ParkourCourse {
    pub name: Vec<TextSegment>,
    pub checkpoints: Vec<BlockPos>,
}

/// A player's progress through a course: the course, the last checkpoint reached,
/// and the elapsed time (in tenths of a second) last shown in the action bar.
#[derive(Clone, Copy, Debug, PartialEq, Eq, Structural)]
pub struct ParkourTracker {
    pub course_index: usize,
    pub checkpoint_index: usize,
    pub actionbar_tenths: u64,
}

/// What a move of a tracked player amounts to.
#[derive(Clone, Copy, Debug, PartialEq, Eq, Structural)]
pub enum TrackerEvent {
    /// The player is not on the next checkpoint.
    Unchanged,
    /// The player reached checkpoint `reached` of the `total` after the start.
    CheckpointReached { reached: usize, total: usize },
    /// The player reached the finish; the course is over.
    Completed,
}

/// The kind of packet with which a player used the item in hand.
#[derive(Clone, Copy, Debug, PartialEq, Eq, Structural)]
pub enum Interaction {
    UseItem,
    UseOnBlock,
    UseOnEntity,
    Other,
}

/// What using the cancel item amounts to.
#[derive(Clone, Copy, Debug, PartialEq, Eq, Structural)]
pub enum CancelOutcome {
    /// Nothing to do.
    Ignored,
    /// Cancelling is refused because the player stands on the start; when
    /// `resend_slot` holds, the cancel item's slot is sent to the client again.
    Refused { resend_slot: bool },
    /// The course is cancelled: the tracker goes and the held item is cleared.
    Cancelled,
}

/// The inventory slot that holds the cancel item during a course.
pub const CANCEL_ITEM_SLOT: u16 = 44;

/// Every course has a start and a finish.
pub open spec fn courses_valid(courses: Seq<ParkourCourse>) -> bool {
    forall|i: int| 0 <= i < courses.len() ==> (#[trigger] courses[i]).checkpoints.len() >= 2
}

/// Every course up to the first that starts at `pos` has a start (every course
/// when none starts there): the courses that a search for `pos` looks at.
pub open spec fn courses_started_until(courses: Seq<ParkourCourse>, pos: BlockPos) -> bool {
    forall|i: int|
        0 <= i < courses.len() && (forall|j: int|
            0 <= j < i ==> (#[trigger] courses[j]).checkpoints.len() >= 1 && course_start(courses, j) != pos)
            ==> (#[trigger] courses[i]).checkpoints.len() >= 1
}

/// The tracker names a course and a checkpoint that has a next one.
pub open spec fn tracker_valid(courses: Seq<ParkourCourse>, t: ParkourTracker) -> bool {
    &&& t.course_index < courses.len()
    &&& t.checkpoint_index + 1 < courses[t.course_index as int].checkpoints.len()
}

/// The start of course `i`.
pub open spec fn course_start(courses: Seq<ParkourCourse>, i: int) -> BlockPos {
    courses[i].checkpoints@[0]
}

/// The first course that starts at `pos`, if any.
pub open spec fn first_course_at(courses: Seq<ParkourCourse>, pos: BlockPos) -> Option<usize>
    decreases courses.len(),
{
    if courses.len() == 0 {
        None
    } else {
        match first_course_at(courses.drop_last(), pos) {
            Some(i) => Some(i),
            None => if course_start(courses, courses.len() - 1) == pos {
                Some((courses.len() - 1) as usize)
            } else {
                None
            },
        }
    }
}

/// The tracker of a player who has just started course `i`.
pub open spec fn started_tracker(i: usize) -> ParkourTracker {
    ParkourTracker { course_index: i, checkpoint_index: 0, actionbar_tenths: 0 }
}

/// A move of a tracked player to `pos`: the tracker after it, and what it amounts to.
pub open spec fn advance(
    courses: Seq<ParkourCourse>,
    t: ParkourTracker,
    pos: BlockPos,
) -> (ParkourTracker, TrackerEvent) {
    let checkpoints = courses[t.course_index as int].checkpoints@;
    let next = t.checkpoint_index + 1;
    if pos == checkpoints[next] {
        let moved = ParkourTracker { checkpoint_index: next as usize, ..t };
        if next == checkpoints.len() - 1 {
            (moved, TrackerEvent::Completed)
        } else {
            (moved, TrackerEvent::CheckpointReached {
                reached: next as usize,
                total: (checkpoints.len() - 1) as usize,
            })
        }
    } else {
        (t, TrackerEvent::Unchanged)
    }
}

/// The index of the first course without both a start and a finish, if any.
pub fn first_invalid_course(courses: &Vec<ParkourCourse>) -> (bad: Option<usize>)
    ensures
        bad is None <==> courses_valid(courses@),
        bad matches Some(i) ==> {
            &&& i < courses@.len()
            &&& courses@[i as int].checkpoints.len() < 2
            &&& forall|j: int| 0 <= j < i ==> (#[trigger] courses@[j]).checkpoints.len() >= 2
        },
{
    let mut i: usize = 0;
    while i < courses.len()
        invariant
            i <= courses@.len(),
            forall|j: int| 0 <= j < i ==> (#[trigger] courses@[j]).checkpoints.len() >= 2,
        decreases courses.len() - i,
    {
        if courses[i].checkpoints.len() < 2 {
            return Some(i);
        }
        i = i + 1;
    }
    None
}

/// The tracker of a player who now stands at `pos`, when `pos` is the start of a
/// course: the first such course, from its start.
pub fn check_for_parkour_start(courses: &Vec<ParkourCourse>, pos: BlockPos) -> (started: Option<ParkourTracker>)
    requires
        courses_started_until(courses@, pos),
    ensures
        started == (match first_course_at(courses@, pos) {
            Some(i) => Some(started_tracker(i)),
            None => None,
        }),
        started matches Some(t) ==> {
            &&& t.course_index < courses@.len()
            &&& course_start(courses@, t.course_index as int) == pos
            &&& forall|j: int| 0 <= j < t.course_index ==> course_start(courses@, j) != pos
        },
        started is None ==> forall|j: int| 0 <= j < courses@.len() ==> course_start(courses@, j) != pos,
        courses_valid(courses@) && started is Some ==> tracker_valid(courses@, started->0),
{
    let mut i: usize = 0;
    while i < courses.len()
        invariant
            i <= courses@.len(),
            courses_started_until(courses@, pos),
            first_course_at(courses@.take(i as int), pos) is None,
            forall|j: int| 0 <= j < i ==> (#[trigger] courses@[j]).checkpoints.len() >= 1 && course_start(courses@, j) != pos,
        decreases courses.len() - i,
    {
        proof {
            assert(courses@.take(i + 1).drop_last() =~= courses@.take(i as int));
            assert(courses@.take(i + 1)[i as int] == courses@[i as int]);
        }
        if courses[i].checkpoints[0] == pos {
            proof {
                lemma_first_course_prefix(courses@, (i + 1) as int, pos);
            }
            return Some(ParkourTracker { course_index: i, checkpoint_index: 0, actionbar_tenths: 0 });
        }
        i = i + 1;
    }
    proof {
        assert(courses@.take(courses@.len() as int) =~= courses@);
    }
    None
}

/// Once found in a prefix, the first course that starts at `pos` stays the first.
proof fn lemma_first_course_prefix(courses: Seq<ParkourCourse>, n: int, pos: BlockPos)
    requires
        0 <= n <= courses.len(),
        first_course_at(courses.take(n), pos) is Some,
    ensures
        first_course_at(courses, pos) == first_course_at(courses.take(n), pos),
    decreases courses.len() - n,
{
    if n < courses.len() {
        assert(courses.take(n + 1).drop_last() =~= courses.take(n));
        lemma_first_course_prefix(courses, n + 1, pos);
    } else {
        assert(courses.take(n) =~= courses);
    }
}

/// Moves the tracked player to `pos`: when it is the next checkpoint, the player
/// reaches it, and the course is over when it is the finish.
pub fn update_parkour_tracker(
    courses: &Vec<ParkourCourse>,
    tracker: &mut ParkourTracker,
    pos: BlockPos,
) -> (event: TrackerEvent)
    requires
        tracker_valid(courses@, *old(tracker)),
    ensures
        (*final(tracker), event) == advance(courses@, *old(tracker), pos),
        event !is Completed ==> tracker_valid(courses@, *final(tracker)),
        ({
            let cps = courses@[old(tracker).course_index as int].checkpoints@;
            let next = old(tracker).checkpoint_index + 1;
            &&& pos == cps[next] && next + 1 < cps.len() ==> event == TrackerEvent::CheckpointReached {
                reached: next as usize,
                total: (cps.len() - 1) as usize,
            }
            &&& pos == cps[next] && next + 1 == cps.len() ==> event == TrackerEvent::Completed
            &&& event is Completed ==> pos == cps[cps.len() - 1] && final(tracker).checkpoint_index == cps.len() - 1
            &&& pos == cps[next] ==> final(tracker).checkpoint_index == next
                && final(tracker).course_index == old(tracker).course_index
                && final(tracker).actionbar_tenths == old(tracker).actionbar_tenths
            &&& pos != cps[next] ==> event == TrackerEvent::Unchanged && *final(tracker) == *old(tracker)
        }),
{
    proof {
        lemma_move_outcome(courses@, *tracker, pos);
    }
    let checkpoints = &courses[tracker.course_index].checkpoints;
    let count = checkpoints.len();
    let next = tracker.checkpoint_index + 1;
    if pos == checkpoints[next] {
        tracker.checkpoint_index = next;
        if next == count - 1 {
            TrackerEvent::Completed
        } else {
            TrackerEvent::CheckpointReached { reached: next, total: count - 1 }
        }
    } else {
        TrackerEvent::Unchanged
    }
}

/// What using the item in hand with `interaction` amounts to, for a player at
/// `pos` with an optional course tracker: with the cancel item, cancelling is
/// refused on the start of the player's course and done anywhere else.
pub fn item_interactions(
    courses: &Vec<ParkourCourse>,
    tracker: Option<ParkourTracker>,
    pos: BlockPos,
    holds_cancel_item: bool,
    interaction: Interaction,
) -> (outcome: CancelOutcome)
    requires
        interaction !is Other && holds_cancel_item && tracker is Some ==> {
            let t = tracker->0;
            t.course_index < courses@.len() && courses@[t.course_index as int].checkpoints.len() >= 1
        },
    ensures
        outcome == (if interaction is Other || !holds_cancel_item {
            CancelOutcome::Ignored
        } else if tracker matches Some(t) && course_start(courses@, t.course_index as int) == pos {
            CancelOutcome::Refused { resend_slot: interaction is UseOnBlock }
        } else {
            CancelOutcome::Cancelled
        }),
{
    match interaction {
        Interaction::Other => CancelOutcome::Ignored,
        _ => {
            if !holds_cancel_item {
                return CancelOutcome::Ignored;
            }
            let on_start = match tracker {
                Some(t) => courses[t.course_index].checkpoints[0] == pos,
                None => false,
            };
            if on_start {
                let resend_slot = match interaction {
                    Interaction::UseOnBlock => true,
                    _ => false,
                };
                CancelOutcome::Refused { resend_slot }
            } else {
                CancelOutcome::Cancelled
            }
        },
    }
}

/// The inventory's record of changed slots with `slot` marked as well, so that
/// the slot's item is sent to the client again.
pub fn mark_slot_changed(changed: u64, slot: u16) -> (marked: u64)
    requires
        slot < 64,
    ensures
        marked == changed | (1u64 << slot),
        (marked >> slot) & 1 == 1,
        forall|b: u64| b < 64 && b != slot ==> (#[trigger] (marked >> b)) & 1 == (changed >> b) & 1,
{
    let marked = changed | (1u64 << slot);
    proof {
        let s = slot as u64;
        assert((marked >> s) & 1 == 1) by (bit_vector)
            requires
                marked == changed | (1u64 << s),
                s < 64;
        assert forall|b: u64| b < 64 && b != slot implies (#[trigger] (marked >> b)) & 1 == (changed >> b) & 1 by {
            assert((marked >> b) & 1 == (changed >> b) & 1) by (bit_vector)
                requires
                    marked == changed | (1u64 << s),
                    s < 64,
                    b < 64,
                    b != s;
        }
    }
    marked
}

/// The action bar text: elapsed seconds with one decimal, then the checkpoints
/// reached out of those after the start.
pub open spec fn actionbar_text(tenths: nat, reached: nat, total: nat) -> Seq<char> {
    "Parkour - "@ + decimal(tenths / 10) + "."@ + decimal(tenths % 10) + "s ("@ + decimal(reached)
        + "/"@ + decimal(total) + ")"@
}

/// The text "reached/total".
pub open spec fn progress_text(reached: nat, total: nat) -> Seq<char> {
    decimal(reached) + "/"@ + decimal(total)
}

/// The text "reached/total" shown when a checkpoint is reached.
pub fn checkpoint_progress(reached: usize, total: usize) -> (s: String)
    ensures
        s@ == progress_text(reached as nat, total as nat),
{
    let mut s = String::new();
    push_decimal(&mut s, reached as u64);
    s.append("/");
    push_decimal(&mut s, total as u64);
    assert(s@ =~= progress_text(reached as nat, total as nat));
    s
}

/// The action bar text to show when the elapsed time, in tenths of a second, has
/// changed since it was last shown; the tracker then records it.
pub fn update_parkour_actionbar_status(
    courses: &Vec<ParkourCourse>,
    tracker: &mut ParkourTracker,
    elapsed_tenths: u64,
) -> (text: Option<String>)
    requires
        elapsed_tenths != old(tracker).actionbar_tenths ==> old(tracker).course_index < courses@.len()
            && courses@[old(tracker).course_index as int].checkpoints.len() >= 1,
    ensures
        elapsed_tenths == old(tracker).actionbar_tenths ==> text is None && *final(tracker) == *old(tracker),
        elapsed_tenths != old(tracker).actionbar_tenths ==> {
            &&& *final(tracker) == ParkourTracker { actionbar_tenths: elapsed_tenths, ..*old(tracker) }
            &&& text matches Some(s) && s@ == actionbar_text(
                elapsed_tenths as nat,
                old(tracker).checkpoint_index as nat,
                (courses@[old(tracker).course_index as int].checkpoints.len() - 1) as nat,
            )
        },
{
    if elapsed_tenths == tracker.actionbar_tenths {
        return None;
    }
    tracker.actionbar_tenths = elapsed_tenths;
    let total = courses[tracker.course_index].checkpoints.len() - 1;
    let mut s = String::from_str("Parkour - ");
    push_decimal(&mut s, elapsed_tenths / 10);
    s.append(".");
    push_decimal(&mut s, elapsed_tenths % 10);
    s.append("s (");
    push_decimal(&mut s, tracker.checkpoint_index as u64);
    s.append("/");
    push_decimal(&mut s, total as u64);
    s.append(")");
    assert(s@ =~= actionbar_text(
        elapsed_tenths as nat,
        tracker.checkpoint_index as nat,
        total as nat,
    ));
    Some(s)
}

/// Moves the tracked player along `path`, one position after the other: the
/// tracker after the last move, and what each move amounted to.
pub open spec fn follow(
    courses: Seq<ParkourCourse>,
    t: ParkourTracker,
    path: Seq<BlockPos>,
) -> (ParkourTracker, Seq<TrackerEvent>)
    decreases path.len(),
{
    if path.len() == 0 {
        (t, Seq::empty())
    } else {
        let (before, events) = follow(courses, t, path.drop_last());
        let (after, event) = advance(courses, before, path.last());
        (after, events.push(event))
    }
}

/// The events of reaching checkpoints `1` to `k` out of `total`.
pub open spec fn reached_events(k: nat, total: nat) -> Seq<TrackerEvent> {
    Seq::new(k, |j: int| TrackerEvent::CheckpointReached { reached: (j + 1) as usize, total: total as usize })
}

proof fn lemma_follow_prefix(courses: Seq<ParkourCourse>, i: usize, k: nat)
    requires
        courses_valid(courses),
        i < courses.len(),
        k + 2 <= courses[i as int].checkpoints.len(),
    ensures
        follow(courses, started_tracker(i), courses[i as int].checkpoints@.subrange(1, k + 1 as int)) == (
            ParkourTracker { course_index: i, checkpoint_index: k as usize, actionbar_tenths: 0 },
            reached_events(k, (courses[i as int].checkpoints.len() - 1) as nat),
        ),
    decreases k,
{
    let cps = courses[i as int].checkpoints@;
    let total = (cps.len() - 1) as nat;
    if k == 0 {
        assert(cps.subrange(1, 1) =~= Seq::<BlockPos>::empty());
        assert(reached_events(0, total) =~= Seq::<TrackerEvent>::empty());
    } else {
        lemma_follow_prefix(courses, i, (k - 1) as nat);
        let path = cps.subrange(1, k + 1 as int);
        assert(path.drop_last() =~= cps.subrange(1, k as int));
        assert(path.last() == cps[k as int]);
        assert(reached_events((k - 1) as nat, total).push(
            TrackerEvent::CheckpointReached { reached: k as usize, total: total as usize },
        ) =~= reached_events(k, total));
    }
}

/// A player who starts a course and then steps on each of its checkpoints in
/// order reaches every checkpoint between start and finish, in order, and then
/// completes the course with the last step.
pub proof fn lemma_course_run(courses: Seq<ParkourCourse>, i: usize)
    requires
        courses_valid(courses),
        i < courses.len(),
    ensures
        ({
            let cps = courses[i as int].checkpoints@;
            let total = (cps.len() - 1) as nat;
            follow(courses, started_tracker(i), cps.subrange(1, cps.len() as int)) == (
                ParkourTracker { course_index: i, checkpoint_index: total as usize, actionbar_tenths: 0 },
                reached_events((total - 1) as nat, total).push(TrackerEvent::Completed),
            )
        }),
{
    let cps = courses[i as int].checkpoints@;
    let total = (cps.len() - 1) as nat;
    assert(courses[i as int].checkpoints.len() >= 2);
    lemma_follow_prefix(courses, i, (total - 1) as nat);
    let path = cps.subrange(1, cps.len() as int);
    assert(path.drop_last() =~= cps.subrange(1, total as int));
}

/// A tracker stays valid through every move until the course is completed: a
/// move that does not complete the course leaves a valid tracker, and a move
/// that is not onto the next checkpoint changes nothing.
pub proof fn lemma_advance_keeps_tracker_valid(
    courses: Seq<ParkourCourse>,
    t: ParkourTracker,
    pos: BlockPos,
)
    requires
        tracker_valid(courses, t),
    ensures
        advance(courses, t, pos).1 !is Completed ==> tracker_valid(courses, advance(courses, t, pos).0),
        advance(courses, t, pos).1 is Unchanged <==> pos != courses[t.course_index as int].checkpoints@[t.checkpoint_index + 1],
        advance(courses, t, pos).1 is Unchanged ==> advance(courses, t, pos).0 == t,
        advance(courses, t, pos).0.checkpoint_index >= t.checkpoint_index,
{
}

/// A course that a player starts gives a valid tracker.
pub proof fn lemma_started_tracker_valid(courses: Seq<ParkourCourse>, pos: BlockPos)
    requires
        courses.len() <= usize::MAX,
        courses_valid(courses),
        first_course_at(courses, pos) is Some,
    ensures
        tracker_valid(courses, started_tracker(first_course_at(courses, pos)->0)),
        course_start(courses, first_course_at(courses, pos)->0 as int) == pos,
    decreases courses.len(),
{
    let n = courses.len();
    let prefix = courses.drop_last();
    assert forall|j: int| 0 <= j < prefix.len() implies (#[trigger] prefix[j]).checkpoints.len() >= 2 by {
        assert(prefix[j] == courses[j]);
    }
    if first_course_at(prefix, pos) is Some {
        lemma_started_tracker_valid(prefix, pos);
        let i = first_course_at(prefix, pos)->0 as int;
        assert(prefix[i] == courses[i]);
        assert(first_course_at(courses, pos) == first_course_at(prefix, pos));
        assert(course_start(prefix, i) == course_start(courses, i));
    } else {
        assert(courses[n - 1].checkpoints.len() >= 2);
    }
}

/// What one move of a tracked player does, in terms of the course's checkpoints:
/// a move onto the next checkpoint moves the tracker on by exactly one checkpoint,
/// keeping its course and its action bar time; it completes the course exactly when
/// that checkpoint is the last one, and otherwise reports the checkpoint reached
/// out of the checkpoints after the start. Any other move changes nothing.
pub proof fn lemma_move_outcome(courses: Seq<ParkourCourse>, t: ParkourTracker, pos: BlockPos)
    requires
        tracker_valid(courses, t),
    ensures
        ({
            let cps = courses[t.course_index as int].checkpoints@;
            let next = t.checkpoint_index + 1;
            let (after, event) = advance(courses, t, pos);
            &&& pos == cps[next] ==> after.checkpoint_index == next && after.course_index == t.course_index
                && after.actionbar_tenths == t.actionbar_tenths
            &&& pos == cps[next] && next + 1 < cps.len() ==> event == TrackerEvent::CheckpointReached {
                reached: next as usize,
                total: (cps.len() - 1) as usize,
            }
            &&& pos == cps[next] && next + 1 == cps.len() ==> event == TrackerEvent::Completed
            &&& event is Completed ==> pos == cps[cps.len() - 1] && after.checkpoint_index == cps.len() - 1
            &&& event matches TrackerEvent::CheckpointReached { reached, total } ==> {
                &&& pos == cps[next]
                &&& reached == next
                &&& reached < total
                &&& total + 1 == cps.len()
            }
            &&& pos != cps[next] ==> event == TrackerEvent::Unchanged && after == t
        }),
{
    assert(courses[t.course_index as int].checkpoints@.len() == courses[t.course_index as int].checkpoints.len());
}

/// What a move amounts to does not depend on the time shown in the action bar:
/// two trackers that differ only in it give the same event, and trackers that
/// again differ only in it.
pub proof fn lemma_move_ignores_actionbar_time(
    courses: Seq<ParkourCourse>,
    t: ParkourTracker,
    tenths: u64,
    pos: BlockPos,
)
    requires
        tracker_valid(courses, t),
    ensures
        ({
            let u = ParkourTracker { course_index: t.course_index, checkpoint_index: t.checkpoint_index, actionbar_tenths: tenths };
            &&& advance(courses, u, pos).1 == advance(courses, t, pos).1
            &&& advance(courses, u, pos).0.course_index == advance(courses, t, pos).0.course_index
            &&& advance(courses, u, pos).0.checkpoint_index == advance(courses, t, pos).0.checkpoint_index
        }),
{
}

/// All characters of `s` are decimal digits, and there is at least one.
pub open spec fn all_digits(s: Seq<char>) -> bool {
    &&& s.len() >= 1
    &&& forall|i: int| 0 <= i < s.len() ==> crate::decimal::is_digit_char(#[trigger] s[i])
}

/// The progress text is two numbers separated by `/`: read back as decimal
/// numbers, the first is the checkpoint reached and the second the total.
pub proof fn lemma_progress_text_reads_back(reached: nat, total: nat)
    ensures
        exists|a: Seq<char>, b: Seq<char>| {
            &&& progress_text(reached, total) == a + "/"@ + b
            &&& all_digits(a) && all_digits(b)
            &&& crate::decimal::decimal_value(a) == reached
            &&& crate::decimal::decimal_value(b) == total
        },
{
    crate::decimal::lemma_decimal_round_trip(reached);
    crate::decimal::lemma_decimal_round_trip(total);
    let a = decimal(reached);
    let b = decimal(total);
    assert(progress_text(reached, total) == a + "/"@ + b);
}

/// The action bar text is "Parkour - ", the whole seconds, ".", one digit of
/// tenths, "s (", the checkpoint reached, "/", the total, ")": read back as decimal
/// numbers, the seconds are the elapsed tenths divided by ten (with no wrap), the
/// digit is the remaining tenth, and the two counts are the ones given.
pub proof fn lemma_actionbar_text_reads_back(tenths: nat, reached: nat, total: nat)
    ensures
        exists|secs: Seq<char>, tenth: Seq<char>, a: Seq<char>, b: Seq<char>| {
            &&& actionbar_text(tenths, reached, total) == "Parkour - "@ + secs + "."@ + tenth + "s ("@ + a + "/"@
                + b + ")"@
            &&& all_digits(secs) && all_digits(tenth) && all_digits(a) && all_digits(b)
            &&& tenth.len() == 1
            &&& crate::decimal::decimal_value(secs) == tenths / 10
            &&& crate::decimal::decimal_value(tenth) == tenths % 10
            &&& crate::decimal::decimal_value(a) == reached
            &&& crate::decimal::decimal_value(b) == total
        },
{
    crate::decimal::lemma_decimal_round_trip(tenths / 10);
    crate::decimal::lemma_decimal_round_trip(tenths % 10);
    crate::decimal::lemma_decimal_round_trip(reached);
    crate::decimal::lemma_decimal_round_trip(total);
    assert(decimal(tenths % 10).len() == 1);
    let secs = decimal(tenths / 10);
    let tenth = decimal(tenths % 10);
    let a = decimal(reached);
    let b = decimal(total);
    assert(actionbar_text(tenths, reached, total) == "Parkour - "@ + secs + "."@ + tenth + "s ("@ + a + "/"@ + b
        + ")"@);
}

} // verus!
