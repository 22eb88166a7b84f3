//! Activities of a user's day: where each takes place, when it starts and
//! how long it lasts.

use vstd::prelude::*;
use crate::time::{in_range, TimeDelta, Timestamp};
use crate::types::{ActivityType, RoomId};

verus! {

/// One activity of a daily schedule.
#[derive(Clone, Copy, Debug, PartialEq, Eq, Structural)]
pub struct ScheduledActivity {
    /// What the user does.
    pub activity_type: ActivityType,
    /// The room it takes place in.
    pub target_room: RoomId,
    /// When it starts.
    pub start_time: Timestamp,
    /// How long it lasts.
    pub duration: TimeDelta,
}

/// The instant, in milliseconds, at which the activity ends.
pub open spec fn end_millis(a: ScheduledActivity) -> int {
    a.start_time.millis + a.duration.millis
}

/// Whether no activity of the schedule starts before the one before it ends.
pub open spec fn without_overlap(s: Seq<ScheduledActivity>) -> bool {
    forall|i: int| 1 <= i < s.len() ==> #[trigger] s[i].start_time.millis >= end_millis(s[i - 1])
}

/// Whether each activity starts no earlier than every one before it.
pub open spec fn starts_in_order(s: Seq<ScheduledActivity>) -> bool {
    forall|i: int, j: int| #![trigger s[i], s[j]] 0 <= i <= j < s.len() ==> s[i].start_time.millis <= s[j].start_time.millis
}

/// Whether no activity of the schedule lasts a negative time.
pub open spec fn durations_nonnegative(s: Seq<ScheduledActivity>) -> bool {
    forall|i: int| 0 <= i < s.len() ==> (#[trigger] s[i]).duration.millis >= 0
}

/// A schedule without overlap, whose activities last no negative time, is
/// in start order.
pub proof fn law_without_overlap_starts_in_order(s: Seq<ScheduledActivity>)
    requires
        without_overlap(s),
        durations_nonnegative(s),
    ensures
        starts_in_order(s),
    decreases s.len(),
{
    if s.len() > 0 {
        let p = s.drop_last();
        assert forall|i: int| 1 <= i < p.len() implies #[trigger] p[i].start_time.millis >= end_millis(p[i - 1]) by {
            assert(p[i] == s[i] && p[i - 1] == s[i - 1]);
        }
        assert forall|i: int| 0 <= i < p.len() implies (#[trigger] p[i]).duration.millis >= 0 by {
            assert(p[i] == s[i]);
        }
        law_without_overlap_starts_in_order(p);
        let last = s.len() - 1;
        assert forall|i: int, j: int| 0 <= i <= j < s.len() implies #[trigger] s[i].start_time.millis <= #[trigger] s[j].start_time.millis by {
            if j < last {
                assert(s[i] == p[i] && s[j] == p[j]);
            } else if i < j {
                assert(s[j].start_time.millis >= end_millis(s[j - 1]));
                assert(s[j - 1].duration.millis >= 0);
                assert(s[i] == p[i] && s[j - 1] == p[j - 1]);
                assert(p[i].start_time.millis <= p[j - 1].start_time.millis);
            }
        }
    }
}

/// Whether the activity's start, length and end lie in the range that
/// instants keep to.
pub open spec fn activity_in_range(a: ScheduledActivity) -> bool {
    &&& in_range(a.start_time.millis as int)
    &&& in_range(a.duration.millis as int)
    &&& in_range(end_millis(a))
}

/// Whether every activity of the schedule lies in range.
pub open spec fn schedule_in_range(s: Seq<ScheduledActivity>) -> bool {
    forall|i: int| 0 <= i < s.len() ==> activity_in_range(#[trigger] s[i])
}

/// The rooms of the schedule, in order.
pub open spec fn schedule_rooms(s: Seq<ScheduledActivity>) -> Seq<RoomId> {
    s.map_values(|a: ScheduledActivity| a.target_room)
}

/// How many activities of the schedule are of the kind.
pub open spec fn count_kind(s: Seq<ScheduledActivity>, t: ActivityType) -> nat
    decreases s.len(),
{
    if s.len() == 0 {
        0
    } else {
        count_kind(s.drop_last(), t) + if s.last().activity_type == t { 1nat } else { 0nat }
    }
}

/// Adding an activity adds one to the count of its kind and leaves the others.
pub proof fn lemma_count_kind_push(s: Seq<ScheduledActivity>, a: ScheduledActivity)
    ensures
        forall|t: ActivityType| #[trigger] count_kind(s.push(a), t) == count_kind(s, t) + if a.activity_type == t { 1nat } else { 0nat },
{
    assert(s.push(a).drop_last() =~= s);
}

/// The schedule, in start order, with the activity inserted after every
/// activity that starts no later than it.
pub open spec fn insert_by_start(s: Seq<ScheduledActivity>, a: ScheduledActivity) -> Seq<ScheduledActivity>
    decreases s.len(),
{
    if s.len() == 0 {
        seq![a]
    } else if s.last().start_time.millis <= a.start_time.millis {
        s.push(a)
    } else {
        insert_by_start(s.drop_last(), a).push(s.last())
    }
}

/// The schedule ordered by start time, activities that start at the same
/// instant keeping the order they had.
pub open spec fn sort_by_start(s: Seq<ScheduledActivity>) -> Seq<ScheduledActivity>
    decreases s.len(),
{
    if s.len() == 0 {
        s
    } else {
        insert_by_start(sort_by_start(s.drop_last()), s.last())
    }
}

/// Whether no activity of the schedule starts before one ahead of it.
pub open spec fn starts_nondecreasing(s: Seq<ScheduledActivity>) -> bool {
    forall|i: int, j: int| #![trigger s[i], s[j]] 0 <= i < j < s.len() ==> s[i].start_time.millis <= s[j].start_time.millis
}

/// Inserting by start adds the activity to what the schedule holds.
proof fn lemma_insert_by_start_multiset(s: Seq<ScheduledActivity>, a: ScheduledActivity)
    ensures
        insert_by_start(s, a).to_multiset() =~= s.to_multiset().insert(a),
        insert_by_start(s, a).len() == s.len() + 1,
    decreases s.len(),
{
    broadcast use vstd::seq_lib::group_to_multiset_ensures;
    if s.len() == 0 {
        assert(seq![a] =~= Seq::<ScheduledActivity>::empty().push(a));
    } else if s.last().start_time.millis <= a.start_time.millis {
    } else {
        let p = s.drop_last();
        lemma_insert_by_start_multiset(p, a);
        assert(p.push(s.last()) =~= s);
    }
}

/// Inserting by start keeps a schedule in start order.
proof fn lemma_insert_by_start_sorted(s: Seq<ScheduledActivity>, a: ScheduledActivity)
    requires
        starts_nondecreasing(s),
    ensures
        starts_nondecreasing(insert_by_start(s, a)),
    decreases s.len(),
{
    broadcast use vstd::seq_lib::group_to_multiset_ensures;
    if s.len() == 0 {
    } else if s.last().start_time.millis <= a.start_time.millis {
        let r = s.push(a);
        assert forall|i: int, j: int| #![trigger r[i], r[j]] 0 <= i < j < r.len() implies r[i].start_time.millis <= r[j].start_time.millis by {
            if j == s.len() {
                if i < s.len() - 1 {
                    assert(s[i].start_time.millis <= s[s.len() - 1].start_time.millis);
                }
            }
        }
    } else {
        let p = s.drop_last();
        let l = s.last();
        assert forall|i: int, j: int| #![trigger p[i], p[j]] 0 <= i < j < p.len() implies p[i].start_time.millis <= p[j].start_time.millis by {
            assert(p[i] == s[i] && p[j] == s[j]);
        }
        lemma_insert_by_start_sorted(p, a);
        lemma_insert_by_start_multiset(p, a);
        let q = insert_by_start(p, a);
        let r = q.push(l);
        assert forall|i: int, j: int| #![trigger r[i], r[j]] 0 <= i < j < r.len() implies r[i].start_time.millis <= r[j].start_time.millis by {
            if j == q.len() {
                let x = q[i];
                assert(q.contains(x));
                assert(q.to_multiset().count(x) > 0);
                assert(x == a || p.to_multiset().count(x) > 0);
                if x != a {
                    assert(p.contains(x));
                    let k = choose|k: int| 0 <= k < p.len() && p[k] == x;
                    assert(s[k] == x);
                    assert(s[k].start_time.millis <= s[s.len() - 1].start_time.millis);
                }
            } else {
                assert(r[i] == q[i] && r[j] == q[j]);
            }
        }
    }
}

/// Ordering by start time lays out the same activities, each starting no
/// earlier than the one before it.
pub proof fn law_sort_by_start_orders_a_permutation(s: Seq<ScheduledActivity>)
    ensures
        sort_by_start(s).to_multiset() =~= s.to_multiset(),
        sort_by_start(s).len() == s.len(),
        starts_nondecreasing(sort_by_start(s)),
    decreases s.len(),
{
    broadcast use vstd::seq_lib::group_to_multiset_ensures;
    if s.len() > 0 {
        let p = s.drop_last();
        law_sort_by_start_orders_a_permutation(p);
        lemma_insert_by_start_multiset(sort_by_start(p), s.last());
        lemma_insert_by_start_sorted(sort_by_start(p), s.last());
        assert(p.push(s.last()) =~= s);
    }
}

/// Inserting by start past an activity that starts later than the one inserted.
proof fn lemma_insert_by_start_step(p: Seq<ScheduledActivity>, j: int, a: ScheduledActivity)
    requires
        0 < j <= p.len(),
        p[j - 1].start_time.millis > a.start_time.millis,
    ensures
        insert_by_start(p.take(j), a) + p.skip(j) =~= insert_by_start(p.take(j - 1), a) + p.skip(j - 1),
{
    assert(p.take(j).drop_last() =~= p.take(j - 1));
    assert(p.take(j).last() == p[j - 1]);
    let q = insert_by_start(p.take(j - 1), a);
    assert(p.skip(j - 1) =~= seq![p[j - 1]] + p.skip(j));
    assert(q.push(p[j - 1]) + p.skip(j) =~= q + (seq![p[j - 1]] + p.skip(j)));
}

impl ScheduledActivity {
    /// An activity of the given kind in the room, from `start_time` for `duration`.
    pub fn new(activity_type: ActivityType, target_room: RoomId, start_time: Timestamp, duration: TimeDelta) -> (a: Self)
        ensures
            a.activity_type == activity_type,
            a.target_room == target_room,
            a.start_time == start_time,
            a.duration == duration,
    {
        ScheduledActivity { activity_type, target_room, start_time, duration }
    }

    /// The schedule ordered by start time; activities that start at the
    /// same instant keep the order they had.
    pub fn sort_by_start_time(schedule: Vec<ScheduledActivity>) -> (sorted: Vec<ScheduledActivity>)
        ensures
            sorted@ == sort_by_start(schedule@),
    {
        let mut sorted: Vec<ScheduledActivity> = Vec::new();
        let mut i: usize = 0;
        assert(schedule@.take(0) =~= Seq::<ScheduledActivity>::empty());
        while i < schedule.len()
            invariant
                i <= schedule@.len(),
                sorted@ == sort_by_start(schedule@.take(i as int)),
            decreases schedule.len() - i,
        {
            let a = schedule[i];
            let ghost p = sorted@;
            proof {
                let next = schedule@.take(i as int + 1);
                assert(next.drop_last() =~= schedule@.take(i as int));
                assert(next.last() == a);
                assert(p.take(p.len() as int) =~= p);
                assert(p.skip(p.len() as int) =~= Seq::<ScheduledActivity>::empty());
            }
            sorted.push(a);
            let mut j: usize = sorted.len() - 1;
            while j > 0 && sorted[j - 1].start_time.millis > a.start_time.millis
                invariant
                    j <= p.len(),
                    sorted@ == p.take(j as int).push(a) + p.skip(j as int),
                    insert_by_start(p, a) == insert_by_start(p.take(j as int), a) + p.skip(j as int),
                decreases j,
            {
                proof {
                    assert(sorted@[j - 1] == p[j - 1]);
                    lemma_insert_by_start_step(p, j as int, a);
                }
                let earlier = sorted[j - 1];
                sorted.set(j - 1, a);
                sorted.set(j, earlier);
                proof {
                    assert(sorted@ =~= p.take(j - 1).push(a) + p.skip(j - 1));
                }
                j = j - 1;
            }
            proof {
                if j > 0 {
                    assert(sorted@[j - 1] == p[j - 1]);
                    assert(p.take(j as int).last() == p[j - 1]);
                }
                assert(insert_by_start(p.take(j as int), a) == p.take(j as int).push(a));
            }
            i = i + 1;
        }
        assert(schedule@.take(schedule@.len() as int) =~= schedule@);
        sorted
    }

    /// When the activity ends: its start plus its length.
    pub fn end_time(&self) -> (t: Timestamp)
        requires
            i64::MIN <= end_millis(*self) <= i64::MAX,
        ensures
            t.millis == end_millis(*self),
    {
        self.start_time.plus(self.duration)
    }
}

} // verus!
