//! Ordering access events by time.

use vstd::prelude::*;
use crate::events::access_event::AccessEvent;

verus! {

/// The events, in time order, with the event inserted after every event
/// at or before its time.
pub open spec fn insert_by_time(s: Seq<AccessEvent>, a: AccessEvent) -> Seq<AccessEvent>
    decreases s.len(),
{
    if s.len() == 0 {
        seq![a]
    } else if s.last().timestamp.millis <= a.timestamp.millis {
        s.push(a)
    } else {
        insert_by_time(s.drop_last(), a).push(s.last())
    }
}

/// The events ordered by time, events at the same instant keeping the
/// order they had.
pub open spec fn sort_by_time(s: Seq<AccessEvent>) -> Seq<AccessEvent>
    decreases s.len(),
{
    if s.len() == 0 {
        s
    } else {
        insert_by_time(sort_by_time(s.drop_last()), s.last())
    }
}

/// Whether no event comes before one ahead of it in time.
pub open spec fn times_nondecreasing(s: Seq<AccessEvent>) -> bool {
    forall|i: int, j: int| #![trigger s[i], s[j]] 0 <= i < j < s.len() ==> s[i].timestamp.millis <= s[j].timestamp.millis
}

/// Inserting by time adds the event to the events held.
proof fn lemma_insert_by_time_multiset(s: Seq<AccessEvent>, a: AccessEvent)
    ensures
        insert_by_time(s, a).to_multiset() =~= s.to_multiset().insert(a),
        insert_by_time(s, a).len() == s.len() + 1,
    decreases s.len(),
{
    broadcast use vstd::seq_lib::group_to_multiset_ensures;
    if s.len() == 0 {
        assert(seq![a] =~= Seq::<AccessEvent>::empty().push(a));
    } else if s.last().timestamp.millis <= a.timestamp.millis {
    } else {
        let p = s.drop_last();
        lemma_insert_by_time_multiset(p, a);
        assert(p.push(s.last()) =~= s);
    }
}

/// Inserting by time keeps events in time order.
proof fn lemma_insert_by_time_sorted(s: Seq<AccessEvent>, a: AccessEvent)
    requires
        times_nondecreasing(s),
    ensures
        times_nondecreasing(insert_by_time(s, a)),
    decreases s.len(),
{
    broadcast use vstd::seq_lib::group_to_multiset_ensures;
    if s.len() == 0 {
    } else if s.last().timestamp.millis <= a.timestamp.millis {
        let r = s.push(a);
        assert forall|i: int, j: int| #![trigger r[i], r[j]] 0 <= i < j < r.len() implies r[i].timestamp.millis <= r[j].timestamp.millis by {
            if j == s.len() {
                if i < s.len() - 1 {
                    assert(s[i].timestamp.millis <= s[s.len() - 1].timestamp.millis);
                }
            }
        }
    } else {
        let p = s.drop_last();
        let l = s.last();
        assert forall|i: int, j: int| #![trigger p[i], p[j]] 0 <= i < j < p.len() implies p[i].timestamp.millis <= p[j].timestamp.millis by {
            assert(p[i] == s[i] && p[j] == s[j]);
        }
        lemma_insert_by_time_sorted(p, a);
        lemma_insert_by_time_multiset(p, a);
        let q = insert_by_time(p, a);
        let r = q.push(l);
        assert forall|i: int, j: int| #![trigger r[i], r[j]] 0 <= i < j < r.len() implies r[i].timestamp.millis <= r[j].timestamp.millis by {
            if j == q.len() {
                let x = q[i];
                assert(q.contains(x));
                assert(q.to_multiset().count(x) > 0);
                assert(x == a || p.to_multiset().count(x) > 0);
                if x != a {
                    assert(p.contains(x));
                    let k = choose|k: int| 0 <= k < p.len() && p[k] == x;
                    assert(s[k] == x);
                    assert(s[k].timestamp.millis <= s[s.len() - 1].timestamp.millis);
                }
            } else {
                assert(r[i] == q[i] && r[j] == q[j]);
            }
        }
    }
}

/// Ordering by time lays out the same events, each no earlier than the
/// one before it.
pub proof fn law_sort_by_time_orders_a_permutation(s: Seq<AccessEvent>)
    ensures
        sort_by_time(s).to_multiset() =~= s.to_multiset(),
        sort_by_time(s).len() == s.len(),
        times_nondecreasing(sort_by_time(s)),
    decreases s.len(),
{
    broadcast use vstd::seq_lib::group_to_multiset_ensures;
    if s.len() > 0 {
        let p = s.drop_last();
        law_sort_by_time_orders_a_permutation(p);
        lemma_insert_by_time_multiset(sort_by_time(p), s.last());
        lemma_insert_by_time_sorted(sort_by_time(p), s.last());
        assert(p.push(s.last()) =~= s);
    }
}

/// Inserting by time past an event later than the one inserted.
proof fn lemma_insert_by_time_step(p: Seq<AccessEvent>, j: int, a: AccessEvent)
    requires
        0 < j <= p.len(),
        p[j - 1].timestamp.millis > a.timestamp.millis,
    ensures
        insert_by_time(p.take(j), a) + p.skip(j) =~= insert_by_time(p.take(j - 1), a) + p.skip(j - 1),
{
    assert(p.take(j).drop_last() =~= p.take(j - 1));
    assert(p.take(j).last() == p[j - 1]);
    let q = insert_by_time(p.take(j - 1), a);
    assert(p.skip(j - 1) =~= seq![p[j - 1]] + p.skip(j));
    assert(q.push(p[j - 1]) + p.skip(j) =~= q + (seq![p[j - 1]] + p.skip(j)));
}

/// The events ordered by time; events at the same instant keep the
/// order they had.
pub fn sort_events_by_timestamp(events: Vec<AccessEvent>) -> (sorted: Vec<AccessEvent>)
    ensures
        sorted@ == sort_by_time(events@),
{
    let mut sorted: Vec<AccessEvent> = Vec::new();
    let mut i: usize = 0;
    assert(events@.take(0) =~= Seq::<AccessEvent>::empty());
    while i < events.len()
        invariant
            i <= events@.len(),
            sorted@ == sort_by_time(events@.take(i as int)),
        decreases events.len() - i,
    {
        let a = events[i];
        let ghost p = sorted@;
        proof {
            let next = events@.take(i as int + 1);
            assert(next.drop_last() =~= events@.take(i as int));
            assert(next.last() == a);
            assert(p.take(p.len() as int) =~= p);
            assert(p.skip(p.len() as int) =~= Seq::<AccessEvent>::empty());
        }
        sorted.push(a);
        let mut j: usize = sorted.len() - 1;
        while j > 0 && sorted[j - 1].timestamp.millis > a.timestamp.millis
            invariant
                j <= p.len(),
                sorted@ == p.take(j as int).push(a) + p.skip(j as int),
                insert_by_time(p, a) == insert_by_time(p.take(j as int), a) + p.skip(j as int),
            decreases j,
        {
            proof {
                assert(sorted@[j - 1] == p[j - 1]);
                lemma_insert_by_time_step(p, j as int, a);
            }
            let earlier = sorted[j - 1];
            sorted.set(j - 1, a);
            sorted.set(j, earlier);
            proof {
                assert(sorted@ =~= p.take(j - 1).push(a) + p.skip(j - 1));
            }
            j = j - 1;
        }
        proof {
            if j > 0 {
                assert(sorted@[j - 1] == p[j - 1]);
                assert(p.take(j as int).last() == p[j - 1]);
            }
            assert(insert_by_time(p.take(j as int), a) == p.take(j as int).push(a));
        }
        i = i + 1;
    }
    assert(events@.take(events@.len() as int) =~= events@);
    sorted
}


} // verus!
