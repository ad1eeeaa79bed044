//! Point-in-time aggregation of a training queue.
//!
//! Each queue entry trains linearly from its start to its finish time. At a
//! given instant an entry is either still waiting, in training, or done, and
//! contributes the points trained so far.
use vstd::prelude::*;

verus! {

/// One entry of a training queue, with its dates as seconds since the Unix epoch.
#[derive(Clone, Copy, Debug, PartialEq, Eq)]
pub struct TrainingQueueEntry {
    pub skill_id: i32,
    pub queue_position: i32,
    pub finished_level: i32,
    pub start_time: i64,
    pub finish_time: i64,
    pub training_start_sp: i32,
    pub level_start_sp: i32,
    pub level_end_sp: i32,
}

/// Points the entry trains from its start to its finish.
pub open spec fn entry_span(e: TrainingQueueEntry) -> int {
    e.level_end_sp - e.training_start_sp
}

/// `a / b` rounded toward zero, for `b > 0`.
pub open spec fn div_toward_zero(a: int, b: int) -> int {
    if a >= 0 {
        a / b
    } else {
        -((-a) / b)
    }
}

/// The entry has not started yet at `now`.
pub open spec fn entry_waiting(e: TrainingQueueEntry, now: int) -> bool {
    now <= e.start_time
}

/// The entry has started and not yet finished at `now`.
pub open spec fn entry_in_training(e: TrainingQueueEntry, now: int) -> bool {
    e.start_time < now && now <= e.finish_time
}

/// Points the entry has trained by `now`: nothing before it starts, all of
/// its span after it finishes, and in between the elapsed share of the span,
/// rounded toward zero.
pub open spec fn entry_points(e: TrainingQueueEntry, now: int) -> int {
    if entry_waiting(e, now) {
        0
    } else if now > e.finish_time {
        entry_span(e)
    } else {
        div_toward_zero(entry_span(e) * (now - e.start_time), e.finish_time - e.start_time)
    }
}

/// Whether `id` is one of the listed kinds.
pub fn is_listed_kind(kinds: &Vec<i32>, id: i32) -> (r: bool)
    ensures
        r == kinds@.contains(id),
{
    let mut i: usize = 0;
    while i < kinds.len()
        invariant
            i <= kinds@.len(),
            forall|k: int| 0 <= k < i ==> kinds@[k] != id,
        decreases kinds@.len() - i,
    {
        if kinds[i] == id {
            assert(kinds@[i as int] == id);
            return true;
        }
        i = i + 1;
    }
    false
}

proof fn lemma_share_bounded(a: int, c: int, t: int)
    requires
        a >= 0,
        0 <= c <= t,
        t > 0,
    ensures
        0 <= (a * c) / t <= a,
{
    assert(a * c <= a * t) by (nonlinear_arith)
        requires
            a >= 0,
            c <= t,
    ;
    assert(0 <= a * c) by (nonlinear_arith)
        requires
            a >= 0,
            c >= 0,
    ;
    assert((a * c) / t <= (a * t) / t) by (nonlinear_arith)
        requires
            a * c <= a * t,
            t > 0,
    ;
    assert((a * t) / t == a) by (nonlinear_arith)
        requires
            t > 0,
    ;
    assert(0 <= (a * c) / t) by (nonlinear_arith)
        requires
            a * c >= 0,
            t > 0,
    ;
}

/// An entry's points never exceed its span in size.
pub proof fn lemma_entry_points_bounded(e: TrainingQueueEntry, now: int)
    ensures
        -0x1_0000_0000 <= entry_points(e, now) <= 0x1_0000_0000,
{
    if !entry_waiting(e, now) && now <= e.finish_time {
        let s = entry_span(e);
        let c = now - e.start_time;
        let t = e.finish_time - e.start_time;
        if s >= 0 {
            lemma_share_bounded(s, c, t);
        } else {
            lemma_share_bounded(-s, c, t);
            assert((-s) * c == -(s * c)) by (nonlinear_arith);
        }
    }
}

/// Classifies one entry at `now`: whether it is an entry of a listed kind in training,
/// whether it is an entry of a listed kind still waiting, and the points it contributes.
pub fn calculate_queued_skill(skill: &TrainingQueueEntry, now: i64, kinds: &Vec<i32>) -> (r: (
    bool,
    bool,
    i64,
))
    ensures
        r.0 == (kinds@.contains(skill.skill_id) && entry_in_training(*skill, now as int)),
        r.1 == (kinds@.contains(skill.skill_id) && entry_waiting(*skill, now as int)),
        r.2 == (if kinds@.contains(skill.skill_id) {
            entry_points(*skill, now as int)
        } else {
            0
        }),
{
    if !is_listed_kind(kinds, skill.skill_id) {
        return (false, false, 0);
    }
    proof {
        lemma_entry_points_bounded(*skill, now as int);
    }
    if skill.start_time < now {
        let span: i64 = skill.level_end_sp as i64 - skill.training_start_sp as i64;
        if now > skill.finish_time {
            (false, false, span)
        } else {
            let completed: i128 = now as i128 - skill.start_time as i128;
            let total: i128 = skill.finish_time as i128 - skill.start_time as i128;
            let magnitude: u128 = if span >= 0 {
                span as u128
            } else {
                (-(span as i128)) as u128
            };
            proof {
                assert(magnitude * completed <= magnitude * total) by (nonlinear_arith)
                    requires
                        0 <= completed <= total,
                ;
                assert(magnitude * total <= 0x1_0000_0000 * 0x1_0000_0000_0000_0000)
                    by (nonlinear_arith)
                    requires
                        magnitude <= 0x1_0000_0000,
                        0 < total <= 0x1_0000_0000_0000_0000,
                ;
            }
            let share: u128 = (magnitude * completed as u128) / total as u128;
            proof {
                lemma_share_bounded(magnitude as int, completed as int, total as int);
                if span < 0 {
                    assert((-span) * completed == -(span * completed)) by (nonlinear_arith);
                }
            }
            if span >= 0 {
                (true, false, share as i64)
            } else {
                (true, false, -(share as i64))
            }
        }
    } else {
        (false, true, 0)
    }
}

/// Points an entry contributes when only the kinds in `kinds` count.
pub open spec fn counted_points(e: TrainingQueueEntry, now: int, kinds: Seq<i32>) -> int {
    if kinds.contains(e.skill_id) {
        entry_points(e, now)
    } else {
        0
    }
}

/// Sum of the points of the counted entries.
pub open spec fn queue_points(entries: Seq<TrainingQueueEntry>, now: int, kinds: Seq<i32>) -> int
    decreases entries.len(),
{
    if entries.len() == 0 {
        0
    } else {
        queue_points(entries.drop_last(), now, kinds) + counted_points(entries.last(), now, kinds)
    }
}

/// Number of counted entries that have not started.
pub open spec fn queue_waiting(entries: Seq<TrainingQueueEntry>, now: int, kinds: Seq<i32>) -> nat
    decreases entries.len(),
{
    if entries.len() == 0 {
        0
    } else {
        queue_waiting(entries.drop_last(), now, kinds) + (if kinds.contains(entries.last().skill_id)
            && entry_waiting(entries.last(), now) {
            1nat
        } else {
            0nat
        })
    }
}

/// Whether some counted entry is in training.
pub open spec fn queue_training(entries: Seq<TrainingQueueEntry>, now: int, kinds: Seq<i32>) -> bool
    decreases entries.len(),
{
    if entries.len() == 0 {
        false
    } else {
        queue_training(entries.drop_last(), now, kinds) || (kinds.contains(entries.last().skill_id)
            && entry_in_training(entries.last(), now))
    }
}

/// What a training queue amounts to at one instant.
#[derive(Clone, Copy, Debug, PartialEq, Eq)]
pub struct QueueTotals {
    pub points: i128,
    pub training: bool,
    pub queued: usize,
}

/// The queue's points stay within the bound that each entry's span allows.
pub proof fn lemma_queue_points_bounded(entries: Seq<TrainingQueueEntry>, now: int, kinds: Seq<i32>)
    ensures
        -0x1_0000_0000 * entries.len() <= queue_points(entries, now, kinds) <= 0x1_0000_0000
            * entries.len(),
    decreases entries.len(),
{
    if entries.len() > 0 {
        lemma_queue_points_bounded(entries.drop_last(), now, kinds);
        lemma_entry_points_bounded(entries.last(), now);
    }
}

/// Aggregates a training queue at `now`, counting only the entries whose kind
/// is in `kinds`: their points so far, whether one is in training, and how
/// many have not started.
pub fn aggregate(entries: &Vec<TrainingQueueEntry>, now: i64, kinds: &Vec<i32>) -> (r: QueueTotals)
    ensures
        r.points == queue_points(entries@, now as int, kinds@),
        r.training == queue_training(entries@, now as int, kinds@),
        r.queued == queue_waiting(entries@, now as int, kinds@),
{
    let mut totals = QueueTotals { points: 0, training: false, queued: 0 };
    let mut i: usize = 0;
    while i < entries.len()
        invariant
            i <= entries@.len(),
            totals.points == queue_points(entries@.take(i as int), now as int, kinds@),
            totals.training == queue_training(entries@.take(i as int), now as int, kinds@),
            totals.queued == queue_waiting(entries@.take(i as int), now as int, kinds@),
            totals.queued <= i,
        decreases entries@.len() - i,
    {
        let (training, waiting, points) = calculate_queued_skill(&entries[i], now, kinds);
        proof {
            let next = entries@.take(i + 1);
            assert(next.drop_last() =~= entries@.take(i as int));
            assert(next.last() == entries@[i as int]);
            lemma_queue_points_bounded(entries@.take(i as int), now as int, kinds@);
            lemma_entry_points_bounded(entries@[i as int], now as int);
            assert(0x1_0000_0000 * i <= 0x1_0000_0000 * 0x1_0000_0000_0000_0000) by (nonlinear_arith)
                requires
                    i <= 0x1_0000_0000_0000_0000,
            ;
        }
        if training {
            totals.training = true;
        }
        if waiting {
            totals.queued = totals.queued + 1;
        }
        totals.points = totals.points + points as i128;
        i = i + 1;
    }
    assert(entries@.take(entries@.len() as int) =~= entries@);
    totals
}

/// Entries of kinds that are not counted leave the totals at zero.
pub proof fn lemma_uncounted_kinds_add_nothing(
    entries: Seq<TrainingQueueEntry>,
    now: int,
    kinds: Seq<i32>,
)
    requires
        forall|k: int| 0 <= k < entries.len() ==> !kinds.contains(#[trigger] entries[k].skill_id),
    ensures
        queue_points(entries, now, kinds) == 0,
        queue_training(entries, now, kinds) == false,
        queue_waiting(entries, now, kinds) == 0,
    decreases entries.len(),
{
    if entries.len() > 0 {
        let rest = entries.drop_last();
        assert forall|k: int| 0 <= k < rest.len() implies !kinds.contains(#[trigger] rest[k].skill_id) by {
            assert(rest[k] == entries[k]);
        }
        lemma_uncounted_kinds_add_nothing(rest, now, kinds);
        assert(!kinds.contains(entries[entries.len() - 1].skill_id));
    }
}

/// An entry that started before `now` and finishes no later than `now`
/// contributes its whole span, also when it finishes exactly at `now`.
pub proof fn lemma_finished_entry_adds_span(e: TrainingQueueEntry, now: int)
    requires
        e.start_time < now,
        e.finish_time <= now,
    ensures
        entry_points(e, now) == entry_span(e),
{
    if now <= e.finish_time {
        let s = entry_span(e);
        let t = e.finish_time - e.start_time;
        assert(t > 0);
        if s >= 0 {
            assert((s * t) / t == s) by (nonlinear_arith)
                requires
                    t > 0,
            ;
        } else {
            assert(((-(s * t)) / t) == -s) by (nonlinear_arith)
                requires
                    t > 0,
            ;
            assert(s * t < 0) by (nonlinear_arith)
                requires
                    s < 0,
                    t > 0,
            ;
        }
    }
}

/// An entry that started one second before `now` and finishes one second
/// after it has trained half of its span, rounded toward zero.
pub proof fn lemma_half_way_entry_adds_half(e: TrainingQueueEntry, now: int)
    requires
        e.start_time == now - 1,
        e.finish_time == now + 1,
    ensures
        entry_points(e, now) == div_toward_zero(entry_span(e), 2),
        entry_span(e) == 1000 ==> entry_points(e, now) == 500,
{
    assert(e.finish_time - e.start_time == 2);
    let s = entry_span(e);
    assert(now - e.start_time == 1);
    assert(s * 1 == s);
}

/// Appending a counted entry that starts after `now` adds one waiting entry
/// and no points.
pub proof fn lemma_future_entry_is_queued(
    entries: Seq<TrainingQueueEntry>,
    e: TrainingQueueEntry,
    now: int,
    kinds: Seq<i32>,
)
    requires
        e.start_time > now,
        kinds.contains(e.skill_id),
    ensures
        queue_waiting(entries.push(e), now, kinds) == queue_waiting(entries, now, kinds) + 1,
        queue_points(entries.push(e), now, kinds) == queue_points(entries, now, kinds),
        queue_training(entries.push(e), now, kinds) == queue_training(entries, now, kinds),
{
    assert(entries.push(e).drop_last() =~= entries);
}

} // verus!
