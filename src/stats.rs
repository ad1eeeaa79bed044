//! Per-character statistics and the ranked report built from them.
use vstd::prelude::*;
use crate::dates::{now_seconds, parse_rfc3339_seconds, rfc3339_seconds};
use crate::queue::{
    aggregate, entry_span, is_listed_kind, lemma_finished_entry_adds_span, lemma_future_entry_is_queued,
    lemma_queue_points_bounded, queue_points, queue_training, queue_waiting, TrainingQueueEntry,
};

verus! {

/// Points that yield one extraction.
pub const POINTS_PER_EXTRACTION: i64 = 500_000;

/// The skill kinds whose points are counted.
pub fn crop_skills() -> (r: Vec<i32>)
    ensures
        r@ == seq![3412i32, 3551, 13278, 21718, 25739, 25810, 25811],
{
    vec![3412, 3551, 13278, 21718, 25739, 25810, 25811]
}

/// A skill already trained, as the remote service reports it.
#[derive(Clone, Copy, Debug, PartialEq, Eq)]
pub struct TrainedSkill {
    pub skill_id: i32,
    pub skillpoints_in_skill: i64,
}

/// A training queue entry as the remote service reports it, with RFC 3339 dates.
#[derive(Clone, Debug, PartialEq, Eq)]
pub struct QueuedSkill {
    pub queue_position: i32,
    pub skill_id: i32,
    pub finished_level: i32,
    pub start_date: String,
    pub finish_date: String,
    pub training_start_sp: i32,
    pub level_start_sp: i32,
    pub level_end_sp: i32,
}

/// The statistics of one character.
#[derive(Clone, Debug, PartialEq, Eq)]
pub struct CropStat {
    pub name: String,
    pub points: i64,
    pub training: bool,
    pub queued: usize,
}

/// Why the statistics of one character could not be computed.
#[derive(Clone, Copy, Debug, PartialEq, Eq)]
pub enum StatsError {
    /// A queue entry holds a date that is not RFC 3339.
    InvalidDate,
    /// The character's points do not fit in an `i64`.
    PointsOutOfRange,
}

/// The queue entry that `q` describes once its dates are read as `start` and `finish`.
pub open spec fn entry_of(q: QueuedSkill, start: i64, finish: i64) -> TrainingQueueEntry {
    TrainingQueueEntry {
        skill_id: q.skill_id,
        queue_position: q.queue_position,
        finished_level: q.finished_level,
        start_time: start,
        finish_time: finish,
        training_start_sp: q.training_start_sp,
        level_start_sp: q.level_start_sp,
        level_end_sp: q.level_end_sp,
    }
}

/// The queue entry that `q` describes, where both its dates are RFC 3339.
pub open spec fn parsed_entry(q: QueuedSkill) -> Option<TrainingQueueEntry> {
    match (rfc3339_seconds(q.start_date@), rfc3339_seconds(q.finish_date@)) {
        (Some(s), Some(f)) => Some(entry_of(q, s, f)),
        _ => None,
    }
}

/// Builds the queue entry that `q` describes, given its dates as instants.
pub fn entry_with_times(q: &QueuedSkill, start: i64, finish: i64) -> (r: TrainingQueueEntry)
    ensures
        r == entry_of(*q, start, finish),
{
    TrainingQueueEntry {
        skill_id: q.skill_id,
        queue_position: q.queue_position,
        finished_level: q.finished_level,
        start_time: start,
        finish_time: finish,
        training_start_sp: q.training_start_sp,
        level_start_sp: q.level_start_sp,
        level_end_sp: q.level_end_sp,
    }
}

/// Reads the dates of a reported queue entry.
pub fn parse_entry(q: &QueuedSkill) -> (r: Option<TrainingQueueEntry>)
    ensures
        r == parsed_entry(*q),
{
    let start = parse_rfc3339_seconds(q.start_date.as_str());
    let finish = parse_rfc3339_seconds(q.finish_date.as_str());
    match (start, finish) {
        (Some(s), Some(f)) => Some(entry_with_times(q, s, f)),
        _ => None,
    }
}

/// Reads the dates of every entry of a reported queue; fails where one does not parse.
pub fn parse_queue(raw: &Vec<QueuedSkill>) -> (r: Result<Vec<TrainingQueueEntry>, StatsError>)
    ensures
        r is Ok <==> forall|k: int| 0 <= k < raw@.len() ==> (#[trigger] parsed_entry(raw@[k])) is Some,
        r matches Ok(v) ==> v@.len() == raw@.len() && forall|k: int|
            0 <= k < raw@.len() ==> parsed_entry(raw@[k]) == Some(#[trigger] v@[k]),
        r matches Err(e) ==> e == StatsError::InvalidDate,
{
    let mut v: Vec<TrainingQueueEntry> = Vec::new();
    let mut i: usize = 0;
    while i < raw.len()
        invariant
            i <= raw@.len(),
            v@.len() == i,
            forall|k: int| 0 <= k < i ==> parsed_entry(raw@[k]) == Some(#[trigger] v@[k]),
        decreases raw@.len() - i,
    {
        match parse_entry(&raw[i]) {
            Some(e) => v.push(e),
            None => {
                return Err(StatsError::InvalidDate);
            },
        }
        i = i + 1;
    }
    assert forall|k: int| 0 <= k < raw@.len() implies (#[trigger] parsed_entry(raw@[k])) is Some by {
        assert(parsed_entry(raw@[k]) == Some(v@[k]));
    }
    Ok(v)
}

/// Sum of the trained points of the skills whose kind is in `kinds`.
pub open spec fn trained_points(skills: Seq<TrainedSkill>, kinds: Seq<i32>) -> int
    decreases skills.len(),
{
    if skills.len() == 0 {
        0
    } else {
        trained_points(skills.drop_last(), kinds) + (if kinds.contains(skills.last().skill_id) {
            skills.last().skillpoints_in_skill as int
        } else {
            0
        })
    }
}

/// Sums the trained points of the skills whose kind is in `kinds`.
pub fn sum_trained_points(skills: &Vec<TrainedSkill>, kinds: &Vec<i32>) -> (r: i128)
    ensures
        r == trained_points(skills@, kinds@),
        -0x8000_0000_0000_0000 * skills@.len() <= r <= 0x8000_0000_0000_0000 * skills@.len(),
{
    let mut sum: i128 = 0;
    let mut i: usize = 0;
    while i < skills.len()
        invariant
            i <= skills@.len(),
            sum == trained_points(skills@.take(i as int), kinds@),
            -0x8000_0000_0000_0000 * i <= sum <= 0x8000_0000_0000_0000 * i,
        decreases skills@.len() - i,
    {
        proof {
            assert(skills@.take(i + 1).drop_last() =~= skills@.take(i as int));
            assert(0x8000_0000_0000_0000 * (i + 1) <= 0x8000_0000_0000_0000 * 0x1_0000_0000_0000_0000)
                by (nonlinear_arith)
                requires
                    i < 0x1_0000_0000_0000_0000,
            ;
        }
        if is_listed_kind(kinds, skills[i].skill_id) {
            sum = sum + skills[i].skillpoints_in_skill as i128;
        }
        i = i + 1;
    }
    assert(skills@.take(skills@.len() as int) =~= skills@);
    sum
}

/// A character's points at `now`: its trained points and what its queue has trained.
pub open spec fn stat_points(
    skills: Seq<TrainedSkill>,
    entries: Seq<TrainingQueueEntry>,
    now: int,
    kinds: Seq<i32>,
) -> int {
    trained_points(skills, kinds) + queue_points(entries, now, kinds)
}

/// Whether `s` is the statistics of the character `name` at `now`.
pub open spec fn stat_of(
    s: CropStat,
    name: Seq<char>,
    skills: Seq<TrainedSkill>,
    entries: Seq<TrainingQueueEntry>,
    now: int,
    kinds: Seq<i32>,
) -> bool {
    &&& s.name@ == name
    &&& s.points == stat_points(skills, entries, now, kinds)
    &&& s.training == queue_training(entries, now, kinds)
    &&& s.queued == queue_waiting(entries, now, kinds)
}

/// The statistics of the character `name` at `now`, from its trained skills
/// and its training queue; fails only where its points do not fit in an `i64`.
pub fn crop_stat(
    name: String,
    skills: &Vec<TrainedSkill>,
    entries: &Vec<TrainingQueueEntry>,
    now: i64,
    kinds: &Vec<i32>,
) -> (r: Result<CropStat, StatsError>)
    ensures
        r is Ok <==> i64::MIN <= stat_points(skills@, entries@, now as int, kinds@) <= i64::MAX,
        r matches Ok(s) ==> stat_of(s, name@, skills@, entries@, now as int, kinds@),
        r matches Err(e) ==> e == StatsError::PointsOutOfRange,
{
    let trained = sum_trained_points(skills, kinds);
    let totals = aggregate(entries, now, kinds);
    let n: usize = entries.len();
    proof {
        lemma_queue_points_bounded(entries@, now as int, kinds@);
        assert(0x1_0000_0000 * n <= 0x1_0000_0000 * 0x1_0000_0000_0000_0000) by (nonlinear_arith)
            requires
                n <= 0x1_0000_0000_0000_0000,
        ;
    }
    if trained < -0x10_0000_0000_0000_0000_0000_0000 || trained > 0x10_0000_0000_0000_0000_0000_0000 {
        return Err(StatsError::PointsOutOfRange);
    }
    let total: i128 = trained + totals.points;
    if total < i64::MIN as i128 || total > i64::MAX as i128 {
        return Err(StatsError::PointsOutOfRange);
    }
    Ok(CropStat { name, points: total as i64, training: totals.training, queued: totals.queued })
}

/// The entries of the listed kinds that a reported queue describes, in
/// order; entries of other kinds are left out unread.
pub open spec fn listed_queue(raw: Seq<QueuedSkill>, kinds: Seq<i32>) -> Seq<TrainingQueueEntry>
    decreases raw.len(),
{
    if raw.len() == 0 {
        Seq::empty()
    } else if kinds.contains(raw.last().skill_id) {
        listed_queue(raw.drop_last(), kinds).push(parsed_entry(raw.last())->Some_0)
    } else {
        listed_queue(raw.drop_last(), kinds)
    }
}

/// Some entry of a listed kind holds a date that is not RFC 3339.
pub open spec fn listed_date_invalid(raw: Seq<QueuedSkill>, kinds: Seq<i32>) -> bool {
    exists|k: int|
        0 <= k < raw.len() && kinds.contains(raw[k].skill_id) && (#[trigger] parsed_entry(raw[k])) is None
}

/// Reads the dates of the entries of the listed kinds, leaving the others
/// out unread; fails where a date of a listed entry does not parse.
pub fn parse_listed_queue(raw: &Vec<QueuedSkill>, kinds: &Vec<i32>) -> (r: Result<
    Vec<TrainingQueueEntry>,
    StatsError,
>)
    ensures
        r is Err <==> listed_date_invalid(raw@, kinds@),
        r matches Ok(v) ==> v@ == listed_queue(raw@, kinds@),
        r matches Err(e) ==> e == StatsError::InvalidDate,
{
    let mut v: Vec<TrainingQueueEntry> = Vec::new();
    let mut i: usize = 0;
    while i < raw.len()
        invariant
            i <= raw@.len(),
            v@ == listed_queue(raw@.take(i as int), kinds@),
            !listed_date_invalid(raw@.take(i as int), kinds@),
        decreases raw@.len() - i,
    {
        let ghost before = raw@.take(i as int);
        let ghost next = raw@.take(i + 1);
        proof {
            assert(next.drop_last() =~= before);
            assert(next.last() == raw@[i as int]);
        }
        if is_listed_kind(kinds, raw[i].skill_id) {
            match parse_entry(&raw[i]) {
                Some(e) => v.push(e),
                None => {
                    assert(raw@[i as int] == raw@[i as int]);
                    assert(parsed_entry(raw@[i as int]) is None);
                    return Err(StatsError::InvalidDate);
                },
            }
        }
        proof {
            assert forall|k: int|
                0 <= k < next.len() && kinds@.contains(next[k].skill_id) implies (#[trigger] parsed_entry(
                next[k],
            )) is Some by {
                if k < i {
                    assert(next[k] == before[k]);
                }
            }
        }
        i = i + 1;
    }
    assert(raw@.take(raw@.len() as int) =~= raw@);
    Ok(v)
}

/// The statistics of the character `name` now, from its trained skills and
/// its reported queue. Fails with `InvalidDate` exactly where a date of an
/// entry of a listed kind does not parse; otherwise the result is that of
/// `crop_stat` at the instant read from the clock, which succeeds wherever
/// the points fit in an `i64` at every instant.
pub fn crop_stat_now(
    name: String,
    skills: &Vec<TrainedSkill>,
    raw: &Vec<QueuedSkill>,
    kinds: &Vec<i32>,
) -> (r: Result<CropStat, StatsError>)
    ensures
        r == Err::<CropStat, StatsError>(StatsError::InvalidDate) <==> listed_date_invalid(raw@, kinds@),
        !listed_date_invalid(raw@, kinds@) && (forall|t: i64|
            i64::MIN <= #[trigger] stat_points(skills@, listed_queue(raw@, kinds@), t as int, kinds@)
                <= i64::MAX) ==> r is Ok,
        r matches Ok(s) ==> exists|now: i64|
            stat_of(s, name@, skills@, listed_queue(raw@, kinds@), now as int, kinds@),
        r == Err::<CropStat, StatsError>(StatsError::PointsOutOfRange) ==> exists|t: i64|
            !(i64::MIN <= #[trigger] stat_points(skills@, listed_queue(raw@, kinds@), t as int, kinds@)
                <= i64::MAX),
{
    let entries = match parse_listed_queue(raw, kinds) {
        Ok(v) => v,
        Err(e) => {
            return Err(e);
        },
    };
    let now = now_seconds();
    let r = crop_stat(name, skills, &entries, now, kinds);
    assert(r matches Ok(s) ==> stat_of(s, name@, skills@, listed_queue(raw@, kinds@), now as int, kinds@));
    assert(r is Err ==> !(i64::MIN <= stat_points(skills@, listed_queue(raw@, kinds@), now as int, kinds@)
        <= i64::MAX));
    r
}

/// A character's statistics for a queue that gains one more entry of a
/// listed kind starting after `now`: one more entry waits, and the points
/// and the training flag stay as they were.
pub proof fn lemma_future_entry_adds_to_queued(
    s1: CropStat,
    s2: CropStat,
    name: Seq<char>,
    skills: Seq<TrainedSkill>,
    entries: Seq<TrainingQueueEntry>,
    e: TrainingQueueEntry,
    now: int,
    kinds: Seq<i32>,
)
    requires
        e.start_time > now,
        kinds.contains(e.skill_id),
        stat_of(s1, name, skills, entries, now, kinds),
        stat_of(s2, name, skills, entries.push(e), now, kinds),
    ensures
        s2.queued == s1.queued + 1,
        s2.points == s1.points,
        s2.training == s1.training,
{
    lemma_future_entry_is_queued(entries, e, now, kinds);
}

/// A character's statistics for a queue that gains one more entry of a
/// listed kind that started before `now` and finished by `now`: the points
/// grow by exactly the entry's span, and as many entries wait as before.
pub proof fn lemma_finished_entry_adds_to_points(
    s1: CropStat,
    s2: CropStat,
    name: Seq<char>,
    skills: Seq<TrainedSkill>,
    entries: Seq<TrainingQueueEntry>,
    e: TrainingQueueEntry,
    now: int,
    kinds: Seq<i32>,
)
    requires
        e.start_time < now,
        e.finish_time <= now,
        kinds.contains(e.skill_id),
        stat_of(s1, name, skills, entries, now, kinds),
        stat_of(s2, name, skills, entries.push(e), now, kinds),
    ensures
        s2.points == s1.points + entry_span(e),
        s2.queued == s1.queued,
{
    lemma_finished_entry_adds_span(e, now);
    assert(entries.push(e).drop_last() =~= entries);
}

/// A copy of `s`.
pub fn copy_stat(s: &CropStat) -> (r: CropStat)
    ensures
        r == *s,
{
    CropStat { name: s.name.clone(), points: s.points, training: s.training, queued: s.queued }
}

/// `r` is `stats` reordered by `perm`: `r[k]` is `stats[perm[k]]`, and no
/// index of `stats` is taken twice.
pub open spec fn reorders(r: Seq<CropStat>, stats: Seq<CropStat>, perm: Seq<int>) -> bool {
    &&& r.len() == stats.len()
    &&& perm.len() == stats.len()
    &&& forall|k: int| 0 <= k < perm.len() ==> 0 <= #[trigger] perm[k] < stats.len()
    &&& forall|k: int| 0 <= k < r.len() ==> #[trigger] r[k] == stats[perm[k]]
    &&& forall|k: int, l: int| 0 <= k < l < perm.len() ==> #[trigger] perm[k] != #[trigger] perm[l]
}

/// `r` is ordered by points, highest first, and keeps the order of `stats`
/// among equal points.
pub open spec fn ranked_by(r: Seq<CropStat>, perm: Seq<int>) -> bool {
    &&& forall|k: int, l: int| 0 <= k < l < r.len() ==> #[trigger] r[k].points >= #[trigger] r[l].points
    &&& forall|k: int, l: int|
        0 <= k < l < r.len() && r[k].points == r[l].points ==> #[trigger] perm[k] < #[trigger] perm[l]
}

/// Orders statistics by points, highest first; statistics with equal points
/// keep their order.
pub fn rank_stats(stats: &Vec<CropStat>) -> (r: Vec<CropStat>)
    ensures
        exists|perm: Seq<int>| reorders(r@, stats@, perm) && ranked_by(r@, perm),
{
    let mut r: Vec<CropStat> = Vec::new();
    let ghost mut perm: Seq<int> = Seq::empty();
    let mut i: usize = 0;
    while i < stats.len()
        invariant
            i <= stats@.len(),
            r@.len() == i,
            perm.len() == i,
            forall|k: int| 0 <= k < perm.len() ==> 0 <= #[trigger] perm[k] < i,
            forall|k: int| 0 <= k < r@.len() ==> #[trigger] r@[k] == stats@[perm[k]],
            forall|k: int, l: int| 0 <= k < l < perm.len() ==> #[trigger] perm[k] != #[trigger] perm[l],
            ranked_by(r@, perm),
        decreases stats@.len() - i,
    {
        let p = stats[i].points;
        let mut j: usize = 0;
        while j < r.len() && r[j].points >= p
            invariant
                j <= r@.len(),
                forall|k: int| 0 <= k < j ==> #[trigger] r@[k].points >= p,
            decreases r@.len() - j,
        {
            j = j + 1;
        }
        proof {
            assert forall|k: int| j <= k < r@.len() implies #[trigger] r@[k].points < p by {
                if j < r@.len() {
                    assert(r@[j as int].points >= r@[k].points || k == j);
                }
            }
        }
        let item = copy_stat(&stats[i]);
        let ghost old_r = r@;
        let ghost old_perm = perm;
        r.insert(j, item);
        proof {
            perm = old_perm.insert(j as int, i as int);
            assert forall|k: int| 0 <= k < r@.len() implies #[trigger] r@[k] == stats@[perm[k]] by {
                if k < j {
                    assert(r@[k] == old_r[k]);
                } else if k > j {
                    assert(r@[k] == old_r[k - 1]);
                }
            }
            assert forall|k: int, l: int| 0 <= k < l < perm.len() implies #[trigger] perm[k]
                != #[trigger] perm[l] by {
                if k != j && l != j {
                    let k0 = if k < j { k } else { k - 1 };
                    let l0 = if l < j { l } else { l - 1 };
                    assert(old_perm[k0] != old_perm[l0]);
                }
            }
            assert forall|k: int, l: int| 0 <= k < l < r@.len() implies #[trigger] r@[k].points
                >= #[trigger] r@[l].points by {
                let k0 = if k < j { k } else { k - 1 };
                let l0 = if l < j { l } else { l - 1 };
                if k != j && l != j {
                    assert(old_r[k0].points >= old_r[l0].points);
                } else if k == j {
                    assert(old_r[l0].points < p);
                } else {
                    assert(old_r[k0].points >= p);
                }
            }
            assert forall|k: int, l: int|
                0 <= k < l < r@.len() && r@[k].points == r@[l].points implies #[trigger] perm[k]
                < #[trigger] perm[l] by {
                let k0 = if k < j { k } else { k - 1 };
                let l0 = if l < j { l } else { l - 1 };
                if k != j && l != j {
                    assert(old_r[k0].points == old_r[l0].points);
                    assert(old_perm[k0] < old_perm[l0]);
                } else if k == j {
                    assert(old_r[l0].points < p);
                } else {
                    assert(old_perm[k0] < i);
                }
            }
        }
        i = i + 1;
    }
    assert(reorders(r@, stats@, perm));
    r
}

/// Extractions that `points` yield: whole multiples of the points per
/// extraction, rounded down.
pub open spec fn extractions(points: int) -> int {
    points / (POINTS_PER_EXTRACTION as int)
}

/// Sum of the extractions that each of the statistics yields.
pub open spec fn total_extractions_of(stats: Seq<CropStat>) -> int
    decreases stats.len(),
{
    if stats.len() == 0 {
        0
    } else {
        total_extractions_of(stats.drop_last()) + extractions(stats.last().points as int)
    }
}

/// The extractions that `points` yield.
pub fn extractions_of(points: i64) -> (r: i64)
    ensures
        r == extractions(points as int),
{
    let d: i64 = POINTS_PER_EXTRACTION;
    if points >= 0 {
        points / d
    } else {
        let m: u64 = (-(points as i128)) as u64;
        let q: u64 = (m + (d as u64 - 1)) / d as u64;
        proof {
            let qi = q as int;
            let rem = points as int + qi * 500_000;
            assert(0 <= rem < 500_000) by (nonlinear_arith)
                requires
                    qi == (m + 499_999) / 500_000,
                    m == -(points as int),
                    rem == points as int + qi * 500_000,
            ;
            vstd::arithmetic::div_mod::lemma_fundamental_div_mod_converse(
                points as int,
                500_000,
                -qi,
                rem,
            );
        }
        -(q as i64)
    }
}

/// Sums the extractions that each of the statistics yields.
pub fn total_extractions(stats: &Vec<CropStat>) -> (r: i128)
    ensures
        r == total_extractions_of(stats@),
{
    let mut sum: i128 = 0;
    let mut i: usize = 0;
    while i < stats.len()
        invariant
            i <= stats@.len(),
            sum == total_extractions_of(stats@.take(i as int)),
            -0x1_0000_0000_0000 * i <= sum <= 0x1_0000_0000_0000 * i,
        decreases stats@.len() - i,
    {
        let e = extractions_of(stats[i].points);
        proof {
            assert(stats@.take(i + 1).drop_last() =~= stats@.take(i as int));
            let pt = stats@[i as int].points as int;
            assert(-0x1_0000_0000_0000 <= pt / 500_000 <= 0x1_0000_0000_0000) by (nonlinear_arith)
                requires
                    -0x8000_0000_0000_0000 <= pt < 0x8000_0000_0000_0000,
            ;
            assert(0x1_0000_0000_0000 * (i + 1) <= 0x1_0000_0000_0000 * 0x1_0000_0000_0000_0000)
                by (nonlinear_arith)
                requires
                    i < 0x1_0000_0000_0000_0000,
            ;
        }
        sum = sum + e as i128;
        i = i + 1;
    }
    assert(stats@.take(stats@.len() as int) =~= stats@);
    sum
}

} // verus!
