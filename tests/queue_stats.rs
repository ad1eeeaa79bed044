use eve_toons::queue::{aggregate, calculate_queued_skill, QueueTotals, TrainingQueueEntry};
use eve_toons::session::build_report;
use eve_toons::stats::{
    crop_skills, crop_stat, crop_stat_now, extractions_of, parse_entry, parse_listed_queue, parse_queue, rank_stats,
    total_extractions, CropStat, QueuedSkill, StatsError, TrainedSkill,
};

fn entry(skill_id: i32, start: i64, finish: i64, start_sp: i32, end_sp: i32) -> TrainingQueueEntry {
    TrainingQueueEntry {
        skill_id,
        queue_position: 0,
        finished_level: 5,
        start_time: start,
        finish_time: finish,
        training_start_sp: start_sp,
        level_start_sp: start_sp,
        level_end_sp: end_sp,
    }
}

fn stat(name: &str, points: i64) -> CropStat {
    CropStat { name: name.to_string(), points, training: false, queued: 0 }
}

#[test]
fn entries_of_unlisted_kinds_add_nothing() {
    let now = 1_000_000;
    let entries = vec![
        entry(1, now - 100, now - 10, 0, 5000),
        entry(2, now - 10, now + 10, 0, 5000),
        entry(3, now + 10, now + 20, 0, 5000),
    ];
    let r = aggregate(&entries, now, &crop_skills());
    assert_eq!(r, QueueTotals { points: 0, training: false, queued: 0 });
}

#[test]
fn empty_queue_adds_nothing() {
    let r = aggregate(&Vec::new(), 5, &crop_skills());
    assert_eq!(r, QueueTotals { points: 0, training: false, queued: 0 });
}

#[test]
fn finished_entry_adds_its_span() {
    let now = 2_000_000;
    let e = entry(3412, now - 500, now - 1, 1000, 46_255);
    assert_eq!(calculate_queued_skill(&e, now, &crop_skills()), (false, false, 45_255));
}

#[test]
fn entry_finishing_exactly_now_adds_its_span() {
    let now = 2_000_000;
    let e = entry(3412, now - 7, now, 1000, 46_255);
    let (training, waiting, points) = calculate_queued_skill(&e, now, &crop_skills());
    assert_eq!(points, 45_255);
    assert!(training);
    assert!(!waiting);
}

#[test]
fn half_way_entry_adds_half_its_span() {
    let now = 1_700_000_000;
    let e = entry(25739, now - 1, now + 1, 0, 1000);
    assert_eq!(calculate_queued_skill(&e, now, &crop_skills()), (true, false, 500));
}

#[test]
fn in_training_share_is_rounded_toward_zero() {
    let now = 100;
    let e = entry(3551, 90, 120, 0, 1000);
    assert_eq!(calculate_queued_skill(&e, now, &crop_skills()).2, 333);
    let back = entry(3551, 90, 120, 1000, 0);
    assert_eq!(calculate_queued_skill(&back, now, &crop_skills()).2, -333);
}

#[test]
fn future_entry_is_queued_with_no_points() {
    let now = 100;
    let before = vec![entry(3412, 10, 20, 0, 700)];
    let mut after = before.clone();
    after.push(entry(13278, 101, 200, 0, 9000));
    let a = aggregate(&before, now, &crop_skills());
    let b = aggregate(&after, now, &crop_skills());
    assert_eq!(b.queued, a.queued + 1);
    assert_eq!(b.points, a.points);
    assert_eq!(b.points, 700);
}

#[test]
fn entry_starting_now_is_queued() {
    let e = entry(21718, 100, 200, 0, 9000);
    assert_eq!(calculate_queued_skill(&e, 100, &crop_skills()), (false, true, 0));
}

#[test]
fn aggregate_combines_entries() {
    let now = 1000;
    let entries = vec![
        entry(3412, 100, 200, 0, 2000),
        entry(3551, 900, 1100, 0, 4000),
        entry(25810, 1100, 1300, 0, 4000),
        entry(25811, 1300, 1500, 0, 4000),
        entry(99, 100, 200, 0, 4000),
    ];
    let r = aggregate(&entries, now, &crop_skills());
    assert_eq!(r, QueueTotals { points: 4000, training: true, queued: 2 });
}

fn raw(skill_id: i32, start: &str, finish: &str, start_sp: i32, end_sp: i32) -> QueuedSkill {
    QueuedSkill {
        queue_position: 1,
        skill_id,
        finished_level: 4,
        start_date: start.to_string(),
        finish_date: finish.to_string(),
        training_start_sp: start_sp,
        level_start_sp: start_sp,
        level_end_sp: end_sp,
    }
}

#[test]
fn rfc3339_dates_are_read_as_epoch_seconds() {
    let q = raw(3412, "2024-01-01T00:00:00Z", "2024-01-02T01:00:00+01:00", 5, 10);
    let e = parse_entry(&q).unwrap();
    assert_eq!(e.start_time, 1_704_067_200);
    assert_eq!(e.finish_time, 1_704_153_600);
    assert_eq!(e.skill_id, 3412);
    assert_eq!(e.training_start_sp, 5);
    assert_eq!(e.level_end_sp, 10);
}

#[test]
fn invalid_date_is_rejected() {
    let q = vec![
        raw(3412, "2024-01-01T00:00:00Z", "2024-01-02T00:00:00Z", 0, 1),
        raw(3412, "yesterday", "2024-01-02T00:00:00Z", 0, 1),
    ];
    assert_eq!(parse_queue(&q), Err(StatsError::InvalidDate));
    assert!(parse_entry(&q[1]).is_none());
    let r = crop_stat_now("Jan".to_string(), &Vec::new(), &q, &crop_skills());
    assert_eq!(r, Err(StatsError::InvalidDate));
}

#[test]
fn stat_now_counts_past_and_future_entries() {
    let q = vec![
        raw(3412, "2001-01-01T00:00:00Z", "2001-01-02T00:00:00Z", 100, 2100),
        raw(3551, "2999-01-01T00:00:00Z", "2999-01-02T00:00:00Z", 0, 5000),
    ];
    let skills = vec![
        TrainedSkill { skill_id: 3412, skillpoints_in_skill: 256_000 },
        TrainedSkill { skill_id: 1, skillpoints_in_skill: 999 },
    ];
    let s = crop_stat_now("Jan".to_string(), &skills, &q, &crop_skills()).unwrap();
    assert_eq!(s, CropStat { name: "Jan".to_string(), points: 258_000, training: false, queued: 1 });
}

#[test]
fn stat_adds_trained_and_queue_points() {
    let skills = vec![
        TrainedSkill { skill_id: 3412, skillpoints_in_skill: 1_000_000 },
        TrainedSkill { skill_id: 25739, skillpoints_in_skill: 200_000 },
        TrainedSkill { skill_id: 7, skillpoints_in_skill: 5 },
    ];
    let entries = vec![entry(3551, 0, 10, 0, 1000)];
    let s = crop_stat("Ann".to_string(), &skills, &entries, 5, &crop_skills()).unwrap();
    assert_eq!(s, CropStat { name: "Ann".to_string(), points: 1_200_500, training: true, queued: 0 });
}

#[test]
fn stat_out_of_range_is_rejected() {
    let skills = vec![
        TrainedSkill { skill_id: 3412, skillpoints_in_skill: i64::MAX },
        TrainedSkill { skill_id: 3412, skillpoints_in_skill: 1 },
    ];
    let r = crop_stat("Big".to_string(), &skills, &Vec::new(), 0, &crop_skills());
    assert_eq!(r, Err(StatsError::PointsOutOfRange));
    let fits = vec![
        TrainedSkill { skill_id: 3412, skillpoints_in_skill: i64::MAX },
        TrainedSkill { skill_id: 3412, skillpoints_in_skill: 1 },
        TrainedSkill { skill_id: 3412, skillpoints_in_skill: -1 },
    ];
    let s = crop_stat("Big".to_string(), &fits, &Vec::new(), 0, &crop_skills()).unwrap();
    assert_eq!(s.points, i64::MAX);
}

#[test]
fn extractions_round_down() {
    assert_eq!(extractions_of(1_200_000), 2);
    assert_eq!(extractions_of(499_999), 0);
    assert_eq!(extractions_of(500_000), 1);
    assert_eq!(extractions_of(0), 0);
    assert_eq!(extractions_of(-1), -1);
    assert_eq!(extractions_of(-500_000), -1);
    assert_eq!(extractions_of(i64::MIN), -18_446_744_073_710);
}

#[test]
fn report_ranks_and_totals_three_characters() {
    let stats = vec![stat("B", 900_000), stat("C", 400_000), stat("A", 1_200_000)];
    let report = build_report(&stats);
    let points: Vec<i64> = report.ranked.iter().map(|s| s.points).collect();
    assert_eq!(points, vec![1_200_000, 900_000, 400_000]);
    assert_eq!(report.total_extractions, 3);
    assert_eq!(total_extractions(&stats), 3);
}

#[test]
fn ranking_keeps_order_of_equal_points() {
    let stats = vec![stat("x", 5), stat("y", 9), stat("z", 5), stat("w", 9), stat("v", 1)];
    let names: Vec<String> = rank_stats(&stats).into_iter().map(|s| s.name).collect();
    assert_eq!(names, vec!["y", "w", "x", "z", "v"]);
    assert!(rank_stats(&Vec::new()).is_empty());
}

#[test]
fn crop_skill_list() {
    assert_eq!(crop_skills(), vec![3412, 3551, 13278, 21718, 25739, 25810, 25811]);
}

#[test]
fn unlisted_entry_with_bad_date_is_skipped() {
    let q = vec![
        raw(1, "not a date", "never", 0, 1),
        raw(3412, "2001-01-01T00:00:00Z", "2001-01-02T00:00:00Z", 0, 300),
    ];
    let entries = parse_listed_queue(&q, &crop_skills()).unwrap();
    assert_eq!(entries.len(), 1);
    assert_eq!(entries[0].skill_id, 3412);
    assert_eq!(entries[0].start_time, 978_307_200);
    let s = crop_stat_now("Jan".to_string(), &Vec::new(), &q, &crop_skills()).unwrap();
    assert_eq!(s.points, 300);
    let bad = vec![raw(25811, "2001-01-01T00:00:00Z", "soon", 0, 1)];
    assert_eq!(parse_listed_queue(&bad, &crop_skills()), Err(StatsError::InvalidDate));
}
