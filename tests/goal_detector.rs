use kickir::{
    DetectedGoal, GoalDetector, ScanInput, SensorFault, SideReadings, ThresholdStore,
    WAIT_AFTER_DETECTION_MS,
};

fn side(first: u16, second: u16) -> SideReadings {
    SideReadings { first: Ok(first), second: Ok(second) }
}

fn input(now: u64, home: SideReadings, away: SideReadings) -> ScanInput {
    ScanInput { now, thresholds: ThresholdStore::new(50), home, away }
}

#[test]
fn home_reading_below_threshold_scores_home() {
    let d = GoalDetector::new(0);
    let r = d.scan(&input(5000, side(30, 30), side(80, 80)));
    assert_eq!(r, DetectedGoal::Home);
}

#[test]
fn both_sides_triggered_scores_home() {
    let d = GoalDetector::new(0);
    let r = d.scan(&input(5000, side(10, 20), side(5, 5)));
    assert_eq!(r, DetectedGoal::Home);
}

#[test]
fn cooldown_swallows_a_trigger() {
    let d = GoalDetector::new(1000);
    let r = d.scan(&input(2500, side(30, 30), side(80, 80)));
    assert_eq!(r, DetectedGoal::NoGoal);
}

#[test]
fn cooldown_boundary_is_inclusive() {
    let d = GoalDetector::new(1000);
    let just_before = input(1000 + WAIT_AFTER_DETECTION_MS - 1, side(30, 30), side(80, 80));
    let at_end = input(1000 + WAIT_AFTER_DETECTION_MS, side(30, 30), side(80, 80));
    assert_eq!(d.scan(&just_before), DetectedGoal::NoGoal);
    assert_eq!(d.scan(&at_end), DetectedGoal::Home);
}

#[test]
fn clock_before_anchor_counts_as_cooldown() {
    let d = GoalDetector::new(10_000);
    let r = d.scan(&input(0, side(30, 30), side(80, 80)));
    assert_eq!(r, DetectedGoal::NoGoal);
}

#[test]
fn away_only_scores_away() {
    let d = GoalDetector::new(0);
    let r = d.scan(&input(5000, side(60, 60), side(80, 49)));
    assert_eq!(r, DetectedGoal::Away);
}

#[test]
fn quiet_sensors_score_nothing() {
    let d = GoalDetector::new(0);
    let r = d.scan(&input(5000, side(60, 70), side(80, 90)));
    assert_eq!(r, DetectedGoal::NoGoal);
}

#[test]
fn reading_equal_to_threshold_does_not_trigger() {
    let d = GoalDetector::new(0);
    let r = d.scan(&input(5000, side(50, 50), side(50, 50)));
    assert_eq!(r, DetectedGoal::NoGoal);
}

#[test]
fn second_channel_alone_triggers() {
    let d = GoalDetector::new(0);
    let r = d.scan(&input(5000, side(90, 12), side(80, 80)));
    assert_eq!(r, DetectedGoal::Home);
}

#[test]
fn home_fault_gives_nothing_even_with_away_triggered() {
    let d = GoalDetector::new(0);
    let home = SideReadings { first: Err(SensorFault), second: Ok(10) };
    let r = d.scan(&input(5000, home, side(5, 5)));
    assert_eq!(r, DetectedGoal::NoGoal);
}

#[test]
fn away_fault_gives_nothing_even_with_home_triggered() {
    let d = GoalDetector::new(0);
    let away = SideReadings { first: Ok(80), second: Err(SensorFault) };
    let r = d.scan(&input(5000, side(10, 10), away));
    assert_eq!(r, DetectedGoal::NoGoal);
}

#[test]
fn side_check_reports_fault_and_trigger() {
    let faulty = SideReadings { first: Ok(10), second: Err(SensorFault) };
    assert_eq!(faulty.triggered(50), Err(SensorFault));
    assert_eq!(side(10, 90).triggered(50), Ok(true));
    assert_eq!(side(60, 90).triggered(50), Ok(false));
}

#[test]
fn thresholds_of_each_side_are_used() {
    let d = GoalDetector::new(0);
    let mut thresholds = ThresholdStore::new(50);
    thresholds.home = 20;
    thresholds.away = 100;
    let scan = ScanInput { now: 5000, thresholds, home: side(30, 30), away: side(90, 90) };
    assert_eq!(d.scan(&scan), DetectedGoal::Away);
}

#[test]
fn scan_leaves_anchor_and_last_goal_now_moves_it() {
    let mut d = GoalDetector::new(0);
    let scan = input(5000, side(30, 30), side(80, 80));
    assert_eq!(d.scan(&scan), DetectedGoal::Home);
    assert_eq!(d.last_goal, 0);
    assert_eq!(d.scan(&scan), DetectedGoal::Home);
    d.last_goal_now(5000);
    assert_eq!(d.last_goal, 5000);
    assert_eq!(d.scan(&scan), DetectedGoal::NoGoal);
}

#[test]
fn step_accepts_goal_and_opens_cooldown() {
    let mut d = GoalDetector::new(0);
    assert_eq!(d.step(&input(3000, side(30, 30), side(80, 80))), DetectedGoal::Home);
    assert_eq!(d.last_goal, 3000);
    assert_eq!(d.step(&input(3500, side(80, 80), side(10, 10))), DetectedGoal::NoGoal);
    assert_eq!(d.last_goal, 3000);
    assert_eq!(d.step(&input(4999, side(80, 80), side(10, 10))), DetectedGoal::NoGoal);
    assert_eq!(d.step(&input(5000, side(80, 80), side(10, 10))), DetectedGoal::Away);
    assert_eq!(d.last_goal, 5000);
}

#[test]
fn goals_of_a_run_are_a_window_apart() {
    let mut d = GoalDetector::new(0);
    let mut goal_times: Vec<u64> = Vec::new();
    let mut now: u64 = 0;
    while now < 20_000 {
        let scan = input(now, side(10, 10), side(10, 10));
        if d.step(&scan) != DetectedGoal::NoGoal {
            goal_times.push(now);
        }
        now += 7;
    }
    assert!(goal_times.len() > 2);
    for pair in goal_times.windows(2) {
        assert!(pair[1] - pair[0] >= WAIT_AFTER_DETECTION_MS);
    }
}

#[test]
fn labels_of_outcomes() {
    assert_eq!(DetectedGoal::Home.to_string(), "Home");
    assert_eq!(DetectedGoal::Away.to_string(), "Away");
    assert_eq!(DetectedGoal::NoGoal.to_string(), "None");
    assert_eq!(DetectedGoal::default(), DetectedGoal::NoGoal);
}
