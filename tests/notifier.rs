use kickir::notifier::decimal_string;
use kickir::{DetectedGoal, GoalDetector, Notifier, ScanInput, SideReadings, ThresholdStore};

#[test]
fn first_goals_get_one_and_two() {
    let mut n = Notifier::new();
    assert_eq!(n.next_message(DetectedGoal::Home), "1: Home");
    assert_eq!(n.sequence, 1);
    assert_eq!(n.next_message(DetectedGoal::Away), "2: Away");
    assert_eq!(n.sequence, 2);
}

#[test]
fn quiet_scans_do_not_advance_sequence() {
    let thresholds = ThresholdStore::new(50);
    let quiet = SideReadings { first: Ok(90), second: Ok(90) };
    let hit = SideReadings { first: Ok(10), second: Ok(90) };
    let mut detector = GoalDetector::new(0);
    let mut notifier = Notifier::new();
    let mut sent: Vec<String> = Vec::new();
    let scans = [
        (2500, hit, quiet),
        (2600, quiet, quiet),
        (3000, quiet, hit),
        (4000, quiet, quiet),
        (6000, quiet, quiet),
        (7000, quiet, hit),
    ];
    for (now, home, away) in scans {
        let goal = detector.step(&ScanInput { now, thresholds, home, away });
        if goal != DetectedGoal::NoGoal {
            sent.push(notifier.next_message(goal));
        }
    }
    assert_eq!(sent, vec!["1: Home".to_string(), "2: Away".to_string()]);
}

#[test]
fn sequence_pins_at_maximum() {
    let mut n = Notifier { sequence: u32::MAX - 1 };
    assert_eq!(n.next_message(DetectedGoal::Away), "4294967295: Away");
    assert_eq!(n.sequence, u32::MAX);
    assert_eq!(n.next_message(DetectedGoal::Home), "4294967295: Home");
    assert_eq!(n.sequence, u32::MAX);
}

#[test]
fn sequence_strictly_increases_over_a_run() {
    let mut n = Notifier { sequence: 100 };
    let mut last = n.sequence;
    for _ in 0..50 {
        n.next_message(DetectedGoal::Home);
        assert!(n.sequence > last);
        last = n.sequence;
    }
    assert_eq!(last, 150);
}

#[test]
fn decimal_text_of_numbers() {
    assert_eq!(decimal_string(0), "0");
    assert_eq!(decimal_string(7), "7");
    assert_eq!(decimal_string(10), "10");
    assert_eq!(decimal_string(1234567890), "1234567890");
    assert_eq!(decimal_string(u32::MAX), "4294967295");
}
