use badge_access_simulator::analysis::{
    cloned_badge_anomaly, count_anomalies, curious_access_anomaly, detect_cloned_badges_in, detect_curious_users_in,
    detect_night_shift_users_in, insert_after_last_bracket, night_anomaly_for_time, night_shift_anomaly, upload_summary,
};

const WHEN: &str = "2024-01-15T10:00:00+00:00";

#[test]
fn cloned_badge_is_reported_only_when_flagged() {
    assert!(cloned_badge_anomaly("u1".to_string(), false, WHEN.to_string()).is_none());
    let a = cloned_badge_anomaly("u1".to_string(), true, WHEN.to_string()).unwrap();
    assert_eq!(a.user_id, "u1");
    assert_eq!(a.anomaly_type, "cloned_badge");
    assert_eq!(a.details, "User has a cloned badge assigned.");
    assert_eq!(a.issue, "Multiple active badge IDs detected");
    assert_eq!(a.severity, "high");
    assert_eq!(a.timestamp, WHEN);
}

#[test]
fn curious_user_is_reported_only_when_flagged() {
    assert!(curious_access_anomaly("u2".to_string(), false, WHEN.to_string()).is_none());
    let a = curious_access_anomaly("u2".to_string(), true, WHEN.to_string()).unwrap();
    assert_eq!(a.anomaly_type, "curious_access");
    assert_eq!(a.details, "User accessed unauthorized rooms.");
    assert_eq!(a.issue, "Unauthorized access pattern detected");
    assert_eq!(a.severity, "high");
}

#[test]
fn night_access_bounds() {
    let night = night_shift_anomaly("u3".to_string(), Some("05:59:59"), WHEN.to_string()).unwrap();
    assert_eq!(night.anomaly_type, "night_shift_access");
    assert_eq!(night.details, "User accessed during night hours: 05:59:59");
    assert_eq!(night.issue, "Access outside normal business hours");
    assert_eq!(night.severity, "medium");
    assert!(night_shift_anomaly("u3".to_string(), Some("06:00:00"), WHEN.to_string()).is_none());
    assert!(night_shift_anomaly("u3".to_string(), Some("22:00:00"), WHEN.to_string()).is_none());
    assert!(night_shift_anomaly("u3".to_string(), Some("22:00:01"), WHEN.to_string()).is_some());
    assert!(night_shift_anomaly("u3".to_string(), Some("not a time"), WHEN.to_string()).is_none());
    assert!(night_shift_anomaly("u3".to_string(), None, WHEN.to_string()).is_none());
}

#[test]
fn night_access_from_a_read_time() {
    assert!(night_anomaly_for_time("u4".to_string(), "x", Some(0), WHEN.to_string()).is_some());
    assert!(night_anomaly_for_time("u4".to_string(), "x", Some(21_600), WHEN.to_string()).is_none());
    assert!(night_anomaly_for_time("u4".to_string(), "x", Some(79_200), WHEN.to_string()).is_none());
    assert!(night_anomaly_for_time("u4".to_string(), "x", Some(79_201), WHEN.to_string()).is_some());
    assert!(night_anomaly_for_time("u4".to_string(), "x", None, WHEN.to_string()).is_none());
}

#[test]
fn anomalies_are_counted_by_kind() {
    let anomalies = vec![
        cloned_badge_anomaly("a".to_string(), true, WHEN.to_string()).unwrap(),
        curious_access_anomaly("b".to_string(), true, WHEN.to_string()).unwrap(),
        cloned_badge_anomaly("c".to_string(), true, WHEN.to_string()).unwrap(),
    ];
    assert_eq!(count_anomalies(&anomalies, "cloned_badge"), 2);
    assert_eq!(count_anomalies(&anomalies, "curious_access"), 1);
    assert_eq!(count_anomalies(&anomalies, "night_shift_access"), 0);
}

#[test]
fn upload_summary_block() {
    assert_eq!(
        upload_summary("bucket", "T"),
        ",\n{\n    \"summary\": {\n        \"uploaded_to_s3\": true,\n        \"s3_bucket\": \"bucket\",\n        \"timestamp\": \"T\"\n    }\n}"
    );
}

#[test]
fn insertion_after_the_last_bracket() {
    assert_eq!(insert_after_last_bracket("[1] [2] tail", "X"), "[1] [2]X tail");
    assert_eq!(insert_after_last_bracket("no brackets", "X"), "no brackets");
    assert_eq!(insert_after_last_bracket("]", "X"), "]X");
}

fn profile_lines(lines: &[&str]) -> Vec<String> {
    lines.iter().map(|l| l.to_string()).collect()
}

#[test]
fn profile_checks_read_each_line_in_order() {
    let lines = profile_lines(&[
        r#"{"user_id": "alice", "has_cloned_badge": true, "is_curious": false, "last_access_time": "23:15:00"}"#,
        r#"{"user_id": "bob", "has_cloned_badge": false, "is_curious": true, "last_access_time": "12:00:00"}"#,
        r#"{"has_cloned_badge": true, "is_curious": "yes", "last_access_time": "05:59:59"}"#,
        r#"{"user_id": 7, "last_access_time": "not a time"}"#,
    ]);
    let cloned = detect_cloned_badges_in(&lines, "T").unwrap();
    assert_eq!(cloned.len(), 2);
    assert_eq!(cloned[0].user_id, "alice");
    assert_eq!(cloned[1].user_id, "unknown");
    assert_eq!(cloned[0].anomaly_type, "cloned_badge");
    assert_eq!(cloned[0].timestamp, "T");
    let curious = detect_curious_users_in(&lines, "T").unwrap();
    assert_eq!(curious.len(), 1);
    assert_eq!(curious[0].user_id, "bob");
    assert_eq!(curious[0].anomaly_type, "curious_access");
    let night = detect_night_shift_users_in(&lines, "T").unwrap();
    assert_eq!(night.len(), 2);
    assert_eq!(night[0].user_id, "alice");
    assert_eq!(night[0].details, "User accessed during night hours: 23:15:00");
    assert_eq!(night[1].user_id, "unknown");
    assert_eq!(night[1].details, "User accessed during night hours: 05:59:59");
}

#[test]
fn profile_checks_stop_at_a_line_that_is_not_json() {
    let lines = profile_lines(&[r#"{"user_id": "alice", "is_curious": true}"#, "not json", "{}"]);
    assert_eq!(detect_curious_users_in(&lines, "T").unwrap_err(), 1);
    assert_eq!(detect_cloned_badges_in(&lines, "T").unwrap_err(), 1);
    assert!(detect_night_shift_users_in(&profile_lines(&[]), "T").unwrap().is_empty());
}
