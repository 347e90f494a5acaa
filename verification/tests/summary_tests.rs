use timeular_cli::model::{ActivitiesResponse, Activity, ApiError, CurrentTracking, Note,
    TrackingResponse};
use timeular_cli::summary::cur_tracking_str;
use timeular_cli::summary::resolve_activity;

fn activity(id: &str, name: &str) -> Activity {
    Activity {
        id: id.to_string(),
        name: name.to_string(),
        color: "#a1b2c3".to_string(),
        integration: None,
        space_id: "1".to_string(),
        device_side: None,
    }
}

#[test]
fn summary_renders_activity_name_not_id() {
    let tracking = TrackingResponse {
        current_tracking: Some(CurrentTracking {
            id: 7,
            activity_id: "A1".to_string(),
            started_at: 1_000,
            note: None,
        }),
    };
    let activities = ActivitiesResponse { activities: vec![activity("A1", "Writing")] };
    let line = cur_tracking_str(&tracking, &activities, 1_000).unwrap();
    assert_eq!(line, "[00:00] Writing: \n");
    assert!(line.contains("Writing"));
    assert!(!line.contains("A1"));
}

#[test]
fn summary_when_nothing_is_tracked() {
    let tracking = TrackingResponse { current_tracking: None };
    let activities = ActivitiesResponse { activities: vec![] };
    let line = cur_tracking_str(&tracking, &activities, 123_456).unwrap();
    assert_eq!(line, "Nothing is being tracked\n");
}

#[test]
fn summary_elapsed_of_125_minutes_renders_02_05() {
    let started = 50_000u64;
    let now = started + 125 * 60;
    let tracking = TrackingResponse {
        current_tracking: Some(CurrentTracking {
            id: 1,
            activity_id: "A1".to_string(),
            started_at: started,
            note: None,
        }),
    };
    let activities = ActivitiesResponse { activities: vec![activity("A1", "Writing")] };
    let line = cur_tracking_str(&tracking, &activities, now).unwrap();
    assert!(line.starts_with("[02:05]"));
}

#[test]
fn summary_shows_note_text() {
    let tracking = TrackingResponse {
        current_tracking: Some(CurrentTracking {
            id: 1,
            activity_id: "A2".to_string(),
            started_at: 0,
            note: Some(Note {
                text: Some("drafting".to_string()),
                tags: vec![],
                mentions: vec![],
            }),
        }),
    };
    let activities = ActivitiesResponse { activities: vec![activity("A2", "Writing")] };
    let line = cur_tracking_str(&tracking, &activities, 61 * 60).unwrap();
    assert_eq!(line, "[01:01] Writing: drafting\n");
}

#[test]
fn summary_note_without_text_renders_empty() {
    let tracking = TrackingResponse {
        current_tracking: Some(CurrentTracking {
            id: 1,
            activity_id: "A2".to_string(),
            started_at: 0,
            note: Some(Note { text: None, tags: vec![], mentions: vec![] }),
        }),
    };
    let activities = ActivitiesResponse { activities: vec![activity("A2", "Reading")] };
    let line = cur_tracking_str(&tracking, &activities, 0).unwrap();
    assert_eq!(line, "[00:00] Reading: \n");
}

#[test]
fn summary_hours_wrap_at_sixty() {
    // 61 hours elapsed: the hour field is rendered modulo 60.
    let tracking = TrackingResponse {
        current_tracking: Some(CurrentTracking {
            id: 1,
            activity_id: "A1".to_string(),
            started_at: 0,
            note: None,
        }),
    };
    let activities = ActivitiesResponse { activities: vec![activity("A1", "Writing")] };
    let line = cur_tracking_str(&tracking, &activities, 61 * 3600).unwrap();
    assert!(line.starts_with("[01:00]"));
}

#[test]
fn summary_clock_behind_start_renders_zero() {
    let tracking = TrackingResponse {
        current_tracking: Some(CurrentTracking {
            id: 1,
            activity_id: "A1".to_string(),
            started_at: 10_000,
            note: None,
        }),
    };
    let activities = ActivitiesResponse { activities: vec![activity("A1", "Writing")] };
    let line = cur_tracking_str(&tracking, &activities, 5_000).unwrap();
    assert!(line.starts_with("[00:00]"));
}

#[test]
fn summary_unresolved_activity_is_an_error() {
    let tracking = TrackingResponse {
        current_tracking: Some(CurrentTracking {
            id: 1,
            activity_id: "gone".to_string(),
            started_at: 0,
            note: None,
        }),
    };
    let activities = ActivitiesResponse { activities: vec![activity("A1", "Writing")] };
    match cur_tracking_str(&tracking, &activities, 100) {
        Err(ApiError::ActivityNotFound { name }) => assert_eq!(name, "gone"),
        _ => panic!("expected an unresolved-activity error"),
    }
}

#[test]
fn resolve_activity_takes_first_exact_match() {
    let activities = vec![
        activity("A1", "Writing"),
        activity("A2", "Reading"),
        activity("A3", "Reading"),
    ];
    let found = resolve_activity(&activities, &"Reading".to_string()).unwrap();
    assert_eq!(found.id, "A2");
}

#[test]
fn resolve_activity_is_case_sensitive() {
    let activities = vec![activity("A1", "Writing")];
    assert!(resolve_activity(&activities, &"writing".to_string()).is_err());
}

#[test]
fn resolve_missing_activity_yields_not_found() {
    let activities = vec![activity("A1", "Writing")];
    match resolve_activity(&activities, &"Nonexistent".to_string()) {
        Err(ApiError::ActivityNotFound { name }) => assert_eq!(name, "Nonexistent"),
        _ => panic!("expected an unresolved-activity error"),
    }
}
