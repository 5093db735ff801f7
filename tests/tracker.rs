use aw_watcher_sway::payload::{parse_window_event, PayloadError};
use aw_watcher_sway::tracker::{
    bucket_id, Activity, BucketKind, FocusTracker, Heartbeat, Interval, WindowEvent,
};

fn event(focused: bool, class: &str, name: &str) -> WindowEvent {
    WindowEvent { focused, window_class: class.to_string(), window_title: name.to_string() }
}

fn window_of(h: &Heartbeat) -> (String, String) {
    match &h.activity {
        Activity::Window { app, title } => (app.clone(), title.clone()),
        Activity::NotAfk => panic!("not a window heartbeat"),
    }
}

const FOCUS_PAYLOAD: &[u8] =
    br#"{"change":"focus","container":{"focused":true,"name":"Example","window_properties":{"class":"Firefox"}}}"#;

#[test]
fn unfocused_event_is_ignored() {
    let mut t = FocusTracker::new();
    let beats = t.handle_event(&event(false, "Firefox", "Example"), 1000);
    assert!(beats.is_empty());
    assert!(t.previous.is_none());

    let mut t = FocusTracker {
        previous: Some(Interval { start_ms: 5, app_name: "a".to_string(), title: "b".to_string() }),
    };
    let beats = t.handle_event(&event(false, "x", "y"), 9000);
    assert!(beats.is_empty());
    let p = t.previous.unwrap();
    assert_eq!((p.start_ms, p.app_name.as_str(), p.title.as_str()), (5, "a", "b"));
}

#[test]
fn unfocused_payload_is_ignored() {
    let mut t = FocusTracker::new();
    let payload = br#"{"change":"focus","container":{"focused":false,"name":"Example","window_properties":{"class":"Firefox"}}}"#;
    assert!(t.handle_payload(payload, 1000).unwrap().is_empty());
    assert!(t.previous.is_none());
    let payload = br#"{"container":{"focused":"yes","name":"E"}}"#;
    assert!(t.handle_payload(payload, 1000).unwrap().is_empty());
    assert!(t.previous.is_none());
}

#[test]
fn first_focus_event() {
    let mut t = FocusTracker::new();
    let beats = t.handle_event(&event(true, "Firefox", "Example"), 1_700_000_000_000);
    assert_eq!(beats.len(), 2);
    assert_eq!(beats[0].bucket, BucketKind::Window);
    assert_eq!(beats[0].pulsetime_ms, 0);
    assert_eq!(beats[0].timestamp_ms, 1_700_000_000_000);
    assert_eq!(window_of(&beats[0]), ("Firefox".to_string(), "Example".to_string()));
    assert_eq!(beats[1].bucket, BucketKind::Afk);
    assert_eq!(beats[1].pulsetime_ms, 120_000);
    assert!(matches!(beats[1].activity, Activity::NotAfk));
    let p = t.previous.unwrap();
    assert_eq!(p.start_ms, 1_700_000_000_000);
    assert_eq!((p.app_name.as_str(), p.title.as_str()), ("Firefox", "Example"));
}

#[test]
fn first_focus_payload() {
    let mut t = FocusTracker::new();
    let beats = t.handle_payload(FOCUS_PAYLOAD, 42_000).unwrap();
    assert_eq!(beats.len(), 2);
    assert_eq!(window_of(&beats[0]), ("Firefox".to_string(), "Example".to_string()));
    assert_eq!(beats[0].pulsetime_ms, 0);
    assert_eq!(beats[1].bucket, BucketKind::Afk);
    assert_eq!(beats[0].timestamp_ms, 42_000);
    assert_eq!(beats[1].timestamp_ms, 42_000);
    assert_eq!(t.previous.unwrap().start_ms, 42_000);
}

#[test]
fn merge_computation() {
    let t0: i64 = 1_700_000_000_000;
    let mut t = FocusTracker::new();
    t.handle_event(&event(true, "Firefox", "Example"), t0);
    let beats = t.handle_event(&event(true, "Alacritty", "shell"), t0 + 5000);
    assert_eq!(beats.len(), 3);
    assert_eq!(beats[0].bucket, BucketKind::Window);
    assert_eq!(beats[0].pulsetime_ms, 6000);
    assert_eq!(beats[0].pulsetime_ms as f64 / 1000.0, 6.0);
    assert_eq!(beats[0].timestamp_ms, t0 + 5000);
    assert_eq!(window_of(&beats[0]), ("Firefox".to_string(), "Example".to_string()));
    assert_eq!(window_of(&beats[1]), ("Alacritty".to_string(), "shell".to_string()));
    assert_eq!(beats[1].pulsetime_ms, 0);
    assert_eq!(beats[2].bucket, BucketKind::Afk);
    assert_eq!(beats[2].timestamp_ms, t0 + 5000);
    assert_eq!(t.previous.unwrap().start_ms, t0 + 5000);
}

#[test]
fn same_window_reopens_interval() {
    let mut t = FocusTracker::new();
    t.handle_event(&event(true, "Firefox", "Example"), 0);
    let beats = t.handle_event(&event(true, "Firefox", "Example"), 250);
    assert_eq!(beats.len(), 3);
    assert_eq!(beats[0].pulsetime_ms, 1250);
    assert_eq!(t.previous.unwrap().start_ms, 250);
}

#[test]
fn merge_with_extreme_times() {
    let mut t = FocusTracker::new();
    t.handle_event(&event(true, "a", "b"), i64::MIN);
    let beats = t.handle_event(&event(true, "a", "b"), i64::MAX);
    assert_eq!(beats[0].pulsetime_ms, i64::MAX as i128 - i64::MIN as i128 + 1000);
}

#[test]
fn afk_heartbeat_always_last() {
    let mut t = FocusTracker::new();
    for (i, name) in ["one", "two", "three"].iter().enumerate() {
        let beats = t.handle_event(&event(true, "App", name), 1000 * i as i64);
        let last = beats.last().unwrap();
        assert_eq!(last.bucket, BucketKind::Afk);
        assert_eq!(last.timestamp_ms, 1000 * i as i64);
        assert!(beats[..beats.len() - 1].iter().all(|h| h.bucket == BucketKind::Window));
    }
}

#[test]
fn malformed_payload_is_error() {
    let mut t = FocusTracker::new();
    assert_eq!(t.handle_payload(b"{not json", 0).err(), Some(PayloadError::Malformed));
    assert!(t.previous.is_none());
    assert_eq!(parse_window_event(b"").err(), Some(PayloadError::Malformed));
}

#[test]
fn parse_focus_fields() {
    let e = parse_window_event(FOCUS_PAYLOAD).unwrap();
    assert!(e.focused);
    assert_eq!(e.window_class, "Firefox");
    assert_eq!(e.window_title, "Example");
}

#[test]
fn parse_decodes_string_escapes() {
    let e = parse_window_event(
        br#"{"container":{"focused":true,"name":"a \"quoted\" title","window_properties":{"class":null}}}"#,
    )
    .unwrap();
    assert!(e.focused);
    assert_eq!(e.window_title, "a \"quoted\" title");
    assert_eq!(e.window_class, "");
}

#[test]
fn parse_missing_container() {
    let e = parse_window_event(br#"{"change":"new"}"#).unwrap();
    assert!(!e.focused);
    assert_eq!(e.window_class, "");
    assert_eq!(e.window_title, "");
}

#[test]
fn bucket_identifiers() {
    assert_eq!(bucket_id(BucketKind::Window, "host1"), "aw-watcher-window_host1");
    assert_eq!(bucket_id(BucketKind::Afk, "host1"), "aw-watcher-afk_host1");
    assert_eq!(bucket_id(BucketKind::Afk, ""), "aw-watcher-afk_");
}

#[test]
fn payload_merge_names_previous_window() {
    let mut t = FocusTracker::new();
    t.handle_payload(FOCUS_PAYLOAD, 10_000).unwrap();
    let second = br#"{"container":{"focused":true,"name":"notes.txt","window_properties":{"class":"Gedit"}}}"#;
    let beats = t.handle_payload(second, 15_000).unwrap();
    assert_eq!(beats.len(), 3);
    assert_eq!(beats[0].pulsetime_ms, 6000);
    assert_eq!(window_of(&beats[0]), ("Firefox".to_string(), "Example".to_string()));
    assert_eq!(window_of(&beats[1]), ("Gedit".to_string(), "notes.txt".to_string()));
    let p = t.previous.unwrap();
    assert_eq!((p.start_ms, p.app_name.as_str(), p.title.as_str()), (15_000, "Gedit", "notes.txt"));
}

#[test]
fn activity_attributes() {
    let w = Activity::Window { app: "Firefox".to_string(), title: "Example".to_string() };
    assert_eq!(
        w.attributes(),
        vec![
            ("app".to_string(), "Firefox".to_string()),
            ("title".to_string(), "Example".to_string())
        ]
    );
    assert_eq!(
        Activity::NotAfk.attributes(),
        vec![("status".to_string(), "not-afk".to_string())]
    );
}
