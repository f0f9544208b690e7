use screen_recorder::window::{
    assemble_window_list, WindowCandidate, WindowInfo, WindowManager,
};

fn info(id: u64, owner: &str, title: &str) -> WindowInfo {
    WindowInfo {
        window_id: id,
        owner_name: owner.to_string(),
        window_title: title.to_string(),
        x: 0,
        y: 0,
        width: 640,
        height: 480,
    }
}

fn candidate(id: Option<i64>, owner: Option<&str>, title: Option<&str>, layer: Option<i64>) -> WindowCandidate {
    WindowCandidate {
        window_id: id,
        owner_name: owner.map(|s| s.to_string()),
        window_title: title.map(|s| s.to_string()),
        layer,
        x: 1,
        y: 2,
        width: 300,
        height: 200,
    }
}

#[test]
fn display_name_falls_back_for_untitled_windows() {
    assert_eq!(info(1, "Safari", "Docs").display_name(), "Safari — Docs");
    assert_eq!(info(1, "Safari", "").display_name(), "Safari — (untitled)");
}

#[test]
fn dimensions_string_is_exact() {
    assert_eq!(info(1, "A", "B").dimensions_str(), "640x480");
    let mut w = info(1, "A", "B");
    w.width = -5;
    w.height = 0;
    assert_eq!(w.dimensions_str(), "-5x0");
}

#[test]
fn window_list_filters_and_sorts() {
    let candidates = vec![
        candidate(Some(9), Some("Zed"), Some("b"), Some(0)),
        candidate(Some(1), Some("App"), Some("z"), Some(0)),
        // Wrong layer: dropped.
        candidate(Some(2), Some("App"), Some("a"), Some(25)),
        // No identifier: dropped.
        candidate(None, Some("App"), Some("a"), Some(0)),
        // Entirely nameless: dropped.
        candidate(Some(3), None, None, Some(0)),
        candidate(Some(4), Some("App"), Some("a"), Some(0)),
        // Missing title reads as empty and sorts first for its owner.
        candidate(Some(5), Some("App"), None, Some(0)),
    ];
    let list = assemble_window_list(&candidates);
    let keys: Vec<(String, String, u64)> = list
        .iter()
        .map(|w| (w.owner_name.clone(), w.window_title.clone(), w.window_id))
        .collect();
    assert_eq!(
        keys,
        vec![
            ("App".to_string(), "".to_string(), 5),
            ("App".to_string(), "a".to_string(), 4),
            ("App".to_string(), "z".to_string(), 1),
            ("Zed".to_string(), "b".to_string(), 9),
        ]
    );
    assert_eq!(list[0].x, 1);
    assert_eq!(list[0].width, 300);
}

#[test]
fn registry_lookup_and_staleness() {
    let mut m = WindowManager::new(1_000);
    assert!(m.get_window(5).is_none());
    m.refresh(vec![info(5, "App", "T"), info(9, "Other", "U")], 2_000);
    assert_eq!(m.windows().len(), 2);
    let w = m.get_window(9).expect("window 9 present");
    assert_eq!(w.owner_name, "Other");
    assert!(m.get_window(4).is_none());

    assert!(!m.should_auto_refresh(2_000));
    assert!(!m.should_auto_refresh(5_000));
    assert!(m.should_auto_refresh(5_001));
}
