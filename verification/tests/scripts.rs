use queries::scripts::{OpenedFile, OpenedScripts, ScriptAction, ScriptEvent};

fn new_tab(m: &mut OpenedScripts) {
    let n = m.count();
    m.process(ScriptAction::NewRequest);
    assert!(m.count() == n + 1 || n == 16);
}

fn names(m: &OpenedScripts) -> Vec<String> {
    let mut v = Vec::new();
    let mut i = 0;
    while i < m.count() {
        v.push(m.tab(i).name.clone());
        i += 1;
    }
    v
}

#[test]
fn two_new_tabs_then_close_first() {
    let mut m = OpenedScripts::new();
    m.process(ScriptAction::NewRequest);
    m.process(ScriptAction::NewRequest);
    assert_eq!(names(&m), vec!["Untitled 1.sql".to_string(), "Untitled 2.sql".to_string()]);
    assert!(m.tab(0).saved);
    assert!(m.tab(1).saved);
    let events = m.process(ScriptAction::CloseRequest(0, false));
    assert_eq!(names(&m), vec!["Untitled 2.sql".to_string()]);
    assert_eq!(events.len(), 1);
    match &events[0] {
        ScriptEvent::TabClosed(removed, remaining) => {
            assert_eq!(*removed, 0);
            assert_eq!(*remaining, 1);
        },
        _ => panic!("expected a close notification"),
    }
}

#[test]
fn new_requests_fill_up_to_capacity() {
    let mut m = OpenedScripts::new();
    for expected in 1..=16 {
        let events = m.process(ScriptAction::NewRequest);
        assert_eq!(m.count(), expected);
        assert_eq!(events.len(), 1);
    }
    let events = m.process(ScriptAction::NewRequest);
    assert_eq!(m.count(), 16);
    assert!(events.is_empty());
}

#[test]
fn untitled_names_are_sequential() {
    let mut m = OpenedScripts::new();
    for _ in 0..12 {
        new_tab(&mut m);
    }
    assert_eq!(m.tab(6).name, "Untitled 7.sql");
    assert_eq!(m.tab(9).name, "Untitled 10.sql");
    assert_eq!(m.tab(11).name, "Untitled 12.sql");
}

#[test]
fn naming_follows_current_count() {
    let mut m = OpenedScripts::new();
    m.process(ScriptAction::NewRequest);
    m.process(ScriptAction::NewRequest);
    m.process(ScriptAction::CloseRequest(0, false));
    m.process(ScriptAction::NewRequest);
    assert_eq!(names(&m), vec!["Untitled 2.sql".to_string(), "Untitled 2.sql".to_string()]);
}

#[test]
fn closing_a_middle_tab_shifts_and_reindexes() {
    let mut m = OpenedScripts::new();
    m.process(ScriptAction::NewRequest);
    m.process(ScriptAction::NewRequest);
    m.process(ScriptAction::NewRequest);
    let events = m.process(ScriptAction::CloseRequest(1, false));
    assert_eq!(names(&m), vec!["Untitled 1.sql".to_string(), "Untitled 3.sql".to_string()]);
    assert_eq!(m.tab(0).index, 0);
    assert_eq!(m.tab(1).index, 1);
    match &events[0] {
        ScriptEvent::TabClosed(removed, remaining) => {
            assert_eq!((*removed, *remaining), (1, 2));
        },
        _ => panic!("expected a close notification"),
    }
}

#[test]
fn closing_a_dirty_tab_asks_for_confirmation() {
    let mut m = OpenedScripts::new();
    m.process(ScriptAction::NewRequest);
    m.process(ScriptAction::NewRequest);
    m.process(ScriptAction::SetSaved(1, false));
    let events = m.process(ScriptAction::CloseRequest(1, false));
    assert_eq!(m.count(), 2);
    assert_eq!(events.len(), 1);
    match &events[0] {
        ScriptEvent::CloseConfirm(file) => {
            assert_eq!(file.name, "Untitled 2.sql");
            assert!(!file.saved);
            assert_eq!(file.index, 1);
        },
        _ => panic!("expected a confirmation request"),
    }
}

#[test]
fn forced_close_removes_a_dirty_tab() {
    let mut m = OpenedScripts::new();
    m.process(ScriptAction::NewRequest);
    m.process(ScriptAction::SetSaved(0, false));
    let events = m.process(ScriptAction::CloseRequest(0, true));
    assert_eq!(m.count(), 0);
    assert_eq!(events.len(), 1);
    assert!(matches!(events[0], ScriptEvent::TabClosed(0, 0)));
}

#[test]
fn saved_then_changed_notifications_in_order() {
    let mut m = OpenedScripts::new();
    m.process(ScriptAction::NewRequest);
    let persisted = m.process(ScriptAction::SetSaved(0, true));
    let changed = m.process(ScriptAction::SetSaved(0, false));
    assert_eq!(persisted.len(), 1);
    assert!(matches!(persisted[0], ScriptEvent::FilePersisted(0)));
    assert_eq!(changed.len(), 1);
    assert!(matches!(changed[0], ScriptEvent::FileChanged(0)));
}

#[test]
fn window_close_with_everything_saved_destroys_at_once() {
    let mut m = OpenedScripts::new();
    m.process(ScriptAction::NewRequest);
    m.process(ScriptAction::NewRequest);
    let events = m.process(ScriptAction::WindowCloseRequest);
    assert_eq!(events.len(), 1);
    assert!(matches!(events[0], ScriptEvent::WindowDestroyed));
    assert!(!m.close_deferred());
    assert_eq!(m.count(), 2);
}

#[test]
fn window_close_with_a_dirty_tab_defers_destruction() {
    let mut m = OpenedScripts::new();
    m.process(ScriptAction::NewRequest);
    m.process(ScriptAction::NewRequest);
    m.process(ScriptAction::NewRequest);
    m.process(ScriptAction::SetSaved(1, false));
    m.process(ScriptAction::SetSaved(2, false));
    let events = m.process(ScriptAction::WindowCloseRequest);
    assert_eq!(m.count(), 3);
    assert!(m.close_deferred());
    assert_eq!(events.len(), 1);
    match &events[0] {
        ScriptEvent::CloseConfirm(file) => {
            assert_eq!(file.name, "Untitled 2.sql");
        },
        _ => panic!("expected a confirmation request"),
    }
    let events = m.process(ScriptAction::CloseRequest(1, true));
    assert_eq!(m.count(), 2);
    assert_eq!(events.len(), 2);
    assert!(matches!(events[0], ScriptEvent::TabClosed(1, 2)));
    assert!(matches!(events[1], ScriptEvent::WindowDestroyed));
}

#[test]
fn open_request_asks_for_a_file_read() {
    let mut m = OpenedScripts::new();
    let events = m.process(ScriptAction::OpenRequest("reports/sales.sql".to_string()));
    assert_eq!(events.len(), 1);
    match &events[0] {
        ScriptEvent::FileReadRequested(path) => assert_eq!(path, "reports/sales.sql"),
        _ => panic!("expected a file read request"),
    }
    assert_eq!(m.count(), 0);
}

#[test]
fn open_request_at_capacity_is_ignored() {
    let mut m = OpenedScripts::new();
    for _ in 0..16 {
        m.process(ScriptAction::NewRequest);
    }
    let events = m.process(ScriptAction::OpenRequest("late.sql".to_string()));
    assert!(events.is_empty());
}

#[test]
fn open_success_appends_a_saved_tab() {
    let mut m = OpenedScripts::new();
    m.process(ScriptAction::NewRequest);
    let file = OpenedFile {
        name: "sales.sql".to_string(),
        path: Some("reports/sales.sql".to_string()),
        content: Some("select 1;".to_string()),
        saved: false,
        index: 99,
    };
    let events = m.process(ScriptAction::OpenSuccess(file));
    assert_eq!(m.count(), 2);
    let tab = m.tab(1);
    assert_eq!(tab.name, "sales.sql");
    assert_eq!(tab.path.as_deref(), Some("reports/sales.sql"));
    assert_eq!(tab.content.as_deref(), Some("select 1;"));
    assert!(tab.saved);
    assert_eq!(tab.index, 1);
    assert_eq!(events.len(), 1);
    assert!(matches!(&events[0], ScriptEvent::OpenedTab(_)));
}

#[test]
fn open_failure_surfaces_the_message() {
    let mut m = OpenedScripts::new();
    let events = m.process(ScriptAction::OpenFailure("no such file".to_string()));
    assert_eq!(events.len(), 1);
    match &events[0] {
        ScriptEvent::OpenFailed(msg) => assert_eq!(msg, "no such file"),
        _ => panic!("expected a failure notification"),
    }
    assert_eq!(m.count(), 0);
}

#[test]
fn selection_is_recorded_and_notified() {
    let mut m = OpenedScripts::new();
    m.process(ScriptAction::NewRequest);
    m.process(ScriptAction::NewRequest);
    let events = m.process(ScriptAction::Select(Some(1)));
    assert_eq!(m.selection(), Some(1));
    assert_eq!(events.len(), 1);
    assert!(matches!(events[0], ScriptEvent::SelectionChanged(Some(1))));
    let events = m.process(ScriptAction::Select(None));
    assert_eq!(m.selection(), None);
    assert!(matches!(events[0], ScriptEvent::SelectionChanged(None)));
}

#[test]
fn unhandled_requests_change_nothing() {
    let mut m = OpenedScripts::new();
    m.process(ScriptAction::NewRequest);
    assert!(m.process(ScriptAction::SaveRequest(0)).is_empty());
    assert!(m.process(ScriptAction::CloseConfirm(0)).is_empty());
    assert!(m.process(ScriptAction::Opened("a".to_string())).is_empty());
    assert!(m.process(ScriptAction::Closed("a".to_string())).is_empty());
    assert!(m.process(ScriptAction::ActiveTextChanged(Some("select".to_string()))).is_empty());
    assert_eq!(m.count(), 1);
    assert_eq!(m.tab(0).name, "Untitled 1.sql");
}

#[test]
fn untitled_label_builds_decimal_names() {
    assert_eq!(queries::scripts::untitled_label(1), "Untitled 1.sql");
    assert_eq!(queries::scripts::untitled_label(9), "Untitled 9.sql");
    assert_eq!(queries::scripts::untitled_label(10), "Untitled 10.sql");
    assert_eq!(queries::scripts::untitled_label(16), "Untitled 16.sql");
}
