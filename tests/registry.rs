use fpm::{parse_id, AppState, Ecosystem, LogsMode, ProcessStatus, RestartMode};

fn eco(title: &str) -> Ecosystem {
    Ecosystem {
        title: title.to_string(),
        start: "node index.js".to_string(),
        shell: "/bin/sh".to_string(),
        description: None,
        restart: Some(RestartMode::OnError),
        logs: Some("out.log".to_string()),
        logs_mode: Some(LogsMode::Append),
        watch: Some(vec!["src".to_string()]),
    }
}

fn s(x: &str) -> String {
    x.to_string()
}

#[test]
fn ids_are_sequential_from_zero() {
    let mut app = AppState::default();
    assert_eq!(app.start_new_process(eco("a"), s("/a")), Some(0));
    assert_eq!(app.start_new_process(eco("b"), s("/b")), Some(1));
    assert_eq!(app.id, 2);
    let p = app.find_process_by_id(1).unwrap();
    assert_eq!(p.path, "/b");
    assert_eq!(p.state.status, ProcessStatus::Initialized);
}

#[test]
fn ids_not_reused_after_delete() {
    let mut app = AppState::default();
    app.start_new_process(eco("a"), s("/a"));
    app.start_new_process(eco("b"), s("/b"));
    assert!(app.delete_process(1));
    assert!(!app.delete_process(1));
    assert_eq!(app.start_new_process(eco("c"), s("/c")), Some(2));
    assert!(app.find_process_by_id(1).is_none());
    assert_eq!(app.find_process_by_id(2).unwrap().ecosystem.title, "c");
}

#[test]
fn ids_exhausted_at_counter_maximum() {
    let mut app = AppState::new(u32::MAX, Vec::new());
    assert_eq!(app.start_new_process(eco("a"), s("/a")), None);
    assert!(app.processes.is_empty());
}

#[test]
fn title_lookup_last_match_wins() {
    let mut app = AppState::default();
    app.start_new_process(eco("web"), s("/one"));
    app.start_new_process(eco("web"), s("/two"));
    app.start_new_process(eco("db"), s("/three"));
    assert_eq!(app.find_process_by_title(&s("web")).unwrap().id, 1);
    assert!(app.find_process_by_title(&s("cache")).is_none());
}

#[test]
fn path_lookup_exact() {
    let mut app = AppState::default();
    app.start_new_process(eco("web"), s("/srv/web"));
    assert_eq!(app.find_process_by_path(&s("/srv/web")).unwrap().id, 0);
    assert!(app.find_process_by_path(&s("/srv/web/")).is_none());
}

#[test]
fn target_by_id_title_or_path() {
    let mut app = AppState::default();
    app.start_new_process(eco("web"), s("/srv/web"));
    app.start_new_process(eco("7"), s("/srv/seven"));
    assert_eq!(app.find_target(&s("0"), false).unwrap().path, "/srv/web");
    assert_eq!(app.find_target(&s("web"), false).unwrap().id, 0);
    assert!(app.find_target(&s("/srv/web"), false).is_none());
    assert_eq!(app.find_target(&s("/srv/web"), true).unwrap().id, 0);
    // a numeric argument is looked up as an identifier only
    assert!(app.find_target(&s("7"), true).is_none());
}

#[test]
fn replace_keeps_id_and_path() {
    let mut app = AppState::default();
    app.start_new_process(eco("old"), s("/srv/x"));
    assert!(app.replace_process(0, eco("new")));
    let p = app.find_process_by_id(0).unwrap();
    assert_eq!(p.ecosystem.title, "new");
    assert_eq!(p.path, "/srv/x");
    assert!(!app.replace_process(5, eco("none")));
}

#[test]
fn max_id_is_counter_or_highest() {
    let mut app = AppState::default();
    assert_eq!(app.max_id(), 0);
    app.start_new_process(eco("a"), s("/a"));
    app.start_new_process(eco("b"), s("/b"));
    assert_eq!(app.max_id(), 2);
}

#[test]
fn parse_id_values() {
    assert_eq!(parse_id(b"42"), Some(42));
    assert_eq!(parse_id(b"+7"), Some(7));
    assert_eq!(parse_id(b"4294967295"), Some(u32::MAX));
    assert_eq!(parse_id(b"4294967296"), None);
    assert_eq!(parse_id(b""), None);
    assert_eq!(parse_id(b"+"), None);
    assert_eq!(parse_id(b"12a"), None);
    assert_eq!(parse_id(b"web"), None);
}

#[test]
fn status_listing_text() {
    let mut app = AppState::default();
    app.start_new_process(eco("web"), s("/a"));
    app.start_new_process(eco("db"), s("/b"));
    let text = app.all_status(&vec![ProcessStatus::Started, ProcessStatus::NotFound]);
    assert_eq!(text, "Status of processes:\n0. web - Started\n1. db - Not Found\n");
    assert_eq!(fpm::decimal_string(0), "0");
    assert_eq!(fpm::decimal_string(4294967295), "4294967295");
}
