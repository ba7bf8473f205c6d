use fpm::{
    AppState, Backup, BackupProcess, Ecosystem, LogsMode, Process, ProcessStatus, RecordPlace,
    RestartMode,
};

fn eco(title: &str, watch: Option<Vec<&str>>) -> Ecosystem {
    Ecosystem {
        title: title.to_string(),
        start: "echo \"hi\"".to_string(),
        shell: "/bin/bash".to_string(),
        description: Some("a \\ b".to_string()),
        restart: Some(RestartMode::Never),
        logs: None,
        logs_mode: Some(LogsMode::Override),
        watch: watch.map(|v| v.into_iter().map(|x| x.to_string()).collect()),
    }
}

fn same(a: &Ecosystem, b: &Ecosystem) -> bool {
    a.title == b.title
        && a.start == b.start
        && a.shell == b.shell
        && a.description == b.description
        && a.restart == b.restart
        && a.logs == b.logs
        && a.logs_mode == b.logs_mode
        && a.watch == b.watch
}

#[test]
fn snapshot_then_restore_round_trip() {
    let mut app = AppState::default();
    app.start_new_process(eco("a", None), "/srv/a".to_string());
    app.start_new_process(eco("b", Some(vec!["src", "lib"])), "/srv/b".to_string());
    app.start_new_process(eco("c", Some(vec![])), "/srv/c".to_string());
    let flags = vec![false, true, false];
    let snap = app.snapshot(&flags);
    assert_eq!(snap.max_id, 3);
    assert_eq!(snap.process.len(), 3);

    let mut fresh = AppState::default();
    let places = vec![RecordPlace::Present; 3];
    let started = fresh.restore_all(&snap, &places);
    assert_eq!(started, vec![0, 2]);
    assert_eq!(fresh.processes.len(), 3);
    for (i, p) in fresh.processes.iter().enumerate() {
        let orig = &app.processes[i];
        assert_eq!(p.path, orig.path);
        assert!(same(&p.ecosystem, &orig.ecosystem));
        assert_eq!(p.state.should_stop, flags[i]);
        assert_eq!(p.state.status, ProcessStatus::Initialized);
    }
}

#[test]
fn restore_missing_directory_is_not_found() {
    let rec = BackupProcess::new(9, eco("gone", None), "/nowhere".to_string(), false);
    let mut app = AppState::default();
    assert_eq!(app.restore_record(&rec, RecordPlace::DirectoryMissing), Some((0, false)));
    let p = app.find_process_by_id(0).unwrap();
    assert_eq!(p.state.status, ProcessStatus::NotFound);
    assert!(p.state.should_stop);
    assert_eq!(app.restore_record(&rec, RecordPlace::ConfigMissing), None);
    assert_eq!(app.id, 1);
}

#[test]
fn restore_assigns_fresh_ids() {
    let rec = BackupProcess::new(40, eco("x", None), "/x".to_string(), true);
    let mut app = AppState::default();
    app.start_new_process(eco("y", None), "/y".to_string());
    assert_eq!(app.restore_record(&rec, RecordPlace::Present), Some((1, false)));
}

#[test]
fn from_backup_keeps_flag() {
    let p = Process::from_backup(BackupProcess::new(3, eco("z", None), "/z".to_string(), true));
    assert_eq!(p.id, 3);
    assert!(p.state.should_stop);
    assert_eq!(p.state.status, ProcessStatus::Initialized);
}

#[test]
fn backup_file_text() {
    let b = Backup {
        max_id: 12,
        process: vec![BackupProcess::new(
            4,
            eco("t", Some(vec!["a", "b\"c"])),
            "/p".to_string(),
            true,
        )],
    };
    let text = String::from_utf8(b.to_text()).unwrap();
    assert_eq!(
        text,
        "max_id = 12\n[[process]]\nid=4\npath=\"/p\"\nshould_stop=true\n\
ecosystem = { title=\"t\", start=\"echo \\\"hi\\\"\", shell=\"/bin/bash\", \
description=\"a \\\\ b\", restart=\"never\", logs_mode=\"override\", watch=[\"a\", \"b\\\"c\"] }"
    );
    let empty = Backup { max_id: 0, process: vec![] };
    assert_eq!(String::from_utf8(empty.to_text()).unwrap(), "max_id = 0");
}

#[test]
fn restore_mixed_places_in_order() {
    let mut app = AppState::default();
    app.start_new_process(eco("old", None), "/old".to_string());
    assert!(app.delete_process(0));
    let snap = Backup {
        max_id: 7,
        process: vec![
            BackupProcess::new(5, eco("a", None), "/a".to_string(), false),
            BackupProcess::new(5, eco("b", None), "/b".to_string(), false),
            BackupProcess::new(6, eco("c", None), "/c".to_string(), true),
            BackupProcess::new(2, eco("d", None), "/d".to_string(), false),
            BackupProcess::new(0, eco("e", None), "/e".to_string(), false),
        ],
    };
    let places = vec![
        RecordPlace::Present,
        RecordPlace::ConfigMissing,
        RecordPlace::Present,
        RecordPlace::DirectoryMissing,
        RecordPlace::Present,
    ];
    let started = app.restore_all(&snap, &places);
    assert_eq!(started, vec![1, 4]);
    let ids: Vec<u32> = app.processes.iter().map(|p| p.id).collect();
    assert_eq!(ids, vec![1, 2, 3, 4]);
    let paths: Vec<&str> = app.processes.iter().map(|p| p.path.as_str()).collect();
    assert_eq!(paths, vec!["/a", "/c", "/d", "/e"]);
    assert_eq!(app.processes[1].state.should_stop, true);
    assert_eq!(app.processes[2].state.status, ProcessStatus::NotFound);
    assert!(app.processes[2].state.should_stop);
    assert_eq!(app.id, 5);
}
