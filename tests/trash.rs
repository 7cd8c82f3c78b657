use trash_utils::{
    file_stem, filter_trash_entry_by_age, filter_trash_entry_by_dir, LocalDateTime, SidecarFile,
    Trash, TrashEntry, TrashErrorKind, TrashInfo,
};

fn date(y: i32, mo: u32, d: u32, h: u32, mi: u32, s: u32) -> LocalDateTime {
    LocalDateTime::new(y, mo, d, h, mi, s).unwrap()
}

fn user_trash() -> Trash {
    Trash::new("/home/u/.local/share", "/home/u")
}

#[test]
fn lib_test_is_file_trashed() {
    let trash = Trash::with_root("/test/trash", "/");
    let file1 = "/test/trash/files/foo";
    let file2 = "/test/trash/info/foo";
    assert!(trash.is_file_trashed(file1));
    assert!(!trash.is_file_trashed(file2));
}

#[test]
fn trash_test_is_file_trashed() {
    let trash = Trash::with_root("/test/trash", "/");
    assert!(trash.is_file_trashed("/test/trash/files/foo"));
    assert!(!trash.is_file_trashed("/test/trash/info/foo"));
    assert!(!trash.is_file_trashed("/test/trash/filesfoo"));
    let here = Trash::with_root("/test/trash", "/test/trash/files");
    assert!(here.is_file_trashed("foo"));
}

#[test]
fn lib_test_trash_file() {
    let trash = user_trash();
    assert_eq!(trash.home_trash(), "/home/u/.local/share/Trash");
    let req = trash.trash_file("/tmp/a/report.txt", true).unwrap();
    assert_eq!(req.from, "/tmp/a/report.txt");
    assert_eq!(req.to, "/home/u/.local/share/Trash/files/report.txt");
}

#[test]
fn trash_test_trash_file() {
    let trash = user_trash();
    let req = trash.trash_file("docs/../notes.md", true).unwrap();
    assert_eq!(req.from, "/home/u/notes.md");
    assert_eq!(req.to, "/home/u/.local/share/Trash/files/notes.md");
    let date = date(2014, 7, 8, 9, 10, 11);
    let record = trash
        .trash_info_record("/home/u/.local/share/Trash/files/notes.md_1", &req.from, &date)
        .unwrap();
    assert_eq!(record.path, "/home/u/.local/share/Trash/info/notes.md_1.trashinfo");
    assert_eq!(
        record.text,
        "[Trash Info]\nPath=/home/u/notes.md\nDeletionDate=2014-07-08T09:10:11\n"
    );
}

#[test]
fn lib_test_restore_trashed_file() {
    let trash = user_trash();
    let trashed = "/home/u/.local/share/Trash/files/report.txt";
    assert_eq!(
        trash.trash_info_path(trashed).unwrap(),
        "/home/u/.local/share/Trash/info/report.txt.trashinfo"
    );
    let text = "[Trash Info]\nPath=/tmp/a/report.txt\nDeletionDate=2020-01-02T03:04:05\n";
    let req = trash.restore_trashed_file(trashed, text).unwrap();
    assert_eq!(req.from, trashed);
    assert_eq!(req.to, "/tmp/a/report.txt");
}

#[test]
fn trash_test_restore_trashed_file() {
    let trash = user_trash();
    let trashed = "/home/u/.local/share/Trash/files/report.txt";
    let err = trash.restore_trashed_file(trashed, "[Trash Info]\nPath=/x\n").unwrap_err();
    assert_eq!(
        err.kind,
        TrashErrorKind::ParseTrashInfoError(
            "/home/u/.local/share/Trash/info/report.txt.trashinfo".to_string()
        )
    );
    let err = trash.restore_trashed_file("/", "").unwrap_err();
    assert_eq!(err.kind, TrashErrorKind::Path("/".to_string()));
}

#[test]
fn trash_then_restore_returns_to_original_path() {
    let trash = user_trash();
    let req = trash.trash_file("/tmp/a/report.txt", true).unwrap();
    let trashed = "/home/u/.local/share/Trash/files/report.txt_1";
    let record = trash
        .trash_info_record(trashed, &req.from, &date(2021, 6, 7, 8, 9, 10))
        .unwrap();
    assert_eq!(trash.trash_info_path(trashed).unwrap(), record.path);
    let back = trash.restore_trashed_file(trashed, &record.text).unwrap();
    assert_eq!(back.from, trashed);
    assert_eq!(back.to, "/tmp/a/report.txt");
}

#[test]
fn trashing_the_trash_can_is_refused() {
    let trash = user_trash();
    let root = trash.home_trash().to_string();
    let err = trash.trash_file(&root, true).unwrap_err();
    assert_eq!(err.kind, TrashErrorKind::TrashingTrashCan(root));
    let err = trash.trash_file("/home/u/.local", true).unwrap_err();
    assert_eq!(err.kind, TrashErrorKind::TrashingTrashCan("/home/u/.local".to_string()));
}

#[test]
fn trashing_or_erasing_the_working_directory_is_refused() {
    let trash = Trash::new("/data", "/home/u/work");
    let err = trash.trash_file("/home/u", true).unwrap_err();
    assert_eq!(err.kind, TrashErrorKind::TrashingCwd("/home/u".to_string()));
    let err = trash.trash_file(".", true).unwrap_err();
    assert_eq!(err.kind, TrashErrorKind::TrashingCwd("/home/u/work".to_string()));
    let err = trash.erase_file("..", true).unwrap_err();
    assert_eq!(err.kind, TrashErrorKind::TrashingCwd("/home/u".to_string()));
    assert!(trash.trash_file("/home/u/workshop", true).is_ok());
}

#[test]
fn missing_files_are_not_found() {
    let trash = user_trash();
    let err = trash.trash_file("gone.txt", false).unwrap_err();
    assert_eq!(err.kind, TrashErrorKind::NotFound("/home/u/gone.txt".to_string()));
    let err = trash.erase_file("gone.txt", false).unwrap_err();
    assert_eq!(err.kind, TrashErrorKind::NotFound("/home/u/gone.txt".to_string()));
}

#[test]
fn erase_deletes_sidecar_only_inside_files() {
    let trash = Trash::with_root("test", "/w");
    let plan = trash.erase_file("test/files/in_trash", true).unwrap();
    assert_eq!(plan.target, "/w/test/files/in_trash");
    assert_eq!(plan.sidecar, Some("/w/test/info/in_trash.trashinfo".to_string()));
    let plan = trash.erase_file("test/asdf", true).unwrap();
    assert_eq!(plan.target, "/w/test/asdf");
    assert_eq!(plan.sidecar, None);
}

#[test]
fn report_scenario() {
    let trash = user_trash();
    let req = trash.trash_file("/tmp/a/report.txt", true).unwrap();
    assert_eq!(req.to, "/home/u/.local/share/Trash/files/report.txt");
    let record = trash.trash_info_record(&req.to, &req.from, &date(2022, 5, 6, 7, 8, 9)).unwrap();
    assert_eq!(record.path, "/home/u/.local/share/Trash/info/report.txt.trashinfo");
    assert!(record.text.contains("\nPath=/tmp/a/report.txt\n"));
    let plan = trash.erase_file(&req.to, true).unwrap();
    assert_eq!(plan.target, "/home/u/.local/share/Trash/files/report.txt");
    assert_eq!(plan.sidecar, Some(record.path.clone()));
    let second = trash.trash_file("/tmp/b/report.txt", true).unwrap();
    let target = trash_utils::move_target(&second.from, &second.to, true, false).unwrap();
    let dest = target.destination(&vec!["report.txt".to_string()]);
    assert_eq!(dest, "/home/u/.local/share/Trash/files/report.txt_1");
}

#[test]
fn listing_keeps_going_past_bad_sidecars() {
    let trash = Trash::with_root("/t", "/");
    let sidecars = vec![
        SidecarFile {
            name: "good.txt.trashinfo".to_string(),
            text: Some("[Trash Info]\nPath=/asdf/123\nDeletionDate=2014-07-08T09:10:11\n".to_string()),
        },
        SidecarFile {
            name: "bad.trashinfo".to_string(),
            text: Some("[Trash Info]\nPath=/x\nDeletionDate=yesterday\n".to_string()),
        },
    ];
    let listed = trash.get_trashed_files(&sidecars);
    assert_eq!(listed.len(), 2);
    assert_eq!(
        listed[0],
        Ok(TrashEntry {
            trashed_path: "/t/files/good.txt".to_string(),
            trash_info: TrashInfo {
                original_path: "/asdf/123".to_string(),
                deletion_date: date(2014, 7, 8, 9, 10, 11),
            },
        })
    );
    assert_eq!(
        listed[1].clone().unwrap_err().kind,
        TrashErrorKind::ParseTrashInfoError("/t/info/bad.trashinfo".to_string())
    );
    assert_eq!(listed.iter().filter(|e| e.is_ok()).count(), 1);
}

#[test]
fn listing_reports_unreadable_sidecars() {
    let trash = Trash::with_root("/t", "/");
    let sidecars = vec![SidecarFile { name: "gone.trashinfo".to_string(), text: None }];
    let listed = trash.get_trashed_files(&sidecars);
    assert_eq!(
        listed[0].clone().unwrap_err().kind,
        TrashErrorKind::Io("/t/info/gone.trashinfo".to_string())
    );
    assert!(trash.get_trashed_files(&vec![]).is_empty());
}

#[test]
fn stems_drop_the_last_extension() {
    assert_eq!(file_stem("a.txt.trashinfo"), "a.txt");
    assert_eq!(file_stem(".trashinfo"), ".trashinfo");
    assert_eq!(file_stem("plain"), "plain");
}

fn entry(original: &str, deleted: LocalDateTime) -> TrashEntry {
    TrashEntry {
        trashed_path: "/t/files/x".to_string(),
        trash_info: TrashInfo { original_path: original.to_string(), deletion_date: deleted },
    }
}

#[test]
fn age_filter_against_deletion_date() {
    let now = date(2024, 3, 11, 12, 0, 0);
    let e = entry("/a/x", date(2024, 3, 1, 12, 0, 0));
    assert!(filter_trash_entry_by_age(&e, &now, Some(5)));
    assert!(!filter_trash_entry_by_age(&e, &now, Some(15)));
    assert!(filter_trash_entry_by_age(&e, &now, Some(10)));
    assert!(filter_trash_entry_by_age(&e, &now, None));
    let fresh = entry("/a/x", date(2024, 3, 11, 0, 0, 1));
    assert!(!filter_trash_entry_by_age(&fresh, &now, Some(1)));
    assert!(filter_trash_entry_by_age(&fresh, &now, Some(0)));
}

#[test]
fn dir_filter_by_original_location() {
    let e = entry("/home/u/docs/x", date(2024, 3, 1, 12, 0, 0));
    assert!(filter_trash_entry_by_dir(&e, "/home/u"));
    assert!(filter_trash_entry_by_dir(&e, "/home/u/docs/x"));
    assert!(!filter_trash_entry_by_dir(&e, "/home/us"));
}

fn sidecar(name: &str, original: &str, stamp: &str) -> SidecarFile {
    SidecarFile {
        name: name.to_string(),
        text: Some(format!("[Trash Info]\nPath={}\nDeletionDate={}\n", original, stamp)),
    }
}

#[test]
fn listing_is_ordered_by_deletion_date_failures_last() {
    let trash = Trash::with_root("/t", "/");
    let sidecars = vec![
        SidecarFile { name: "broken.trashinfo".to_string(), text: Some("junk".to_string()) },
        sidecar("late.trashinfo", "/late", "2021-01-01T00:00:00"),
        sidecar("early.trashinfo", "/early", "1999-12-31T23:59:59"),
        sidecar("mid.trashinfo", "/mid", "2020-06-15T12:00:00"),
    ];
    let listed = trash.get_trashed_files(&sidecars);
    let order: Vec<String> = listed
        .iter()
        .map(|e| match e {
            Ok(entry) => entry.trashed_path.clone(),
            Err(_) => "error".to_string(),
        })
        .collect();
    assert_eq!(order, vec!["/t/files/early", "/t/files/mid", "/t/files/late", "error"]);
}
