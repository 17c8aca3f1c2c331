use emacs_capsule::naming::capsule_file_name;
use emacs_capsule::paths::entry_name;
use emacs_capsule::restore::{Phase, Restore, RestoreAction, RestoreEvent};
use emacs_capsule::selection::SelectError;
use emacs_capsule::stamp::Stamp;
use emacs_capsule::store::StoreEntry;
use std::io::{Cursor, Read, Write};

fn comps(p: &[&str]) -> Vec<String> {
    p.iter().map(|s| s.to_string()).collect()
}

fn file(name: &str, modified: i128) -> StoreEntry {
    StoreEntry { name: name.to_string(), is_file: true, modified }
}

fn config() -> Vec<String> {
    comps(&["/", "home", "u", ".emacs.d"])
}

fn chosen_menu(r: &mut Restore, entries: Vec<StoreEntry>) -> Vec<String> {
    match r.step(RestoreEvent::StoreRead { entries: Some(entries) }) {
        RestoreAction::AskSelection { menu } => menu,
        _ => panic!("expected a menu"),
    }
}

#[test]
fn existing_config_is_moved_aside_first() {
    let mut r = Restore::new(config());
    assert!(matches!(r.step(RestoreEvent::Probed { config_exists: true }), RestoreAction::MoveConfigAside));
    assert_eq!(r.phase, Phase::Start);
    assert!(matches!(r.step(RestoreEvent::LineRead { line: "1".to_string() }), RestoreAction::Ignore));
    assert!(matches!(r.step(RestoreEvent::MovedAside), RestoreAction::ReadStore));
    assert_eq!(r.phase, Phase::Cleared);
}

#[test]
fn absent_config_goes_straight_to_store() {
    let mut r = Restore::new(config());
    assert!(matches!(r.step(RestoreEvent::Probed { config_exists: false }), RestoreAction::ReadStore));
}

#[test]
fn absent_store_reports_no_capsules() {
    let mut r = Restore::new(config());
    r.step(RestoreEvent::Probed { config_exists: false });
    assert!(matches!(r.step(RestoreEvent::StoreRead { entries: None }), RestoreAction::ReportNoCapsules));
    assert_eq!(r.phase, Phase::Finished);
    assert!(matches!(r.step(RestoreEvent::ArchiveEnd), RestoreAction::Ignore));
}

#[test]
fn menu_is_by_name_without_ds_store() {
    let mut r = Restore::new(config());
    r.step(RestoreEvent::Probed { config_exists: false });
    let menu = chosen_menu(&mut r, vec![file("b.zip", 1), file(".DS_Store", 2), file("a.zip", 3)]);
    assert_eq!(menu, comps(&["a.zip", "b.zip"]));
    assert_eq!(r.phase, Phase::Choosing);
}

#[test]
fn selection_zero_or_too_large_is_rejected() {
    for line in ["0\n", "3\n"] {
        let mut r = Restore::new(config());
        r.step(RestoreEvent::Probed { config_exists: false });
        chosen_menu(&mut r, vec![file("b.zip", 1), file("a.zip", 3)]);
        match r.step(RestoreEvent::LineRead { line: line.to_string() }) {
            RestoreAction::Reject { error } => assert_eq!(error, SelectError::OutOfRange),
            _ => panic!("expected a rejection"),
        }
        assert_eq!(r.phase, Phase::Finished);
    }
}

#[test]
fn non_numeric_selection_is_rejected() {
    let mut r = Restore::new(config());
    r.step(RestoreEvent::Probed { config_exists: false });
    chosen_menu(&mut r, vec![file("a.zip", 3)]);
    match r.step(RestoreEvent::LineRead { line: "first\n".to_string() }) {
        RestoreAction::Reject { error } => assert_eq!(error, SelectError::NotANumber),
        _ => panic!("expected a rejection"),
    }
}

#[test]
fn entries_are_placed_under_config_dir() {
    let mut r = Restore::new(config());
    r.step(RestoreEvent::Probed { config_exists: false });
    chosen_menu(&mut r, vec![file("b.zip", 1), file("a.zip", 3)]);
    match r.step(RestoreEvent::LineRead { line: "2\n".to_string() }) {
        RestoreAction::OpenCapsule { name } => assert_eq!(name, "b.zip"),
        _ => panic!("expected the capsule to open"),
    }
    match r.step(RestoreEvent::EntryRead { entry: comps(&[".emacs.d", "lisp"]), is_dir: true }) {
        RestoreAction::MakeDir { path } => assert_eq!(path, comps(&["/", "home", "u", ".emacs.d", "lisp"])),
        _ => panic!("expected a directory"),
    }
    match r.step(RestoreEvent::EntryRead { entry: comps(&["emacs.d", "x.el"]), is_dir: false }) {
        RestoreAction::WriteFile { path } => {
            assert_eq!(path, comps(&["/", "home", "u", ".emacs.d", "emacs.d", "x.el"]))
        }
        _ => panic!("expected a file"),
    }
    assert!(matches!(r.step(RestoreEvent::ArchiveEnd), RestoreAction::ReportComplete));
    assert_eq!(r.phase, Phase::Finished);
}

#[test]
fn create_then_restore_scenario() {
    let home = comps(&["/", "home", "u"]);
    let sources: Vec<(Vec<String>, &str)> = vec![
        (comps(&["/", "home", "u", ".emacs.d", "init.el"]), "X"),
        (comps(&["/", "home", "u", ".emacs.d", "lisp", "a.el"]), "Y"),
    ];
    let stamp = Stamp { year: 2025, month: 1, day: 5, hour: 9, minute: 4, second: 3, weekday: 0 };
    let capsule = capsule_file_name(&stamp);

    let mut zw = zip::ZipWriter::new(Cursor::new(Vec::new()));
    let options = zip::write::FileOptions::default()
        .compression_method(zip::CompressionMethod::Stored)
        .unix_permissions(0o755);
    for (path, content) in &sources {
        zw.start_file(entry_name(&home, path).unwrap(), options).unwrap();
        zw.write_all(content.as_bytes()).unwrap();
    }
    let bytes = zw.finish().unwrap().into_inner();
    let mut archive = zip::ZipArchive::new(Cursor::new(bytes)).unwrap();
    assert_eq!(archive.len(), 2);

    let mut r = Restore::new(config());
    assert!(matches!(r.step(RestoreEvent::Probed { config_exists: true }), RestoreAction::MoveConfigAside));
    r.step(RestoreEvent::MovedAside);
    let menu = chosen_menu(&mut r, vec![file(&capsule, 1)]);
    assert_eq!(menu, vec![capsule.clone()]);
    match r.step(RestoreEvent::LineRead { line: "1\n".to_string() }) {
        RestoreAction::OpenCapsule { name } => assert_eq!(name, capsule),
        _ => panic!("expected the capsule to open"),
    }
    let mut written = Vec::new();
    for i in 0..archive.len() {
        let mut f = archive.by_index(i).unwrap();
        let entry: Vec<String> = f
            .enclosed_name()
            .unwrap()
            .components()
            .map(|c| c.as_os_str().to_string_lossy().to_string())
            .collect();
        match r.step(RestoreEvent::EntryRead { entry, is_dir: f.is_dir() }) {
            RestoreAction::WriteFile { path } => {
                let mut content = String::new();
                f.read_to_string(&mut content).unwrap();
                written.push((path, content));
            }
            _ => panic!("expected a file"),
        }
    }
    assert!(matches!(r.step(RestoreEvent::ArchiveEnd), RestoreAction::ReportComplete));
    assert_eq!(written.len(), 2);
    assert_eq!(written[0], (comps(&["/", "home", "u", ".emacs.d", "init.el"]), "X".to_string()));
    assert_eq!(written[1], (comps(&["/", "home", "u", ".emacs.d", "lisp", "a.el"]), "Y".to_string()));
}
