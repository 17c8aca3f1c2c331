use emacs_capsule::store::{capsules_by_name, capsules_newest_first, name_at_most, StoreEntry};

fn file(name: &str, modified: i128) -> StoreEntry {
    StoreEntry { name: name.to_string(), is_file: true, modified }
}

fn dir(name: &str, modified: i128) -> StoreEntry {
    StoreEntry { name: name.to_string(), is_file: false, modified }
}

#[test]
fn by_name_is_lexicographic() {
    let entries = vec![
        file("emacs_capsule_Wed_Jan_01_2025_10_00_00.zip", 3),
        file("emacs_capsule_Mon_Feb_03_2025_10_00_00.zip", 1),
        file("emacs_capsule_Fri_Dec_27_2024_10_00_00.zip", 2),
    ];
    assert_eq!(
        capsules_by_name(&entries),
        vec![
            "emacs_capsule_Fri_Dec_27_2024_10_00_00.zip".to_string(),
            "emacs_capsule_Mon_Feb_03_2025_10_00_00.zip".to_string(),
            "emacs_capsule_Wed_Jan_01_2025_10_00_00.zip".to_string(),
        ]
    );
}

#[test]
fn by_name_excludes_ds_store_and_directories() {
    let entries = vec![file(".DS_Store", 9), dir("sub", 8), file("b", 1), file("a", 2)];
    assert_eq!(capsules_by_name(&entries), vec!["a".to_string(), "b".to_string()]);
}

#[test]
fn spacemacs_backups_sort_among_capsules() {
    let entries = vec![file("emacs_capsule_x.zip", 1), file(".spacemacs_backup_x", 1)];
    assert_eq!(
        capsules_by_name(&entries),
        vec![".spacemacs_backup_x".to_string(), "emacs_capsule_x.zip".to_string()]
    );
}

#[test]
fn newest_first_orders_by_time_descending() {
    let entries = vec![file("old", 10), file("new", 30), file("mid", 20)];
    let names: Vec<String> = capsules_newest_first(&entries).into_iter().map(|e| e.name).collect();
    assert_eq!(names, vec!["new", "mid", "old"]);
}

#[test]
fn newest_first_keeps_order_of_ties() {
    let entries = vec![file("b", 5), file("a", 5), file("c", 7), file("d", 5)];
    let names: Vec<String> = capsules_newest_first(&entries).into_iter().map(|e| e.name).collect();
    assert_eq!(names, vec!["c", "b", "a", "d"]);
}

#[test]
fn newest_first_excludes_ds_store_and_directories() {
    let entries = vec![file(".DS_Store", 99), dir("d", 50), file("x", 1)];
    let listed = capsules_newest_first(&entries);
    assert_eq!(listed.len(), 1);
    assert_eq!(listed[0].name, "x");
    assert_eq!(listed[0].modified, 1);
}

#[test]
fn listing_twice_gives_same_order() {
    let entries = vec![file("b", 5), file("a", 5), file("c", 7)];
    let once: Vec<String> = capsules_newest_first(&entries).into_iter().map(|e| e.name).collect();
    let twice: Vec<String> = capsules_newest_first(&capsules_newest_first(&entries))
        .into_iter()
        .map(|e| e.name)
        .collect();
    assert_eq!(once, twice);
    assert_eq!(capsules_by_name(&entries), capsules_by_name(&entries));
}

#[test]
fn empty_store_lists_nothing() {
    assert!(capsules_by_name(&vec![]).is_empty());
    assert!(capsules_newest_first(&vec![]).is_empty());
}

#[test]
fn name_order_compares_characters() {
    assert!(name_at_most("abc", "abd"));
    assert!(!name_at_most("abd", "abc"));
    assert!(name_at_most("ab", "abc"));
    assert!(!name_at_most("abc", "ab"));
    assert!(name_at_most("same", "same"));
    assert!(name_at_most("", ""));
    assert!(name_at_most("Z", "a"));
    assert!(name_at_most("z", "\u{e9}"));
}
