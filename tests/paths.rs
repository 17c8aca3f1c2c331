use emacs_capsule::paths::{entry_name, restore_target};
use std::io::{Cursor, Read, Write};

fn comps(p: &[&str]) -> Vec<String> {
    p.iter().map(|s| s.to_string()).collect()
}

#[test]
fn entry_name_is_relative_to_home() {
    let home = comps(&["/", "home", "u"]);
    let path = comps(&["/", "home", "u", ".emacs.d", "lisp", "a.el"]);
    assert_eq!(entry_name(&home, &path), Some(".emacs.d/lisp/a.el".to_string()));
}

#[test]
fn entry_name_outside_base_is_none() {
    let home = comps(&["/", "home", "u"]);
    assert_eq!(entry_name(&home, &comps(&["/", "home", "v", "x"])), None);
    assert_eq!(entry_name(&home, &comps(&["/", "home"])), None);
}

#[test]
fn restore_target_strips_config_dir_name() {
    let config = comps(&["/", "home", "u", ".emacs.d"]);
    assert_eq!(
        restore_target(&config, &comps(&[".emacs.d", "lisp", "a.el"])),
        comps(&["/", "home", "u", ".emacs.d", "lisp", "a.el"])
    );
    assert_eq!(
        restore_target(&config, &comps(&["init.el"])),
        comps(&["/", "home", "u", ".emacs.d", "init.el"])
    );
    assert_eq!(
        restore_target(&config, &comps(&["emacs.d", "init.el"])),
        comps(&["/", "home", "u", ".emacs.d", "emacs.d", "init.el"])
    );
}

fn round_trip(files: &[(&[&str], &str)]) {
    let home = comps(&["/", "home", "u"]);
    let config = comps(&["/", "home", "u", ".emacs.d"]);
    let mut zw = zip::ZipWriter::new(Cursor::new(Vec::new()));
    let options = zip::write::FileOptions::default()
        .compression_method(zip::CompressionMethod::Stored)
        .unix_permissions(0o755);
    for (rel, content) in files {
        let mut path = config.clone();
        path.extend(rel.iter().map(|s| s.to_string()));
        let name = entry_name(&home, &path).unwrap();
        zw.start_file(name, options).unwrap();
        zw.write_all(content.as_bytes()).unwrap();
    }
    let bytes = zw.finish().unwrap().into_inner();
    let mut archive = zip::ZipArchive::new(Cursor::new(bytes)).unwrap();
    assert_eq!(archive.len(), files.len());
    let mut restored = Vec::new();
    for i in 0..archive.len() {
        let mut f = archive.by_index(i).unwrap();
        let entry: Vec<String> = f
            .enclosed_name()
            .unwrap()
            .components()
            .map(|c| c.as_os_str().to_string_lossy().to_string())
            .collect();
        let mut content = String::new();
        f.read_to_string(&mut content).unwrap();
        restored.push((restore_target(&config, &entry), content));
    }
    for (k, (rel, content)) in files.iter().enumerate() {
        let mut path = config.clone();
        path.extend(rel.iter().map(|s| s.to_string()));
        assert_eq!(restored[k].0, path);
        assert_eq!(restored[k].1, *content);
    }
}

#[test]
fn archive_round_trip_restores_paths_and_contents() {
    round_trip(&[(&["init.el"], "X"), (&["lisp", "a.el"], "Y")]);
}

#[test]
fn archive_round_trip_deep_and_empty_files() {
    round_trip(&[(&["a", "b", "c", "d.el"], ""), (&[".hidden"], "h\nline"), (&["x y.el"], "z")]);
}
