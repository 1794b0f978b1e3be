use lau_shell_kernel::{ShellId, Universe};

fn tmp() -> tempfile::TempDir {
    tempfile::tempdir().unwrap()
}

fn kernel_path(tmp: &tempfile::TempDir, name: &str) -> String {
    format!("{}/{}", tmp.path().display(), name)
}

#[test]
fn universe_paths() {
    let tmp = tmp();
    let sid = ShellId::new("u2");
    let path = kernel_path(&tmp, "u2");
    let u = Universe::new(&path, &sid);
    assert_eq!(u.room_path("r1"), format!("{}/rooms/r1", path));
    assert_eq!(u.tile_path("t1"), format!("{}/tiles/t1.json", path));
    assert_eq!(u.ensign_path("e1"), format!("{}/ensigns/e1", path));
    assert_eq!(u.port_path("p1"), format!("{}/ports/p1.json", path));
}

#[test]
fn universe_layout() {
    let sid = ShellId::new("s");
    let u = Universe::new("/base", &sid);
    assert_eq!(u.path, "/base");
    assert_eq!(u.rooms_dir, "/base/rooms");
    assert_eq!(u.tiles_dir, "/base/tiles");
    assert_eq!(u.ensigns_dir, "/base/ensigns");
    assert_eq!(u.ports_dir, "/base/ports");
    assert_eq!(u.config_path, "/base/shell.json");
    assert_eq!(u.state_path, "/base/state.json");
    assert_eq!(u.shell_id, sid);
    assert_eq!(
        u.required_dirs(),
        vec!["/base", "/base/rooms", "/base/tiles", "/base/ensigns", "/base/ports"]
    );
}

#[test]
fn universe_validate_presence() {
    let sid = ShellId::new("s");
    let u = Universe::new("/base", &sid);
    assert!(u.validate_presence(&[true, true, true, true, true]).is_ok());
    let errs = u.validate_presence(&[true, false, true, true, false]).unwrap_err();
    assert_eq!(
        errs,
        vec![
            "missing rooms directory: /base/rooms".to_string(),
            "missing ports directory: /base/ports".to_string(),
        ]
    );
    let errs = u.validate_presence(&[false, false, false, false, false]).unwrap_err();
    assert_eq!(errs.len(), 5);
    assert_eq!(errs[0], "missing root directory: /base");
}

#[test]
fn universe_json_entry_names() {
    assert_eq!(Universe::json_entry_name("telegram.json"), "telegram");
    assert_eq!(Universe::json_entry_name("a.json.json"), "a");
    assert_eq!(Universe::json_entry_name("notes.txt"), "notes.txt");
    assert_eq!(Universe::json_entry_name(".json"), "");
    assert_eq!(Universe::json_entry_name("plain"), "plain");
}
