use usagi::launcher::{resolve_drop_with_probe, resolve_project, DropProbe};

#[test]
fn folder_with_main_lua_resolves_to_that_folder() {
    let r = resolve_drop_with_probe("/games/snake", &DropProbe { is_dir: true, main_is_file: true });
    assert_eq!(r.unwrap(), "/games/snake");
}

#[test]
fn folder_without_main_lua_is_rejected() {
    let r = resolve_drop_with_probe("/games/empty", &DropProbe { is_dir: true, main_is_file: false });
    assert_eq!(r.unwrap_err(), "That folder has no main.lua");
}

#[test]
fn lua_file_resolves_to_the_file() {
    let r = resolve_drop_with_probe("/games/game.lua", &DropProbe { is_dir: false, main_is_file: false });
    assert_eq!(r.unwrap(), "/games/game.lua");
}

#[test]
fn non_lua_file_is_rejected() {
    let r = resolve_drop_with_probe("/games/notes.txt", &DropProbe { is_dir: false, main_is_file: false });
    assert_eq!(r.unwrap_err(), "Drop a .lua file or a folder with main.lua");
}

#[test]
fn missing_paths_are_judged_by_their_extension() {
    assert_eq!(
        resolve_project("/definitely/not/here/game.lua").unwrap(),
        "/definitely/not/here/game.lua"
    );
    assert!(resolve_project("/definitely/not/here/notes.txt").is_err());
}

#[test]
fn launcher_remembers_a_runnable_drop_and_reports_a_bad_one() {
    let mut l = usagi::launcher::Launcher::new();
    assert!(!l.done());
    l.on_drop(&vec![]);
    assert!(l.launch.is_none() && l.error.is_none());
    l.on_drop(&vec!["/definitely/not/here/notes.txt".to_string()]);
    assert_eq!(l.error.as_deref(), Some("Drop a .lua file or a folder with main.lua"));
    assert!(!l.done());
    l.on_drop(&vec!["/definitely/not/here/game.lua".to_string(), "/x/other.lua".to_string()]);
    assert_eq!(l.launch.as_deref(), Some("/definitely/not/here/game.lua"));
    assert!(l.done());
}
