use usagi::export::{
    archive_name_from_url, choose_web_shell, default_output_path, resolve_export_script,
    resolve_web_shell_override, path_name_hint, patch_windows_subsystem,
    pe_error_message, run, staged_exe_name, target_produces_web, template_target_for, ExportTarget,
    PeError, Target,
};
use usagi::error::Error;
use usagi::project_name::ProjectName;

fn build_minimal_pe_with_subsystem(value: u16) -> (Vec<u8>, usize) {
    let pe_offset = 0x80usize;
    let mut bytes = vec![0u8; pe_offset + 4 + 20 + 0x44 + 2 + 16];
    bytes[0] = b'M';
    bytes[1] = b'Z';
    bytes[0x3C..0x40].copy_from_slice(&(pe_offset as u32).to_le_bytes());
    bytes[pe_offset..pe_offset + 4].copy_from_slice(b"PE\0\0");
    let subsystem_offset = pe_offset + 4 + 20 + 0x44;
    bytes[subsystem_offset..subsystem_offset + 2].copy_from_slice(&value.to_le_bytes());
    (bytes, subsystem_offset)
}

#[test]
fn target_produces_web_table() {
    assert!(target_produces_web(ExportTarget::All));
    assert!(target_produces_web(ExportTarget::Web));
    assert!(!target_produces_web(ExportTarget::Bundle));
    assert!(!target_produces_web(ExportTarget::Linux));
    assert!(!target_produces_web(ExportTarget::Macos));
    assert!(!target_produces_web(ExportTarget::Windows));
}

#[test]
fn path_name_hint_uses_parent_for_main_lua() {
    assert_eq!(path_name_hint("examples/snake/main.lua"), "snake");
}

#[test]
fn path_name_hint_uses_stem_for_flat_script() {
    assert_eq!(path_name_hint("examples/hello.lua"), "hello");
}

#[test]
fn archive_name_from_url_preserves_known_extensions() {
    assert_eq!(
        archive_name_from_url("https://x.test/v1/usagi-1.0-linux-x86_64.tar.gz"),
        "usagi-1.0-linux-x86_64.tar.gz"
    );
    assert_eq!(
        archive_name_from_url("https://x.test/v1/usagi-1.0-windows-x86_64.zip"),
        "usagi-1.0-windows-x86_64.zip"
    );
}

#[test]
fn archive_name_from_url_falls_back_when_unrecognized() {
    assert_eq!(
        archive_name_from_url("https://x.test/blob"),
        "template.tar.gz"
    );
}

#[test]
fn archive_name_from_url_drops_query_string() {
    assert_eq!(
        archive_name_from_url("https://x.test/a/b/runtime.tgz?token=1"),
        "runtime.tgz"
    );
}

#[test]
fn patch_windows_subsystem_to_gui_flips_subsystem_byte() {
    let (bytes, subsystem_offset) = build_minimal_pe_with_subsystem(3);
    let mut patched = bytes.clone();
    patch_windows_subsystem(&mut patched).unwrap();
    assert_eq!(patched[subsystem_offset], 0x02);
    assert_eq!(patched[subsystem_offset + 1], 0x00);
    for (i, (a, b)) in bytes.iter().zip(patched.iter()).enumerate() {
        if i == subsystem_offset || i == subsystem_offset + 1 {
            continue;
        }
        assert_eq!(a, b, "byte {i} unexpectedly changed");
    }
}

#[test]
fn patch_windows_subsystem_rejects_non_pe_files() {
    let mut bytes = b"this is just text, not a PE binary".to_vec();
    let err = patch_windows_subsystem(&mut bytes).unwrap_err();
    let msg = pe_error_message("not_a_pe", err);
    assert!(msg.contains("MZ"), "got: {msg}");
    assert_eq!(bytes, b"this is just text, not a PE binary".to_vec());
}

#[test]
fn patch_windows_subsystem_rejects_truncated_pe() {
    let mut bytes = vec![0u8; 0x40];
    bytes[0] = b'M';
    bytes[1] = b'Z';
    bytes[0x3C..0x40].copy_from_slice(&0x100u32.to_le_bytes());
    let err = patch_windows_subsystem(&mut bytes).unwrap_err();
    assert_eq!(err, PeError::MissingSignature(0x100));
    let msg = pe_error_message("truncated.exe", err);
    assert!(msg.contains("PE signature"), "got: {msg}");
    assert_eq!(msg, "truncated.exe missing PE signature at offset 0x100");
}

#[test]
fn patch_windows_subsystem_reports_truncated_optional_header() {
    let (mut bytes, subsystem_offset) = build_minimal_pe_with_subsystem(3);
    bytes.truncate(subsystem_offset + 1);
    assert_eq!(patch_windows_subsystem(&mut bytes), Err(PeError::Truncated));
    assert_eq!(
        pe_error_message("x.exe", PeError::Truncated),
        "x.exe truncated before PE Optional Header subsystem field"
    );
}

#[test]
fn template_targets_follow_export_targets() {
    assert_eq!(template_target_for(ExportTarget::Linux), Some(Target::Linux));
    assert_eq!(template_target_for(ExportTarget::Macos), Some(Target::Macos));
    assert_eq!(template_target_for(ExportTarget::Windows), Some(Target::Windows));
    assert_eq!(template_target_for(ExportTarget::Web), Some(Target::Wasm));
    assert_eq!(template_target_for(ExportTarget::All), None);
    assert_eq!(template_target_for(ExportTarget::Bundle), None);
}

#[test]
fn default_output_paths_use_the_slug() {
    let p = ProjectName::resolve(Some("Neo Gear"), None);
    assert_eq!(default_output_path(&p, ExportTarget::Bundle), "neo-gear.usagi");
    assert_eq!(default_output_path(&p, ExportTarget::Linux), "neo-gear-linux.zip");
    assert_eq!(default_output_path(&p, ExportTarget::Web), "neo-gear-web.zip");
    assert_eq!(default_output_path(&p, ExportTarget::All), "export");
}

#[test]
fn staged_exe_name_adds_exe_on_windows_only() {
    assert_eq!(staged_exe_name("snake", Target::Windows), "snake.exe");
    assert_eq!(staged_exe_name("snake", Target::Linux), "snake");
}

#[test]
fn run_rejects_template_flags_for_bundle() {
    let r = run(Ok("g/main.lua".to_string()), None, ExportTarget::Bundle, Some("t.tar.gz"), None, false, None, None);
    match r {
        Err(Error::Cli(m)) => assert!(m.contains("--template-path"), "got: {m}"),
        _ => panic!("expected a Cli error"),
    }
}

#[test]
fn run_rejects_web_shell_for_native_targets() {
    let r = run(Ok("g/main.lua".to_string()), None, ExportTarget::Linux, None, None, false, Some("s.html"), None);
    match r {
        Err(Error::Cli(m)) => assert!(m.contains("--web-shell"), "got: {m}"),
        _ => panic!("expected a Cli error"),
    }
}

#[test]
fn run_plans_a_bundle_from_the_path_hint() {
    let plan = run(
        Ok("/definitely/not/here/snake/main.lua".to_string()),
        None,
        ExportTarget::Bundle,
        None,
        None,
        false,
        None,
        None,
    )
    .unwrap();
    assert_eq!(plan.path_hint, "snake");
    assert_eq!(plan.project_name.slug(), "snake");
    assert_eq!(plan.out_path, "snake.usagi");
    assert!(plan.web_shell_override.is_none());
}

#[test]
fn render_web_shell_substitutes_canvas_dims() {
    let html = r#"<canvas id="canvas" width="640" height="360"></canvas>"#;
    let written = usagi::export::render_web_shell(html, 960, 540);
    assert!(written.contains(r#"width="960" height="540""#), "got: {written}");
    assert!(!written.contains(r#"width="640" height="360""#), "old dims should be gone: {written}");
}

#[test]
fn render_web_shell_passes_through_custom_shell_without_default_dims() {
    let original = r#"<canvas id="canvas" width="800" height="450"></canvas>"#;
    assert_eq!(usagi::export::render_web_shell(original, 640, 360), original);
}

#[test]
fn render_web_shell_replaces_every_occurrence() {
    let html = r#"a width="640" height="360" b width="640" height="360""#;
    assert_eq!(
        usagi::export::render_web_shell(html, 320, 180),
        r#"a width="320" height="180" b width="320" height="180""#
    );
}

#[test]
fn choose_web_shell_prefers_the_flag_then_the_sibling() {
    let r = choose_web_shell("games/snake/main.lua", Some("my/shell.html"), true, true);
    assert_eq!(r.ok().unwrap(), Some("my/shell.html".to_string()));
    let r = choose_web_shell("games/snake/main.lua", None, false, true);
    assert_eq!(r.ok().unwrap(), Some("games/snake/shell.html".to_string()));
    let r = choose_web_shell("games/snake/main.lua", None, false, false);
    assert_eq!(r.ok().unwrap(), None);
}

#[test]
fn choose_web_shell_rejects_a_flag_naming_no_file() {
    match choose_web_shell("main.lua", Some("nope.html"), false, true) {
        Err(Error::Cli(m)) => assert_eq!(m, "--web-shell file not found: nope.html"),
        _ => panic!("expected a CLI error"),
    }
}

#[test]
fn web_shell_override_errors_when_explicit_flag_points_at_missing_file() {
    match resolve_web_shell_override("/definitely/not/here/main.lua", Some("/nope/does-not-exist.html")) {
        Err(Error::Cli(msg)) => assert!(msg.contains("--web-shell"), "got: {msg}"),
        _ => panic!("expected Cli error"),
    }
}

#[test]
fn web_shell_override_is_none_without_flag_or_sibling() {
    assert_eq!(resolve_web_shell_override("/definitely/not/here/main.lua", None).ok().unwrap(), None);
}

#[test]
fn export_script_resolution_hands_the_error_on_unchanged() {
    let arg = "/definitely/not/a/real/path/xyzzy";
    let expected = usagi::cli::resolve_script_path(arg).unwrap_err();
    match resolve_export_script(arg) {
        Err(Error::Cli(m)) => assert_eq!(m, expected),
        _ => panic!("expected a CLI error"),
    }
}

#[test]
fn run_hands_a_resolution_error_back_unchanged() {
    let arg = "/definitely/not/a/real/path/xyzzy";
    let expected = usagi::cli::resolve_script_path(arg).unwrap_err();
    let r = run(resolve_export_script(arg), None, ExportTarget::Bundle, Some("t.tar.gz"), None, false, None, None);
    match r {
        Err(Error::Cli(m)) => assert_eq!(m, expected),
        _ => panic!("expected the resolution error"),
    }
}
