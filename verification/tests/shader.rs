use usagi::shader::ShaderManager;
use usagi::shader::{
    alt_key_for_target, generate_generic_fragment, generic_fragment_key, primary_key_for_target,
    read_fragment_source, strip_usagi_shader_directive, ShaderBuildTarget, ShaderProfile,
};

#[test]
fn shader_profiles_map_from_explicit_build_targets() {
    assert_eq!(
        ShaderProfile::for_build_target(ShaderBuildTarget::Desktop),
        ShaderProfile::DesktopGlsl330
    );
    assert_eq!(
        ShaderProfile::for_build_target(ShaderBuildTarget::Web),
        ShaderProfile::WebGlslEs100
    );
}

#[test]
fn native_shader_fallback_order_matches_build_target() {
    assert_eq!(
        primary_key_for_target(ShaderBuildTarget::Desktop, "crt", "fs"),
        "shaders/crt.fs"
    );
    assert_eq!(
        alt_key_for_target(ShaderBuildTarget::Desktop, "crt", "fs"),
        "shaders/crt_es.fs"
    );
    assert_eq!(
        primary_key_for_target(ShaderBuildTarget::Web, "crt", "fs"),
        "shaders/crt_es.fs"
    );
    assert_eq!(
        alt_key_for_target(ShaderBuildTarget::Web, "crt", "fs"),
        "shaders/crt.fs"
    );
}

#[test]
fn generic_fragment_key_uses_usagi_suffix() {
    assert_eq!(generic_fragment_key("crt"), "shaders/crt.usagi.fs");
}

#[test]
fn generic_fragment_source_wins_over_native_fallback() {
    let generic =
        b"vec4 usagi_main(vec2 uv, vec4 color) { return vec4(0.1, 0.2, 0.3, 1.0); }\n".to_vec();
    let native = b"#version 330\n// native_only_marker\nvoid main() {}\n".to_vec();
    let (key, src) =
        read_fragment_source("crt", ShaderBuildTarget::Desktop, Some(generic), Some(native), None)
            .unwrap();
    assert_eq!(key, "shaders/crt.usagi.fs");
    assert!(src.contains("return vec4(0.1, 0.2, 0.3, 1.0);"));
    assert!(!src.contains("native_only_marker"));
}

#[test]
fn native_source_is_used_when_no_generic_one_exists() {
    let alt = b"precision mediump float;\nvoid main() {}\n".to_vec();
    let (key, src) =
        read_fragment_source("crt", ShaderBuildTarget::Desktop, None, None, Some(alt)).unwrap();
    assert_eq!(key, "shaders/crt_es.fs");
    assert_eq!(src, "precision mediump float;\nvoid main() {}\n");
}

#[test]
fn missing_shader_names_every_key_tried() {
    let err = read_fragment_source("crt", ShaderBuildTarget::Desktop, None, None, None).unwrap_err();
    assert!(err.contains("shaders/crt.usagi.fs"), "got: {err}");
    assert!(err.contains("shaders/crt.fs"), "got: {err}");
    assert!(err.contains("shaders/crt_es.fs"), "got: {err}");
}

#[test]
fn generic_fragment_generates_desktop_shader() {
    let src = "#usagi shader 1\n\nvec4 usagi_main(vec2 uv, vec4 color) {\n    return usagi_texture(texture0, uv) * color;\n}\n";
    let out = generate_generic_fragment(src, ShaderProfile::DesktopGlsl330).unwrap();
    assert!(out.contains("#version 330"));
    assert!(out.contains("in vec2 fragTexCoord;"));
    assert!(out.contains("out vec4 finalColor;"));
    assert!(out.contains("#define usagi_texture(texture_name, uv) texture(texture_name, uv)"));
    assert!(out.contains("finalColor = usagi_main(fragTexCoord, fragColor);"));
    assert!(!out.contains("#usagi shader 1"));
}

#[test]
fn generic_fragment_generates_web_shader() {
    let src = "vec4 usagi_main(vec2 uv, vec4 color) {\n    return usagi_texture(texture0, uv) * color;\n}\n";
    let out = generate_generic_fragment(src, ShaderProfile::WebGlslEs100).unwrap();
    assert!(out.contains("#version 100"));
    assert!(out.contains("precision mediump float;"));
    assert!(out.contains("varying vec2 fragTexCoord;"));
    assert!(out.contains("#define usagi_texture(texture_name, uv) texture2D(texture_name, uv)"));
    assert!(out.contains("gl_FragColor = usagi_main(fragTexCoord, fragColor);"));
}

#[test]
fn generic_fragment_rejects_version_directive() {
    let err = generate_generic_fragment(
        "#version 330\nvec4 usagi_main(vec2 uv, vec4 color) { return color; }\n",
        ShaderProfile::DesktopGlsl330,
    )
    .unwrap_err();
    assert!(err.contains("must not declare #version"));
}

#[test]
fn generic_fragment_rejects_missing_entrypoint() {
    let err = generate_generic_fragment(
        "vec4 tint(vec4 color) { return color; }\n",
        ShaderProfile::DesktopGlsl330,
    )
    .unwrap_err();
    assert!(err.contains("usagi_main"));
}

#[test]
fn directive_line_is_dropped_and_the_rest_kept() {
    let out = strip_usagi_shader_directive("#usagi shader 1\nvoid f() {}\n");
    assert!(!out.contains("#usagi"));
    assert!(out.contains("void f() {}"));
}


#[test]
fn empty_manager_starts_inactive() {
    let m: ShaderManager<u32, f32> = ShaderManager::new();
    assert!(m.active.is_none());
}

#[test]
fn clearing_request_drops_active_on_apply() {
    let mut m: ShaderManager<u32, f32> = ShaderManager::new();
    m.request_set(None);
    assert!(matches!(m.pending_shader, Some(None)));
}

#[test]
fn drain_hands_out_the_request_then_the_uniforms_for_a_bound_shader() {
    let mut m: ShaderManager<u32, f32> = ShaderManager::new();
    m.request_set(Some("crt".to_string()));
    m.queue_uniform("time".to_string(), 1.5);
    m.queue_uniform("mix".to_string(), 0.25);
    assert_eq!(m.take_request(), Some(Some("crt".to_string())));
    assert!(m.pending_shader.is_none());
    m.bind(Some(7));
    assert_eq!(
        m.take_uniforms(),
        vec![("time".to_string(), 1.5), ("mix".to_string(), 0.25)]
    );
    assert!(m.pending_uniforms.is_empty());
    assert_eq!(m.take_request(), None);
    assert_eq!(m.active, Some(7));
}

#[test]
fn uniforms_queued_without_a_shader_are_dropped() {
    let mut m: ShaderManager<u32, f32> = ShaderManager::new();
    m.queue_uniform("time".to_string(), 1.0);
    assert!(m.take_uniforms().is_empty());
    m.bind(Some(1));
    assert!(m.take_uniforms().is_empty());
    m.request_set(None);
    assert_eq!(m.take_request(), Some(None));
    assert!(m.active.is_none());
}
