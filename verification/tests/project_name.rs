use usagi::project_name::{slugify, ProjectName, FALLBACK_DISPLAY, FALLBACK_SLUG};

#[test]
fn resolve_prefers_config_name_over_fallback() {
    let p = ProjectName::resolve(Some("Sprite Example"), Some("spr"));
    assert_eq!(p.display(), "Sprite Example");
    assert_eq!(p.slug(), "sprite-example");
}

#[test]
fn resolve_uses_fallback_when_config_name_missing() {
    let p = ProjectName::resolve(None, Some("spr"));
    assert_eq!(p.display(), "spr");
    assert_eq!(p.slug(), "spr");
}

#[test]
fn resolve_treats_blank_config_name_as_unset() {
    let p = ProjectName::resolve(Some("   "), Some("spr"));
    assert_eq!(p.display(), "spr");
}

#[test]
fn resolve_falls_back_to_engine_default_when_neither_source_present() {
    let p = ProjectName::resolve(None, None);
    assert_eq!(p.display(), FALLBACK_DISPLAY);
    assert_eq!(p.slug(), "usagi");
}

#[test]
fn slug_drops_punctuation_and_collapses_separators() {
    assert_eq!(
        slugify("Sprite  Example!").as_deref(),
        Some("sprite-example")
    );
    assert_eq!(slugify("My_Game-2").as_deref(), Some("my-game-2"));
    assert_eq!(
        slugify("--leading--trailing--").as_deref(),
        Some("leading-trailing")
    );
}

#[test]
fn slug_drops_non_ascii() {
    assert_eq!(slugify("café").as_deref(), Some("caf"));
    assert_eq!(slugify("日本語").as_deref(), None);
}

#[test]
fn slug_returns_none_for_empty_or_punctuation_only_input() {
    assert_eq!(slugify(""), None);
    assert_eq!(slugify("!!!"), None);
    assert_eq!(slugify("---"), None);
}

#[test]
fn resolve_uses_fallback_slug_when_configured_name_has_no_slugable_chars() {
    let p = ProjectName::resolve(Some("日本語"), Some("spr"));
    assert_eq!(p.display(), "日本語");
    assert_eq!(p.slug(), "spr");
}

#[test]
fn resolve_falls_back_to_game_when_nothing_slugable_anywhere() {
    let p = ProjectName::resolve(Some("!!!"), Some("???"));
    assert_eq!(p.slug(), FALLBACK_SLUG);
}

#[test]
fn resolve_trims_surrounding_whitespace_of_both_sources() {
    let p = ProjectName::resolve(Some("  Neo Gear  "), None);
    assert_eq!(p.display(), "Neo Gear");
    assert_eq!(p.slug(), "neo-gear");
    let q = ProjectName::resolve(None, Some("  snake "));
    assert_eq!(q.display(), "snake");
}

#[test]
fn slug_lowercases_and_keeps_digits() {
    assert_eq!(slugify("ABC123").as_deref(), Some("abc123"));
    assert_eq!(slugify("a.b.c").as_deref(), Some("a-b-c"));
}
