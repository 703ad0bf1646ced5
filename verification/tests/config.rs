use usagi::config::{
    combine, conf_partial, frontmatter_partial, strip_bom, Config, Partial, Resolution,
    TextSources, DEFAULT_SPRITE_SIZE,
};

/// The engine's default game resolution.
const DEFAULT_RES: Resolution<f32> = Resolution { w: 320.0, h: 180.0 };

/// A dimension as the platform reads it from the raw text: a finite
/// float, anything else unset.
fn dim(raw: &Option<String>) -> Option<f32> {
    raw.as_deref()
        .and_then(|s| s.parse::<f32>().ok())
        .filter(|v| v.is_finite() && *v >= 1.0)
}

fn with_float_dims(p: Partial<String>) -> Partial<f32> {
    let w = dim(&p.game_width);
    let h = dim(&p.game_height);
    p.with_dims(w, h)
}

#[test]
fn frontmatter_reads_leading_comment_block() {
    let p = frontmatter_partial(
        "-- a little shmup\n-- name = NEOGEAR\n-- game_width = 320\n-- pixel_perfect = true\n\nw = usagi.GAME_W\n",
    );
    assert_eq!(p.name.as_deref(), Some("NEOGEAR"));
    assert_eq!(dim(&p.game_width), Some(320.0));
    assert_eq!(p.pixel_perfect, Some(true));
}

#[test]
fn frontmatter_tolerates_spacing_around_equals() {
    assert_eq!(
        frontmatter_partial("--name=NEOGEAR\n").name.as_deref(),
        Some("NEOGEAR")
    );
}

#[test]
fn frontmatter_keeps_spaces_inside_value() {
    assert_eq!(
        frontmatter_partial("-- name = Foo Bar Biz\n").name.as_deref(),
        Some("Foo Bar Biz")
    );
}

#[test]
fn frontmatter_stops_at_first_non_comment_line() {
    let p = frontmatter_partial("-- name = NEOGEAR\n\n-- game_width = 640\n");
    assert_eq!(p.name.as_deref(), Some("NEOGEAR"));
    assert_eq!(dim(&p.game_width), None);
}

#[test]
fn frontmatter_ignores_luals_annotations() {
    let p = frontmatter_partial("---@meta\n-- name = NEOGEAR\n");
    assert_eq!(p.name.as_deref(), Some("NEOGEAR"));
}

#[test]
fn conf_skips_blank_and_hash_comment_lines() {
    let p = conf_partial("# my game\n\nname = NEOGEAR\nsprite_size = 8\n");
    assert_eq!(p.name.as_deref(), Some("NEOGEAR"));
    assert_eq!(p.sprite_size, Some(8));
}

#[test]
fn empty_value_is_ignored() {
    assert!(conf_partial("name =\n").name.is_none());
}

#[test]
fn invalid_numbers_drop_to_none() {
    let p = conf_partial("game_width = wide\nsprite_size = 0\n");
    assert_eq!(dim(&p.game_width), None);
    assert_eq!(p.sprite_size, None);
}

#[test]
fn frontmatter_wins_over_conf_over_lua() {
    let fm = with_float_dims(frontmatter_partial("-- name = FromFrontmatter\n"));
    let conf = with_float_dims(conf_partial("name = FromConf\ngame_id = com.conf.game\n"));
    let lua = Partial {
        name: Some("FromLua".into()),
        sprite_size: Some(8),
        ..Partial::default()
    };
    let c = combine(Some(lua), conf, fm, DEFAULT_RES);
    assert_eq!(c.name.as_deref(), Some("FromFrontmatter"));
    assert_eq!(c.game_id.as_deref(), Some("com.conf.game"));
    assert_eq!(c.sprite_size, 8);
}

#[test]
fn unset_fields_fall_back_to_defaults() {
    let c = combine(None, Partial::<f32>::default(), Partial::default(), DEFAULT_RES);
    assert!(c.name.is_none());
    assert_eq!(c.resolution.w, DEFAULT_RES.w);
    assert_eq!(c.sprite_size, DEFAULT_SPRITE_SIZE);
    assert!(c.pause_menu);
}

#[test]
fn non_finite_dimensions_are_rejected() {
    assert_eq!(dim(&conf_partial("game_width = inf\n").game_width), None);
    assert_eq!(dim(&conf_partial("game_height = nan\n").game_height), None);
}

#[test]
fn leading_bom_does_not_hide_first_line() {
    assert_eq!(
        frontmatter_partial(&strip_bom("\u{feff}-- name = NEOGEAR\n"))
            .name
            .as_deref(),
        Some("NEOGEAR")
    );
    assert_eq!(
        conf_partial(&strip_bom("\u{feff}name = NEOGEAR\n")).name.as_deref(),
        Some("NEOGEAR")
    );
}

#[test]
fn conf_parses_booleans_ignoring_case_and_icon_index() {
    let p = conf_partial("pixel_perfect = TRUE\npause_menu = false\ninitial_fullscreen = yes\nicon = 5\n");
    assert_eq!(p.pixel_perfect, Some(true));
    assert_eq!(p.pause_menu, Some(false));
    assert_eq!(p.initial_fullscreen, None);
    assert_eq!(p.icon, Some(5));
}

#[test]
fn unknown_keys_change_nothing() {
    let p = conf_partial("colour = blue\n");
    assert!(p.name.is_none() && p.game_id.is_none() && p.icon.is_none());
    assert!(p.sprite_size.is_none() && p.pixel_perfect.is_none());
}

#[test]
fn config_from_text_merges_frontmatter_and_conf() {
    let text = TextSources {
        fm: with_float_dims(frontmatter_partial("-- name = FromFrontmatter\nfunction _init() end\n")),
        conf: with_float_dims(conf_partial("name = FromConf\ngame_width = 200\n")),
    };
    let c = Config::from_text(&text, DEFAULT_RES);
    assert_eq!(c.name.as_deref(), Some("FromFrontmatter"));
    assert_eq!(c.resolution.w, 200.0);
    assert_eq!(c.resolution.h, 180.0);
}

#[test]
fn config_resolve_fills_from_lua_under_text_sources() {
    let text = TextSources {
        fm: with_float_dims(frontmatter_partial("-- name = FromFrontmatter\n")),
        conf: Partial::default(),
    };
    let lua = Partial {
        game_id: Some("com.x.y".into()),
        icon: Some(5),
        ..Partial::default()
    };
    let c = Config::resolve(Some(lua), &text, DEFAULT_RES);
    assert_eq!(c.name.as_deref(), Some("FromFrontmatter"));
    assert_eq!(c.game_id.as_deref(), Some("com.x.y"));
    assert_eq!(c.icon, Some(5));
}

#[test]
fn default_config_has_engine_defaults() {
    let c = Config::default_with(DEFAULT_RES);
    assert!(c.name.is_none());
    assert!(!c.pixel_perfect);
    assert!(c.pause_menu);
    assert!(!c.initial_fullscreen);
    assert_eq!(c.sprite_size, 16);
    assert_eq!(c.resolution.h, 180.0);
}

#[test]
fn dimensions_below_one_drop_to_none() {
    assert_eq!(dim(&conf_partial("game_width = 0.5\n").game_width), None);
    assert_eq!(dim(&conf_partial("game_height = 240\n").game_height), Some(240.0));
}

#[test]
fn conf_warnings_name_malformed_lines_unknown_keys_and_bad_values() {
    let text = "# comment\nname = Demo\nbogus = 1\npause_menu = maybe\nsprite_size = 0\nicon = -3\njust words\ngame_width = wide\n";
    let w = usagi::config::conf_warnings(text);
    assert_eq!(
        w,
        vec![
            "usagi.conf: unknown key 'bogus'".to_string(),
            "usagi.conf: 'pause_menu' expects true or false, got 'maybe'".to_string(),
            "usagi.conf: 'sprite_size' expects an integer >= 1, got '0'".to_string(),
            "usagi.conf: 'icon' expects a whole number, got '-3'".to_string(),
            "usagi.conf: ignoring malformed line 'just words'".to_string(),
        ]
    );
}

#[test]
fn conf_warnings_of_a_clean_file_are_empty() {
    let text = "name = Demo\npixel_perfect = TRUE\nicon = 2\nsprite_size = 8\nempty =\n";
    assert!(usagi::config::conf_warnings(text).is_empty());
}

#[test]
fn pick_warning_names_every_source_and_the_winner() {
    assert_eq!(usagi::config::pick_warning("name", true, false, false), None);
    assert_eq!(usagi::config::pick_warning("name", false, false, true), None);
    assert_eq!(
        usagi::config::pick_warning("name", true, true, false).unwrap(),
        "config: 'name' set by frontmatter and usagi.conf; using frontmatter"
    );
    assert_eq!(
        usagi::config::pick_warning("icon", false, true, true).unwrap(),
        "config: 'icon' set by usagi.conf and _config; using usagi.conf"
    );
    assert_eq!(
        usagi::config::pick_warning("sprite_size", true, true, true).unwrap(),
        "config: 'sprite_size' set by frontmatter and usagi.conf and _config; using frontmatter"
    );
}
