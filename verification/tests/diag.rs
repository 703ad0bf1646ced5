use usagi::diag::StartupSnapshot;

#[test]
fn startup_snapshot_lines_report_the_environment() {
    let s = StartupSnapshot {
        build_profile: "release",
        platform: "linux",
        gc_pause: 200,
        gc_stepmul: 100,
        gc_stepsize: -13,
        game_w: 320,
        game_h: 180,
        pixel_perfect: true,
        sprite_size: 16,
        pause_menu: false,
        palette_custom: false,
        font_custom: true,
        script_name: "main.lua",
        lua_heap_bytes: 5000,
    };
    assert_eq!(
        s.lines(),
        vec![
            "-- startup snapshot --",
            "build release on linux",
            "gc inc pause=200 stepmul=100 stepsize=-13",
            "resolution 320x180 pixel-perfect=on sprite-size=16",
            "pause-menu=off palette=pico-8 font=custom",
            "script=main.lua lua-heap-after-init=4 KB",
            "-- end startup snapshot --",
        ]
    );
}
