use usagi::assets::sfx_name;

#[test]
fn wav_files_are_named_by_their_stem() {
    assert_eq!(sfx_name("sfx/jump.wav").as_deref(), Some("jump"));
    assert_eq!(sfx_name("/abs/sfx/coin.wav").as_deref(), Some("coin"));
}

#[test]
fn other_files_are_not_sounds() {
    assert_eq!(sfx_name("sfx/readme.txt"), None);
    assert_eq!(sfx_name("sfx/bgm.ogg"), None);
    assert_eq!(sfx_name("sfx/noext"), None);
}
