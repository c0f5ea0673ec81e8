use lightbox::lightstrip::{ColorSet, Message, Pixel};
use lightbox::modes::color::{gamma_multiplier, palette_color, ColorMode, N_COLORS};
use lightbox::modes::idle::IdleMode;
use lightbox::modes::music::{colors_in_bytes, MusicMode};
use lightbox::modes::{Button, Effect, Mode, ModeTrait, MusicCommand};

fn px(r: u8, g: u8, b: u8) -> Pixel {
    Pixel { r, g, b }
}

fn set(c: Pixel) -> Vec<Effect> {
    vec![Effect::TryShow(Message::ColorSet(ColorSet::new(vec![c])))]
}

fn unchase(c: Pixel) -> Vec<Effect> {
    vec![Effect::TryShow(Message::Unchase(c))]
}

#[test]
fn color_mode_starts_red_at_full_brightness() {
    let mut mode = ColorMode::create();
    assert_eq!(mode.current_color(), 0);
    assert_eq!(mode.intensity(), 7);
    assert_eq!(mode.setup(), set(px(255, 0, 0)));
    assert_eq!(mode.get_color(), Ok(px(255, 0, 0)));
}

#[test]
fn intensify_scales_by_gamma() {
    let mut mode = ColorMode::create();
    assert_eq!(mode.intensify(200), Ok(200));
    mode.green_button();
    assert_eq!(mode.intensify(255), Ok(187));
    mode.green_button();
    mode.green_button();
    mode.green_button();
    assert_eq!(mode.intensity(), 3);
    assert_eq!(mode.intensify(128), Ok(23));
}

#[test]
fn tables() {
    assert_eq!(palette_color(1), Some(px(255, 255, 0)));
    assert_eq!(palette_color(5), Some(px(255, 0, 255)));
    assert_eq!(palette_color(6), None);
    assert_eq!(gamma_multiplier(0), Some(0));
    assert_eq!(gamma_multiplier(4), Some(83));
    assert_eq!(gamma_multiplier(8), None);
}

#[test]
fn red_button_stops_at_full_brightness() {
    let mut mode = ColorMode::create();
    assert_eq!(mode.red_button(), set(px(255, 0, 0)));
    assert_eq!(mode.intensity(), 7);
}

#[test]
fn green_button_stops_at_darkest() {
    let mut mode = ColorMode::create();
    for _ in 0..7 {
        mode.green_button();
    }
    assert_eq!(mode.intensity(), 0);
    assert_eq!(mode.green_button(), set(px(0, 0, 0)));
    assert_eq!(mode.intensity(), 0);
    assert_eq!(mode.red_button(), set(px(5, 0, 0)));
}

#[test]
fn red_then_green_restores_brightness() {
    let mut mode = ColorMode::create();
    mode.green_button();
    mode.green_button();
    let before = mode.get_color();
    mode.red_button();
    mode.green_button();
    assert_eq!(mode.get_color(), before);
}

#[test]
fn blue_buttons_step_through_colors() {
    let mut mode = ColorMode::create();
    assert_eq!(mode.right_blue_botton(), unchase(px(255, 255, 0)));
    assert_eq!(mode.left_blue_button(), unchase(px(255, 0, 0)));
    assert_eq!(mode.left_blue_button(), unchase(px(255, 0, 255)));
    assert_eq!(mode.current_color(), N_COLORS - 1);
    assert_eq!(mode.right_blue_botton(), unchase(px(255, 0, 0)));
    for _ in 0..N_COLORS {
        mode.right_blue_botton();
    }
    assert_eq!(mode.current_color(), 0);
}

#[test]
fn color_teardown_unchases_black() {
    let mut mode = ColorMode::create();
    assert_eq!(mode.teardown(), unchase(px(0, 0, 0)));
}

#[test]
fn idle_mode_does_nothing() {
    let mut mode = IdleMode::create();
    assert!(mode.setup().is_empty());
    assert!(mode.teardown().is_empty());
    assert!(mode.red_button().is_empty());
    assert!(mode.green_button().is_empty());
    assert!(mode.left_blue_button().is_empty());
    assert!(mode.right_blue_botton().is_empty());
}

#[test]
fn colors_in_names() {
    assert_eq!(colors_in_bytes(b"Chill #ff0000 and #00FF00x"), vec![px(255, 0, 0), px(0, 255, 0)]);
    assert_eq!(colors_in_bytes(b"##12345678"), vec![px(0x12, 0x34, 0x56)]);
    assert_eq!(colors_in_bytes(b"#12345#abcdef"), vec![px(0xab, 0xcd, 0xef)]);
    assert_eq!(colors_in_bytes(b"#1234567#89abcd"), vec![px(0x12, 0x34, 0x56), px(0x89, 0xab, 0xcd)]);
    assert_eq!(colors_in_bytes(b"no colours"), vec![]);
    assert_eq!(colors_in_bytes(b"#+f+f+f"), vec![]);
    assert_eq!(colors_in_bytes("é#0a0b0c".as_bytes()), vec![px(10, 11, 12)]);
}

fn names(list: &[&str]) -> Vec<String> {
    list.iter().map(|s| s.to_string()).collect()
}

#[test]
fn music_mode_plays_and_flashes() {
    let mut mode = MusicMode::create(names(&["Jazz #0000ff", "Rock"]));
    assert_eq!(mode.current_playlist(), 0);
    assert_eq!(
        mode.setup(),
        vec![
            Effect::Music(MusicCommand::PlayPlaylist("Jazz #0000ff".to_string())),
            Effect::Show(Message::Chase(px(0, 0, 255))),
        ]
    );
    assert_eq!(mode.red_button(), vec![Effect::Music(MusicCommand::PlayPlaylist("Rock".to_string()))]);
    assert_eq!(mode.current_playlist(), 1);
    mode.red_button();
    assert_eq!(mode.current_playlist(), 0);
    mode.green_button();
    assert_eq!(mode.current_playlist(), 1);
    mode.green_button();
    assert_eq!(mode.current_playlist(), 0);
}

#[test]
fn music_mode_player_buttons() {
    let mut mode = MusicMode::create(names(&["A"]));
    assert_eq!(mode.teardown(), vec![Effect::Music(MusicCommand::Stop)]);
    assert_eq!(mode.right_blue_botton(), vec![Effect::Music(MusicCommand::Next)]);
    assert_eq!(mode.left_blue_button(), vec![Effect::Music(MusicCommand::Prev)]);
    mode.red_button();
    assert_eq!(mode.current_playlist(), 0);
}

#[test]
fn music_mode_over_no_playlists_can_be_torn_down() {
    let mut mode = MusicMode::create(vec![]);
    assert_eq!(mode.teardown(), vec![Effect::Music(MusicCommand::Stop)]);
}

#[test]
fn colors_for_playlist_reads_the_name() {
    let mode = MusicMode::create(names(&["x"]));
    assert_eq!(mode.colors_for_playlist(&"a #102030 b #405060".to_string()), vec![px(16, 32, 48), px(64, 80, 96)]);
}

#[test]
fn mode_press_dispatches() {
    let mut mode = Mode::Color(ColorMode::create());
    assert_eq!(mode.press(Button::RightBlue), unchase(px(255, 255, 0)));
    let mut idle = Mode::Idle(IdleMode::create());
    assert!(idle.press(Button::Red).is_empty());
}
