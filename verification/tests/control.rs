use lightbox::buttons::{
    on_reading, input_pins, output_pins, GREEN_BUTTON, MODE_BUTTON_BLUE, MODE_BUTTON_BLUE_LED,
    MODE_BUTTON_GREEN, MODE_BUTTON_GREEN_LED, MODE_BUTTON_RED, MODE_BUTTON_RED_LED, NO_READING,
    RED_BUTTON, RIGHT_BLUE_BUTTON,
};
use lightbox::control::{handle_event, handle_playlists, CurrentStatus, Step};
use lightbox::lightstrip::{ColorSet, Message, Pixel};
use lightbox::modes::idle::IdleMode;
use lightbox::modes::{Effect, Mode, MusicCommand};
use lightbox::music::{after_stage, CallNext, CallStage};

fn px(r: u8, g: u8, b: u8) -> Pixel {
    Pixel { r, g, b }
}

/// Carries a step through to the end, as when all the work succeeds, and
/// gathers the work in order.
fn run_all(step: Step, status: &mut CurrentStatus) -> Vec<Effect> {
    let mut all = Vec::new();
    let mut step = step;
    loop {
        all.extend(step.effects);
        match step.next {
            Some(switch) => step = status.advance(switch),
            None => return all,
        }
    }
}

fn leds_off() -> Vec<Effect> {
    vec![
        Effect::SetLed { pin: MODE_BUTTON_GREEN_LED, value: 0 },
        Effect::SetLed { pin: MODE_BUTTON_BLUE_LED, value: 0 },
        Effect::SetLed { pin: MODE_BUTTON_RED_LED, value: 0 },
    ]
}

#[test]
fn starting_in_idle_only_switches_leds_off() {
    let mut status = CurrentStatus::new();
    let step = status.set_mode(Mode::Idle(IdleMode::create()), None);
    let effects = run_all(step, &mut status);
    assert_eq!(effects, leds_off());
    assert_eq!(status.current_led(), None);
}

#[test]
fn blue_mode_button_enters_color_mode() {
    let mut status = CurrentStatus::new();
    let mut expected = leds_off();
    expected.push(Effect::SetLed { pin: MODE_BUTTON_BLUE_LED, value: 1 });
    expected.push(Effect::TryShow(Message::ColorSet(ColorSet::new(vec![px(255, 0, 0)]))));
    assert_eq!(run_all(handle_event(MODE_BUTTON_BLUE, &mut status), &mut status), expected);
    assert_eq!(status.current_led(), Some(MODE_BUTTON_BLUE_LED));
    assert!(matches!(status.mode(), Mode::Color(_)));
    assert_eq!(
        run_all(handle_event(RIGHT_BLUE_BUTTON, &mut status), &mut status),
        vec![Effect::TryShow(Message::Unchase(px(255, 255, 0)))]
    );
    assert_eq!(
        run_all(handle_event(GREEN_BUTTON, &mut status), &mut status),
        vec![Effect::TryShow(Message::ColorSet(ColorSet::new(vec![px(187, 187, 0)])))]
    );
    assert_eq!(status.current_led(), Some(MODE_BUTTON_BLUE_LED));
}

#[test]
fn same_mode_button_twice_goes_idle() {
    let mut status = CurrentStatus::new();
    run_all(handle_event(MODE_BUTTON_BLUE, &mut status), &mut status);
    let mut expected = leds_off();
    expected.push(Effect::TryShow(Message::Unchase(px(0, 0, 0))));
    assert_eq!(run_all(handle_event(MODE_BUTTON_BLUE, &mut status), &mut status), expected);
    assert_eq!(status.current_led(), None);
    assert!(matches!(status.mode(), Mode::Idle(_)));
}

#[test]
fn red_mode_button_lights_its_led() {
    let mut status = CurrentStatus::new();
    let mut expected = leds_off();
    expected.push(Effect::SetLed { pin: MODE_BUTTON_RED_LED, value: 1 });
    assert_eq!(run_all(handle_event(MODE_BUTTON_RED, &mut status), &mut status), expected);
    assert_eq!(status.current_led(), Some(MODE_BUTTON_RED_LED));
    assert!(run_all(handle_event(RED_BUTTON, &mut status), &mut status).is_empty());
}

#[test]
fn green_mode_button_asks_for_playlists_first() {
    let mut status = CurrentStatus::new();
    assert_eq!(run_all(handle_event(MODE_BUTTON_GREEN, &mut status), &mut status), vec![Effect::OpenMusic]);
    assert_eq!(status.current_led(), None);
    let step = handle_playlists(vec!["A #010203".to_string(), "B".to_string()], &mut status);
    let effects = run_all(step, &mut status);
    let mut expected = leds_off();
    expected.push(Effect::SetLed { pin: MODE_BUTTON_GREEN_LED, value: 1 });
    expected.push(Effect::Music(MusicCommand::PlayPlaylist("A #010203".to_string())));
    expected.push(Effect::Show(Message::Chase(px(1, 2, 3))));
    assert_eq!(effects, expected);
    assert_eq!(status.current_led(), Some(MODE_BUTTON_GREEN_LED));
    assert_eq!(
        run_all(handle_event(RED_BUTTON, &mut status), &mut status),
        vec![Effect::Music(MusicCommand::PlayPlaylist("B".to_string()))]
    );
    // Green again: the music mode is torn down and the box goes idle.
    let mut expected = leds_off();
    expected.push(Effect::Music(MusicCommand::Stop));
    let step = handle_playlists(vec![], &mut status);
    assert_eq!(run_all(step, &mut status), expected);
    assert_eq!(status.current_led(), None);
}

#[test]
fn switching_modes_tears_the_old_one_down() {
    let mut status = CurrentStatus::new();
    run_all(handle_event(MODE_BUTTON_BLUE, &mut status), &mut status);
    let effects = run_all(handle_event(MODE_BUTTON_RED, &mut status), &mut status);
    let mut expected = leds_off();
    expected.push(Effect::TryShow(Message::Unchase(px(0, 0, 0))));
    expected.push(Effect::SetLed { pin: MODE_BUTTON_RED_LED, value: 1 });
    assert_eq!(effects, expected);
    assert!(matches!(status.mode(), Mode::Idle(_)));
}

#[test]
fn unknown_event_does_nothing() {
    let mut status = CurrentStatus::new();
    run_all(handle_event(MODE_BUTTON_BLUE, &mut status), &mut status);
    assert!(run_all(handle_event(5, &mut status), &mut status).is_empty());
    assert_eq!(status.current_led(), Some(MODE_BUTTON_BLUE_LED));
}

#[test]
fn readings_report_presses_once() {
    let r = on_reading(NO_READING, 0);
    assert!(r.pressed);
    assert_eq!(r.keep, 0);
    assert!(!on_reading(0, 0).pressed);
    let r = on_reading(0, 1);
    assert!(!r.pressed);
    assert_eq!(r.keep, 1);
    assert!(on_reading(1, 0).pressed);
    assert!(!on_reading(NO_READING, 1).pressed);
}

#[test]
fn pin_lists() {
    assert_eq!(input_pins(), vec![1013, 1017, 1015, 100, 1019, 110, 106]);
    assert_eq!(output_pins(), vec![120, 116, 123, 102, 114, 108, 118]);
}

#[test]
fn music_calls_retry_once() {
    assert_eq!(after_stage(CallStage::FirstCall, true), CallNext::Succeed);
    assert_eq!(after_stage(CallStage::FirstCall, false), CallNext::Run(CallStage::Reconnect));
    assert_eq!(after_stage(CallStage::Reconnect, true), CallNext::Run(CallStage::SecondCall));
    assert_eq!(after_stage(CallStage::Reconnect, false), CallNext::Fail);
    assert_eq!(after_stage(CallStage::SecondCall, true), CallNext::Succeed);
    assert_eq!(after_stage(CallStage::SecondCall, false), CallNext::Fail);
}

#[test]
fn a_switch_changes_nothing_before_its_first_work_succeeds() {
    let mut status = CurrentStatus::new();
    run_all(handle_event(MODE_BUTTON_BLUE, &mut status), &mut status);
    // The red mode button: LEDs off and teardown first, status untouched.
    let step = handle_event(MODE_BUTTON_RED, &mut status);
    let mut expected = leds_off();
    expected.push(Effect::TryShow(Message::Unchase(px(0, 0, 0))));
    assert_eq!(step.effects, expected);
    assert_eq!(status.current_led(), Some(MODE_BUTTON_BLUE_LED));
    assert!(matches!(status.mode(), Mode::Color(_)));
    // Dropping the switch here (its work failed) leaves the colour mode.
    drop(step);
    assert!(matches!(status.mode(), Mode::Color(_)));
}

#[test]
fn the_led_is_recorded_before_it_is_lit_and_the_mode_taken_after() {
    let mut status = CurrentStatus::new();
    let step = handle_event(MODE_BUTTON_BLUE, &mut status);
    assert_eq!(status.current_led(), None);
    let switch = step.next.unwrap();
    let step = status.advance(switch);
    assert_eq!(step.effects, vec![Effect::SetLed { pin: MODE_BUTTON_BLUE_LED, value: 1 }]);
    assert_eq!(status.current_led(), Some(MODE_BUTTON_BLUE_LED));
    assert!(matches!(status.mode(), Mode::Idle(_)));
    let switch = step.next.unwrap();
    let step = status.advance(switch);
    assert_eq!(step.effects, vec![Effect::TryShow(Message::ColorSet(ColorSet::new(vec![px(255, 0, 0)])))]);
    assert!(step.next.is_none());
    assert!(matches!(status.mode(), Mode::Color(_)));
}

#[test]
fn going_idle_takes_two_steps() {
    let mut status = CurrentStatus::new();
    run_all(handle_event(MODE_BUTTON_RED, &mut status), &mut status);
    let step = handle_event(MODE_BUTTON_RED, &mut status);
    assert_eq!(status.current_led(), Some(MODE_BUTTON_RED_LED));
    let step = status.advance(step.next.unwrap());
    assert!(step.effects.is_empty() && step.next.is_none());
    assert_eq!(status.current_led(), None);
}
