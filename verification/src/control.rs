use vstd::prelude::*;

use crate::buttons::{
    GREEN_BUTTON, LEFT_BLUE_BUTTON, MODE_BUTTON_BLUE, MODE_BUTTON_BLUE_LED, MODE_BUTTON_GREEN,
    MODE_BUTTON_GREEN_LED, MODE_BUTTON_RED, MODE_BUTTON_RED_LED, RED_BUTTON, RIGHT_BLUE_BUTTON,
};
use crate::modes::color::{ColorMode, ColorModeView};
use crate::modes::idle::IdleMode;
use crate::modes::music::{MusicMode, MusicModeView};
use crate::modes::{
    button_effects, button_step, effects_view, mode_ready, mode_valid, setup_effects,
    teardown_effects, Button, Effect, EffectView, Mode, ModeTrait, ModeView,
};

verus! {

/// The mode the box is in, and the mode button LED that is lit, if any.
#[derive(Debug)]
pub struct CurrentStatus {
    mode: Mode,
    current_led: Option<u64>,
}

pub struct StatusView {
    pub mode: ModeView,
    pub current_led: Option<u64>,
}

impl View for CurrentStatus {
    type V = StatusView;

    closed spec fn view(&self) -> StatusView {
        StatusView { mode: self.mode@, current_led: self.current_led }
    }
}

/// The mode is in a state of its own type and its handlers may run.
pub open spec fn status_ok(s: StatusView) -> bool {
    mode_valid(s.mode) && mode_ready(s.mode)
}

/// Switch the three mode button LEDs off.
pub open spec fn leds_off() -> Seq<EffectView> {
    seq![
        EffectView::SetLed { pin: MODE_BUTTON_GREEN_LED, value: 0 },
        EffectView::SetLed { pin: MODE_BUTTON_BLUE_LED, value: 0 },
        EffectView::SetLed { pin: MODE_BUTTON_RED_LED, value: 0 },
    ]
}

/// The state after a whole switch to `mode` with `led`, every step having
/// succeeded: a different LED switches
/// to the new mode with that LED lit (no LED: the old mode stays, torn
/// down); the LED already lit switches to the idle mode with none lit.
pub open spec fn status_after_set_mode(s: StatusView, mode: ModeView, led: Option<u64>) -> StatusView {
    if s.current_led != led {
        if led is Some {
            StatusView { mode, current_led: led }
        } else {
            StatusView { mode: s.mode, current_led: None }
        }
    } else {
        StatusView { mode: ModeView::Idle, current_led: None }
    }
}

/// The work of a whole switch to `mode` with `led`: the mode LEDs go off,
/// the old mode is torn down, then a new LED is lit and the new mode set up.
pub open spec fn set_mode_effects(s: StatusView, mode: ModeView, led: Option<u64>) -> Seq<EffectView> {
    leds_off() + teardown_effects(s.mode) + if s.current_led != led {
        match led {
            Some(l) => seq![EffectView::SetLed { pin: l, value: 1 }] + setup_effects(mode),
            None => Seq::empty(),
        }
    } else {
        setup_effects(ModeView::Idle)
    }
}

/// The colour mode as it is created.
pub open spec fn fresh_color_mode() -> ModeView {
    ModeView::Color(ColorModeView { color: 0, intensity: 7 })
}

/// The button of the current mode that an event names, if any.
pub open spec fn mode_button(event: u64) -> Option<Button> {
    if event == RED_BUTTON {
        Some(Button::Red)
    } else if event == RIGHT_BLUE_BUTTON {
        Some(Button::RightBlue)
    } else if event == LEFT_BLUE_BUTTON {
        Some(Button::LeftBlue)
    } else if event == GREEN_BUTTON {
        Some(Button::Green)
    } else {
        None
    }
}

/// The state after a button event, all its work having succeeded.
pub open spec fn status_after_event(s: StatusView, event: u64) -> StatusView {
    if event == MODE_BUTTON_GREEN {
        s
    } else if event == MODE_BUTTON_RED {
        status_after_set_mode(s, ModeView::Idle, Some(MODE_BUTTON_RED_LED))
    } else if event == MODE_BUTTON_BLUE {
        status_after_set_mode(s, fresh_color_mode(), Some(MODE_BUTTON_BLUE_LED))
    } else {
        match mode_button(event) {
            Some(b) => StatusView { mode: button_step(s.mode, b), current_led: s.current_led },
            None => s,
        }
    }
}

/// All the work a button event asks for, when it all succeeds. The green
/// mode button first asks for the music player's playlists; the switch
/// waits for them.
pub open spec fn event_effects(s: StatusView, event: u64) -> Seq<EffectView> {
    if event == MODE_BUTTON_GREEN {
        seq![EffectView::OpenMusic]
    } else if event == MODE_BUTTON_RED {
        set_mode_effects(s, ModeView::Idle, Some(MODE_BUTTON_RED_LED))
    } else if event == MODE_BUTTON_BLUE {
        set_mode_effects(s, fresh_color_mode(), Some(MODE_BUTTON_BLUE_LED))
    } else {
        match mode_button(event) {
            Some(b) => button_effects(s.mode, b),
            None => Seq::empty(),
        }
    }
}

/// The music mode over these playlists, as it is created.
pub open spec fn fresh_music_mode(playlists: Seq<Seq<char>>) -> ModeView {
    ModeView::Music(MusicModeView { playlists, current: 0 })
}

/// The stage a mode switch has reached once the LEDs are off and the old
/// mode is torn down.
#[derive(Clone, Copy, Debug, PartialEq, Eq, Structural)]
pub enum SwitchStage {
    /// Record the new LED (or go idle) and light it.
    LightLed,
    /// Take the new mode and set it up.
    SetUp,
}

/// A mode switch under way: the mode asked for, its LED, and the stage to
/// carry out next.
#[derive(Debug)]
pub struct ModeSwitch {
    mode: Mode,
    led: Option<u64>,
    stage: SwitchStage,
}

pub struct SwitchView {
    pub mode: ModeView,
    pub led: Option<u64>,
    pub stage: SwitchStage,
}

impl View for ModeSwitch {
    type V = SwitchView;

    closed spec fn view(&self) -> SwitchView {
        SwitchView { mode: self.mode@, led: self.led, stage: self.stage }
    }
}

/// One step of handling an event: the outside work to carry out, then, if
/// all of it succeeded, the switch step to take next. When any of the work
/// fails, the event ends there with that error, the status as the step
/// left it.
#[derive(Debug)]
pub struct Step {
    pub effects: Vec<Effect>,
    pub next: Option<ModeSwitch>,
}

pub struct StepView {
    pub effects: Seq<EffectView>,
    pub next: Option<SwitchView>,
}

impl View for Step {
    type V = StepView;

    open spec fn view(&self) -> StepView {
        StepView {
            effects: effects_view(self.effects@),
            next: match self.next {
                Some(sw) => Some(sw@),
                None => None,
            },
        }
    }
}

/// The switch can go on from the status `s`: its mode is valid, and the mode
/// that will be set up may run.
pub open spec fn switch_ok(s: StatusView, sw: SwitchView) -> bool {
    &&& mode_valid(sw.mode)
    &&& match sw.stage {
        SwitchStage::LightLed => s.current_led != sw.led && sw.led is Some ==> mode_ready(sw.mode),
        SwitchStage::SetUp => mode_ready(sw.mode),
    }
}

/// The first step of a switch to `mode` with `led`: the three mode LEDs go
/// off and the old mode is torn down; the status does not change.
pub open spec fn begin_switch(s: StatusView, mode: ModeView, led: Option<u64>) -> StepView {
    StepView {
        effects: leds_off() + teardown_effects(s.mode),
        next: Some(SwitchView { mode, led, stage: SwitchStage::LightLed }),
    }
}

/// The status after a switch step. Lighting: a different LED is recorded
/// (the old mode stays until the LED is lit); the LED already lit means the
/// idle mode with none lit. Setting up: the new mode is taken.
pub open spec fn status_after_switch_step(s: StatusView, sw: SwitchView) -> StatusView {
    match sw.stage {
        SwitchStage::LightLed => if s.current_led != sw.led {
            StatusView { mode: s.mode, current_led: sw.led }
        } else {
            StatusView { mode: ModeView::Idle, current_led: None }
        },
        SwitchStage::SetUp => StatusView { mode: sw.mode, current_led: s.current_led },
    }
}

/// The step that a switch step hands back, from the status `s` before it.
pub open spec fn switch_step(s: StatusView, sw: SwitchView) -> StepView {
    match sw.stage {
        SwitchStage::LightLed => if s.current_led != sw.led {
            match sw.led {
                Some(l) => StepView {
                    effects: seq![EffectView::SetLed { pin: l, value: 1 }],
                    next: Some(SwitchView { mode: sw.mode, led: sw.led, stage: SwitchStage::SetUp }),
                },
                None => StepView { effects: Seq::empty(), next: None },
            }
        } else {
            StepView { effects: setup_effects(ModeView::Idle), next: None }
        },
        SwitchStage::SetUp => StepView { effects: setup_effects(sw.mode), next: None },
    }
}

/// The status right after `handle_event`: a mode button leaves it as it is
/// (its switch comes step by step); a button of the current mode moves the
/// mode.
pub open spec fn status_after_event_step(s: StatusView, event: u64) -> StatusView {
    if event == MODE_BUTTON_GREEN || event == MODE_BUTTON_RED || event == MODE_BUTTON_BLUE {
        s
    } else {
        status_after_event(s, event)
    }
}

/// The step that `handle_event` hands back.
pub open spec fn event_step(s: StatusView, event: u64) -> StepView {
    if event == MODE_BUTTON_RED {
        begin_switch(s, ModeView::Idle, Some(MODE_BUTTON_RED_LED))
    } else if event == MODE_BUTTON_BLUE {
        begin_switch(s, fresh_color_mode(), Some(MODE_BUTTON_BLUE_LED))
    } else {
        StepView { effects: event_effects(s, event), next: None }
    }
}

impl CurrentStatus {
    /// The idle mode with no LED lit.
    pub fn new() -> (status: CurrentStatus)
        ensures
            status@ == (StatusView { mode: ModeView::Idle, current_led: None }),
    {
        CurrentStatus { mode: Mode::Idle(IdleMode::create()), current_led: None }
    }

    pub fn mode(&self) -> (mode: &Mode)
        ensures
            mode@ == self@.mode,
    {
        &self.mode
    }

    pub fn current_led(&self) -> (led: Option<u64>)
        ensures
            led == self@.current_led,
    {
        self.current_led
    }

    /// Starts switching to `mode` with `led` lit, or back to the idle mode
    /// when `led` is already lit: the three mode LEDs go off and the old
    /// mode is torn down, the status unchanged; the switch goes on with
    /// `advance` once that work has succeeded.
    pub fn set_mode(&mut self, mode: Mode, led: Option<u64>) -> (step: Step)
        requires
            status_ok(old(self)@),
            mode_valid(mode@),
            old(self)@.current_led != led && led is Some ==> mode_ready(mode@),
        ensures
            final(self)@ == old(self)@,
            step@ == begin_switch(old(self)@, mode@, led),
            status_ok(final(self)@),
            step.next matches Some(sw) && switch_ok(final(self)@, sw@),
    {
        let ghost s = self@;
        let mut effects: Vec<Effect> = Vec::new();
        effects.push(Effect::SetLed { pin: MODE_BUTTON_GREEN_LED, value: 0 });
        effects.push(Effect::SetLed { pin: MODE_BUTTON_BLUE_LED, value: 0 });
        effects.push(Effect::SetLed { pin: MODE_BUTTON_RED_LED, value: 0 });
        let mut down = self.mode.teardown();
        effects.append(&mut down);
        assert(effects_view(effects@) =~= leds_off() + teardown_effects(s.mode));
        Step { effects, next: Some(ModeSwitch { mode, led, stage: SwitchStage::LightLed }) }
    }

    /// Carries out the next stage of a switch, the work before it having
    /// succeeded.
    pub fn advance(&mut self, switch: ModeSwitch) -> (step: Step)
        requires
            status_ok(old(self)@),
            switch_ok(old(self)@, switch@),
        ensures
            final(self)@ == status_after_switch_step(old(self)@, switch@),
            step@ == switch_step(old(self)@, switch@),
            status_ok(final(self)@),
            step.next matches Some(sw) ==> switch_ok(final(self)@, sw@),
    {
        let ghost s = self@;
        let ghost sw = switch@;
        let ModeSwitch { mode, led, stage } = switch;
        match stage {
            SwitchStage::LightLed => {
                if self.current_led != led {
                    self.current_led = led;
                    match led {
                        Some(l) => {
                            let effects = vec![Effect::SetLed { pin: l, value: 1 }];
                            assert(effects_view(effects@) =~= seq![
                                EffectView::SetLed { pin: l, value: 1 },
                            ]);
                            Step {
                                effects,
                                next: Some(ModeSwitch { mode, led, stage: SwitchStage::SetUp }),
                            }
                        },
                        None => {
                            let effects: Vec<Effect> = Vec::new();
                            assert(effects_view(effects@) =~= Seq::empty());
                            Step { effects, next: None }
                        },
                    }
                } else {
                    self.current_led = None;
                    self.mode = Mode::Idle(IdleMode::create());
                    let effects = self.mode.setup();
                    Step { effects, next: None }
                }
            },
            SwitchStage::SetUp => {
                self.mode = mode;
                let effects = self.mode.setup();
                Step { effects, next: None }
            },
        }
    }
}

/// Handles one button event. A mode button only starts its switch; the
/// other buttons go to the current mode.
pub fn handle_event(event: u64, current: &mut CurrentStatus) -> (step: Step)
    requires
        status_ok(old(current)@),
    ensures
        final(current)@ == status_after_event_step(old(current)@, event),
        step@ == event_step(old(current)@, event),
        status_ok(final(current)@),
        step.next matches Some(sw) ==> switch_ok(final(current)@, sw@),
{
    if event == MODE_BUTTON_GREEN {
        let effects = vec![Effect::OpenMusic];
        assert(effects_view(effects@) =~= event_effects(old(current)@, event));
        Step { effects, next: None }
    } else if event == MODE_BUTTON_RED {
        current.set_mode(Mode::Idle(IdleMode::create()), Some(MODE_BUTTON_RED_LED))
    } else if event == MODE_BUTTON_BLUE {
        current.set_mode(Mode::Color(ColorMode::create()), Some(MODE_BUTTON_BLUE_LED))
    } else {
        let effects = if event == RED_BUTTON {
            current.mode.press(Button::Red)
        } else if event == RIGHT_BLUE_BUTTON {
            current.mode.press(Button::RightBlue)
        } else if event == LEFT_BLUE_BUTTON {
            current.mode.press(Button::LeftBlue)
        } else if event == GREEN_BUTTON {
            current.mode.press(Button::Green)
        } else {
            let none: Vec<Effect> = Vec::new();
            assert(effects_view(none@) =~= Seq::empty());
            none
        };
        Step { effects, next: None }
    }
}

/// Goes on with the green mode button once the music player's playlists are
/// known: starts switching to the music mode over them.
pub fn handle_playlists(playlists: Vec<String>, current: &mut CurrentStatus) -> (step: Step)
    requires
        status_ok(old(current)@),
        old(current)@.current_led != Some(MODE_BUTTON_GREEN_LED) ==> playlists@.len() > 0,
    ensures
        final(current)@ == old(current)@,
        step@ == begin_switch(
            old(current)@,
            fresh_music_mode(playlists@.map_values(|p: String| p@)),
            Some(MODE_BUTTON_GREEN_LED),
        ),
        status_ok(final(current)@),
        step.next matches Some(sw) && switch_ok(final(current)@, sw@),
{
    let ghost names = playlists@.map_values(|p: String| p@);
    let mode = Mode::Music(MusicMode::create(playlists));
    assert(mode@ == fresh_music_mode(names));
    current.set_mode(mode, Some(MODE_BUTTON_GREEN_LED))
}

/// A mode button toggles its LED: if it was lit, the box goes idle with no
/// LED lit; otherwise its LED is lit and the new mode taken.
pub proof fn lemma_mode_button_toggles(s: StatusView, mode: ModeView, led: u64)
    ensures
        status_after_set_mode(s, mode, Some(led)).current_led == (if s.current_led == Some(led) {
            None
        } else {
            Some(led)
        }),
        status_after_set_mode(s, mode, Some(led)).mode == (if s.current_led == Some(led) {
            ModeView::Idle
        } else {
            mode
        }),
{
}

/// Pressing the same mode button twice, its LED not lit before, leaves the
/// box idle with no LED lit.
pub proof fn lemma_same_mode_button_twice_is_idle(s: StatusView, event: u64)
    requires
        event == MODE_BUTTON_RED || event == MODE_BUTTON_BLUE,
        s.current_led != Some(if event == MODE_BUTTON_RED { MODE_BUTTON_RED_LED } else { MODE_BUTTON_BLUE_LED }),
    ensures
        status_after_event(status_after_event(s, event), event).current_led is None,
        status_after_event(status_after_event(s, event), event).mode == ModeView::Idle,
{
}

/// Every switch of mode starts by switching the three mode LEDs off, then
/// tears the old mode down, before anything else.
pub proof fn lemma_switch_starts_with_leds_off(s: StatusView, mode: ModeView, led: Option<u64>)
    ensures
        set_mode_effects(s, mode, led).take(3) == leds_off(),
        set_mode_effects(s, mode, led).subrange(3, 3 + teardown_effects(s.mode).len() as int)
            == teardown_effects(s.mode),
{
    assert(set_mode_effects(s, mode, led).take(3) =~= leds_off());
    assert(set_mode_effects(s, mode, led).subrange(3, 3 + teardown_effects(s.mode).len() as int)
        =~= teardown_effects(s.mode));
}

/// The buttons of the current mode never change which LED is lit; an event
/// that names no button changes nothing and asks for nothing.
pub proof fn lemma_mode_buttons_keep_led(s: StatusView, event: u64)
    requires
        event != MODE_BUTTON_RED,
        event != MODE_BUTTON_BLUE,
        event != MODE_BUTTON_GREEN,
    ensures
        status_after_event(s, event).current_led == s.current_led,
        mode_button(event) is None ==> status_after_event(s, event) == s && event_effects(
            s,
            event,
        ).len() == 0,
{
}

/// The LED that is lit, if any, is one of the three mode button LEDs.
pub open spec fn lit_led_is_mode_led(s: StatusView) -> bool {
    match s.current_led {
        None => true,
        Some(l) => l == MODE_BUTTON_RED_LED || l == MODE_BUTTON_BLUE_LED || l
            == MODE_BUTTON_GREEN_LED,
    }
}

/// Events and the switch to the music mode keep the lit LED among the mode
/// button LEDs.
pub proof fn lemma_lit_led_is_mode_led(s: StatusView, event: u64, playlists: Seq<Seq<char>>)
    requires
        lit_led_is_mode_led(s),
    ensures
        lit_led_is_mode_led(status_after_event(s, event)),
        lit_led_is_mode_led(
            status_after_set_mode(s, fresh_music_mode(playlists), Some(MODE_BUTTON_GREEN_LED)),
        ),
{
}

/// The status and the work of a whole switch, step by step, every step
/// having succeeded.
pub open spec fn run_switch(s: StatusView, mode: ModeView, led: Option<u64>) -> (StatusView, Seq<EffectView>) {
    let first = begin_switch(s, mode, led);
    let sw = SwitchView { mode, led, stage: SwitchStage::LightLed };
    let s1 = status_after_switch_step(s, sw);
    let second = switch_step(s, sw);
    match second.next {
        Some(sw2) => (
            status_after_switch_step(s1, sw2),
            first.effects + second.effects + switch_step(s1, sw2).effects,
        ),
        None => (s1, first.effects + second.effects),
    }
}

/// A switch whose steps all succeed ends in the status of a whole switch
/// and does its work in order; it takes at most three steps.
pub proof fn lemma_switch_steps_compose(s: StatusView, mode: ModeView, led: Option<u64>)
    ensures
        run_switch(s, mode, led).0 == status_after_set_mode(s, mode, led),
        run_switch(s, mode, led).1 == set_mode_effects(s, mode, led),
        switch_step(s, SwitchView { mode, led, stage: SwitchStage::LightLed }).next matches Some(
            sw2,
        ) ==> switch_step(
            status_after_switch_step(s, SwitchView { mode, led, stage: SwitchStage::LightLed }),
            sw2,
        ).next is None,
{
    assert(run_switch(s, mode, led).1 =~= set_mode_effects(s, mode, led));
}

/// Where a switch stops when its work fails: if an LED-off write or the
/// teardown fails, nothing has changed; if lighting the new LED fails, the
/// LED is recorded but the old mode stays; the new mode is taken only after
/// its LED is lit.
pub proof fn lemma_failed_switch_status(s: StatusView, mode: ModeView, l: u64)
    requires
        s.current_led != Some(l),
    ensures
        begin_switch(s, mode, Some(l)).next == Some(
            SwitchView { mode, led: Some(l), stage: SwitchStage::LightLed },
        ),
        status_after_switch_step(s, SwitchView { mode, led: Some(l), stage: SwitchStage::LightLed })
            == (StatusView { mode: s.mode, current_led: Some(l) }),
        switch_step(s, SwitchView { mode, led: Some(l), stage: SwitchStage::LightLed }).effects
            == seq![EffectView::SetLed { pin: l, value: 1 }],
        switch_step(s, SwitchView { mode, led: Some(l), stage: SwitchStage::LightLed }).next == Some(
            SwitchView { mode, led: Some(l), stage: SwitchStage::SetUp },
        ),
{
}

/// The value an LED write sets, or the map as it was.
pub open spec fn apply_led(leds: Map<u64, u8>, e: EffectView) -> Map<u64, u8> {
    match e {
        EffectView::SetLed { pin, value } => leds.insert(pin, value),
        _ => leds,
    }
}

/// The last value written to each LED pin, after the effects.
pub open spec fn apply_leds(leds: Map<u64, u8>, effects: Seq<EffectView>) -> Map<u64, u8>
    decreases effects.len(),
{
    if effects.len() == 0 {
        leds
    } else {
        apply_leds(apply_led(leds, effects[0]), effects.drop_first())
    }
}

/// The mode button LEDs show the status: the one `led` names is lit, the
/// other two are off, and `led` names a mode button LED if any.
pub open spec fn leds_agree(leds: Map<u64, u8>, led: Option<u64>) -> bool {
    &&& lit_led_is_mode_led(StatusView { mode: ModeView::Idle, current_led: led })
    &&& leds.contains_key(MODE_BUTTON_GREEN_LED)
    &&& leds.contains_key(MODE_BUTTON_BLUE_LED)
    &&& leds.contains_key(MODE_BUTTON_RED_LED)
    &&& leds[MODE_BUTTON_GREEN_LED] == (if led == Some(MODE_BUTTON_GREEN_LED) { 1u8 } else { 0u8 })
    &&& leds[MODE_BUTTON_BLUE_LED] == (if led == Some(MODE_BUTTON_BLUE_LED) { 1u8 } else { 0u8 })
    &&& leds[MODE_BUTTON_RED_LED] == (if led == Some(MODE_BUTTON_RED_LED) { 1u8 } else { 0u8 })
}

/// No effect in the sequence writes an LED.
pub open spec fn no_led_writes(effects: Seq<EffectView>) -> bool {
    forall|i: int| 0 <= i < effects.len() ==> !(#[trigger] effects[i] is SetLed)
}

proof fn lemma_apply_leds_concat(leds: Map<u64, u8>, a: Seq<EffectView>, b: Seq<EffectView>)
    ensures
        apply_leds(leds, a + b) == apply_leds(apply_leds(leds, a), b),
    decreases a.len(),
{
    if a.len() == 0 {
        assert(a + b =~= b);
    } else {
        assert((a + b).drop_first() =~= a.drop_first() + b);
        assert((a + b)[0] == a[0]);
        lemma_apply_leds_concat(apply_led(leds, a[0]), a.drop_first(), b);
    }
}

proof fn lemma_no_led_writes_keep(leds: Map<u64, u8>, effects: Seq<EffectView>)
    requires
        no_led_writes(effects),
    ensures
        apply_leds(leds, effects) == leds,
    decreases effects.len(),
{
    if effects.len() > 0 {
        assert(!(effects[0] is SetLed));
        assert forall|i: int| 0 <= i < effects.drop_first().len() implies !(
        #[trigger] effects.drop_first()[i] is SetLed) by {
            assert(effects.drop_first()[i] == effects[i + 1]);
        }
        lemma_no_led_writes_keep(leds, effects.drop_first());
    }
}

proof fn lemma_mode_work_writes_no_led(v: ModeView, b: Button)
    ensures
        no_led_writes(setup_effects(v)),
        no_led_writes(teardown_effects(v)),
        no_led_writes(button_effects(v, b)),
{
    match v {
        ModeView::Music(m) => {
            let n = crate::modes::music::next_playlist(m);
            let p = crate::modes::music::previous_playlist(m);
            assert forall|i: int| 0 <= i < setup_effects(v).len() implies !(
            #[trigger] setup_effects(v)[i] is SetLed) by {
                if i > 0 {
                    assert(setup_effects(v)[i] == crate::modes::music::flash_effects(
                        crate::modes::music::colors_in(
                            vstd::utf8::encode_utf8(m.playlists[m.current]),
                        ),
                    )[i - 1]);
                }
            }
            assert forall|i: int| 0 <= i < button_effects(v, b).len() implies !(
            #[trigger] button_effects(v, b)[i] is SetLed) by {
                if i > 0 && (b == Button::Red || b == Button::Green) {
                    let q = if b == Button::Red { n } else { p };
                    assert(button_effects(v, b)[i] == crate::modes::music::flash_effects(
                        crate::modes::music::colors_in(
                            vstd::utf8::encode_utf8(q.playlists[q.current]),
                        ),
                    )[i - 1]);
                }
            }
        },
        _ => {},
    }
}

proof fn lemma_switch_keeps_leds_agreeing(leds: Map<u64, u8>, s: StatusView, mode: ModeView, led: Option<u64>)
    requires
        leds_agree(leds, s.current_led),
        lit_led_is_mode_led(StatusView { mode: ModeView::Idle, current_led: led }),
    ensures
        leds_agree(
            apply_leds(leds, set_mode_effects(s, mode, led)),
            status_after_set_mode(s, mode, led).current_led,
        ),
{
    lemma_mode_work_writes_no_led(s.mode, Button::Red);
    lemma_mode_work_writes_no_led(mode, Button::Red);
    lemma_mode_work_writes_no_led(ModeView::Idle, Button::Red);
    let off = apply_leds(leds, leds_off());
    reveal_with_fuel(apply_leds, 4);
    assert(off == leds.insert(MODE_BUTTON_GREEN_LED, 0u8).insert(MODE_BUTTON_BLUE_LED, 0u8).insert(
        MODE_BUTTON_RED_LED,
        0u8,
    )) by {
        assert(leds_off().drop_first().drop_first().drop_first() =~= Seq::<EffectView>::empty());
    }
    let rest = if s.current_led != led {
        match led {
            Some(l) => seq![EffectView::SetLed { pin: l, value: 1 }] + setup_effects(mode),
            None => Seq::empty(),
        }
    } else {
        setup_effects(ModeView::Idle)
    };
    lemma_apply_leds_concat(leds, leds_off(), teardown_effects(s.mode));
    lemma_apply_leds_concat(leds, leds_off() + teardown_effects(s.mode), rest);
    lemma_no_led_writes_keep(off, teardown_effects(s.mode));
    if s.current_led != led {
        match led {
            Some(l) => {
                let lit = seq![EffectView::SetLed { pin: l, value: 1 }];
                lemma_apply_leds_concat(off, lit, setup_effects(mode));
                assert(apply_leds(off, lit) == off.insert(l, 1u8)) by {
                    assert(lit.drop_first() =~= Seq::<EffectView>::empty());
                }
                lemma_no_led_writes_keep(off.insert(l, 1u8), setup_effects(mode));
            },
            None => {},
        }
    }
}

/// The mode button LEDs always show the status: if, before an event, the
/// LED that the status names is lit and the other mode LEDs are off, the
/// same holds after all the event's work has succeeded (and after the green
/// mode button's switch to the music mode), at most one mode LED being lit.
pub proof fn lemma_leds_follow_status(
    leds: Map<u64, u8>,
    s: StatusView,
    event: u64,
    playlists: Seq<Seq<char>>,
)
    requires
        leds_agree(leds, s.current_led),
    ensures
        leds_agree(apply_leds(leds, event_effects(s, event)), status_after_event(s, event).current_led),
        leds_agree(
            apply_leds(
                leds,
                set_mode_effects(s, fresh_music_mode(playlists), Some(MODE_BUTTON_GREEN_LED)),
            ),
            status_after_set_mode(
                s,
                fresh_music_mode(playlists),
                Some(MODE_BUTTON_GREEN_LED),
            ).current_led,
        ),
{
    lemma_switch_keeps_leds_agreeing(
        leds,
        s,
        fresh_music_mode(playlists),
        Some(MODE_BUTTON_GREEN_LED),
    );
    if event == MODE_BUTTON_GREEN {
        reveal_with_fuel(apply_leds, 2);
        assert(seq![EffectView::OpenMusic].drop_first() =~= Seq::<EffectView>::empty());
    } else if event == MODE_BUTTON_RED {
        lemma_switch_keeps_leds_agreeing(leds, s, ModeView::Idle, Some(MODE_BUTTON_RED_LED));
    } else if event == MODE_BUTTON_BLUE {
        lemma_switch_keeps_leds_agreeing(leds, s, fresh_color_mode(), Some(MODE_BUTTON_BLUE_LED));
    } else {
        match mode_button(event) {
            Some(b) => {
                lemma_mode_work_writes_no_led(s.mode, b);
                lemma_no_led_writes_keep(leds, button_effects(s.mode, b));
            },
            None => {},
        }
    }
}

/// Each button of the current mode reaches its own handler: the red, right
/// blue, left blue and green buttons are passed to the mode as those
/// buttons, so that, in the colour mode, the left blue button undoes the
/// right blue button and the green button undoes the red one below full
/// brightness, event by event.
pub proof fn lemma_buttons_reach_their_handlers(s: StatusView)
    requires
        status_ok(s),
    ensures
        mode_button(RED_BUTTON) == Some(Button::Red),
        mode_button(RIGHT_BLUE_BUTTON) == Some(Button::RightBlue),
        mode_button(LEFT_BLUE_BUTTON) == Some(Button::LeftBlue),
        mode_button(GREEN_BUTTON) == Some(Button::Green),
        status_after_event(status_after_event(s, RIGHT_BLUE_BUTTON), LEFT_BLUE_BUTTON) == s,
        status_after_event(status_after_event(s, LEFT_BLUE_BUTTON), RIGHT_BLUE_BUTTON) == s,
        (s.mode matches ModeView::Color(c) ==> c.intensity < 7) ==> status_after_event(
            status_after_event(s, RED_BUTTON),
            GREEN_BUTTON,
        ) == s,
        forall|e: u64| #[trigger] mode_button(e) is Some ==> e == RED_BUTTON || e == RIGHT_BLUE_BUTTON
            || e == LEFT_BLUE_BUTTON || e == GREEN_BUTTON,
{
    crate::modes::lemma_buttons_undo_each_other(s.mode);
}

} // verus!
