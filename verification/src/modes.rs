use vstd::prelude::*;

use crate::lightstrip::{Message, MessageView, Pixel};
use crate::modes::color::{ColorMode, ColorModeView};
use crate::modes::idle::IdleMode;
use crate::modes::music::{MusicMode, MusicModeView};

pub mod color;
pub mod idle;
pub mod music;

verus! {

/// A command for the music player.
#[derive(Debug, PartialEq, Eq)]
pub enum MusicCommand {
    Stop,
    Next,
    Prev,
    /// Pause, clear the queue, load the named playlist and play it.
    PlayPlaylist(String),
}

pub enum MusicCommandView {
    Stop,
    Next,
    Prev,
    PlayPlaylist(Seq<char>),
}

impl View for MusicCommand {
    type V = MusicCommandView;

    open spec fn view(&self) -> MusicCommandView {
        match self {
            MusicCommand::Stop => MusicCommandView::Stop,
            MusicCommand::Next => MusicCommandView::Next,
            MusicCommand::Prev => MusicCommandView::Prev,
            MusicCommand::PlayPlaylist(name) => MusicCommandView::PlayPlaylist(name@),
        }
    }
}

/// Outside work that a decision asks for, carried out in order; the first
/// one that fails ends the sequence with its error, except a `TryShow`,
/// whose failure is passed over.
#[derive(Debug, PartialEq, Eq)]
pub enum Effect {
    /// Drive the LED on `pin` to `value`.
    SetLed { pin: u64, value: u8 },
    /// Send the message to the light strip.
    Show(Message),
    /// Send the message to the light strip; if it cannot be sent, go on.
    TryShow(Message),
    /// Send the command to the music player.
    Music(MusicCommand),
    /// Connect to the music player, set its volume to 100, and report the
    /// names of its playlists.
    OpenMusic,
}

pub enum EffectView {
    SetLed { pin: u64, value: u8 },
    Show(MessageView),
    TryShow(MessageView),
    Music(MusicCommandView),
    OpenMusic,
}

impl View for Effect {
    type V = EffectView;

    open spec fn view(&self) -> EffectView {
        match self {
            Effect::SetLed { pin, value } => EffectView::SetLed { pin: *pin, value: *value },
            Effect::Show(m) => EffectView::Show(m@),
            Effect::TryShow(m) => EffectView::TryShow(m@),
            Effect::Music(c) => EffectView::Music(c@),
            Effect::OpenMusic => EffectView::OpenMusic,
        }
    }
}

pub open spec fn effects_view(effects: Seq<Effect>) -> Seq<EffectView> {
    effects.map_values(|e: Effect| e@)
}

/// What the buttons do in one mode of the box. Each handler answers with
/// the outside work to carry out; by default it asks for none.
pub trait ModeTrait {
    /// The handlers may run: a mode that cannot run is never set up.
    spec fn ready(&self) -> bool;

    fn setup(&mut self) -> (effects: Vec<Effect>)
        requires
            old(self).ready(),
        ensures
            final(self).ready(),
        default_ensures
            effects@.len() == 0,
    {
        Vec::new()
    }

    fn teardown(&mut self) -> (effects: Vec<Effect>)
        ensures
            final(self).ready() == old(self).ready(),
        default_ensures
            effects@.len() == 0,
    {
        Vec::new()
    }

    fn red_button(&mut self) -> (effects: Vec<Effect>)
        requires
            old(self).ready(),
        ensures
            final(self).ready(),
        default_ensures
            effects@.len() == 0,
    {
        Vec::new()
    }

    fn left_blue_button(&mut self) -> (effects: Vec<Effect>)
        ensures
            final(self).ready() == old(self).ready(),
        default_ensures
            effects@.len() == 0,
    {
        Vec::new()
    }

    fn right_blue_botton(&mut self) -> (effects: Vec<Effect>)
        ensures
            final(self).ready() == old(self).ready(),
        default_ensures
            effects@.len() == 0,
    {
        Vec::new()
    }

    fn green_button(&mut self) -> (effects: Vec<Effect>)
        requires
            old(self).ready(),
        ensures
            final(self).ready(),
        default_ensures
            effects@.len() == 0,
    {
        Vec::new()
    }
}

/// The buttons that a mode handles.
#[derive(Clone, Copy, Debug, PartialEq, Eq, Structural)]
pub enum Button {
    Red,
    LeftBlue,
    RightBlue,
    Green,
}

/// The mode the box is in.
#[derive(Debug)]
pub enum Mode {
    Idle(IdleMode),
    Color(ColorMode),
    Music(MusicMode),
}

pub enum ModeView {
    Idle,
    Color(ColorModeView),
    Music(MusicModeView),
}

impl View for Mode {
    type V = ModeView;

    open spec fn view(&self) -> ModeView {
        match self {
            Mode::Idle(_) => ModeView::Idle,
            Mode::Color(m) => ModeView::Color(m@),
            Mode::Music(m) => ModeView::Music(m@),
        }
    }
}

/// The mode's state is one that its type can be in.
pub open spec fn mode_valid(v: ModeView) -> bool {
    match v {
        ModeView::Idle => true,
        ModeView::Color(c) => color::in_range(c),
        ModeView::Music(m) => music::in_range(m),
    }
}

/// Every handler of the mode may run: a music mode has a playlist.
pub open spec fn mode_ready(v: ModeView) -> bool {
    match v {
        ModeView::Music(m) => m.playlists.len() > 0,
        _ => true,
    }
}

/// What setting the mode up asks for.
pub open spec fn setup_effects(v: ModeView) -> Seq<EffectView> {
    match v {
        ModeView::Idle => Seq::empty(),
        ModeView::Color(c) => color::set_effects(color::current_shade(c)),
        ModeView::Music(m) => music::play_current_effects(m),
    }
}

/// What tearing the mode down asks for.
pub open spec fn teardown_effects(v: ModeView) -> Seq<EffectView> {
    match v {
        ModeView::Idle => Seq::empty(),
        ModeView::Color(_) => color::unchase_effects(Pixel { r: 0, g: 0, b: 0 }),
        ModeView::Music(_) => seq![EffectView::Music(MusicCommandView::Stop)],
    }
}

/// A colour mode's state after a button press.
pub open spec fn color_step(c: ColorModeView, b: Button) -> ColorModeView {
    match b {
        Button::Red => color::brighter(c),
        Button::Green => color::darker(c),
        Button::RightBlue => color::next_color(c),
        Button::LeftBlue => color::previous_color(c),
    }
}

/// A music mode's state after a button press: the blue buttons leave it.
pub open spec fn music_step(m: MusicModeView, b: Button) -> MusicModeView {
    match b {
        Button::Red => music::next_playlist(m),
        Button::Green => music::previous_playlist(m),
        _ => m,
    }
}

/// The mode's state after a button press.
pub open spec fn button_step(v: ModeView, b: Button) -> ModeView {
    match v {
        ModeView::Idle => ModeView::Idle,
        ModeView::Color(c) => ModeView::Color(color_step(c, b)),
        ModeView::Music(m) => ModeView::Music(music_step(m, b)),
    }
}

/// What a button press asks for: the colour mode shows its new colour (the
/// blue buttons paint it on pixel by pixel); the music mode plays its new
/// playlist, or skips within the current one.
pub open spec fn button_effects(v: ModeView, b: Button) -> Seq<EffectView> {
    match v {
        ModeView::Idle => Seq::empty(),
        ModeView::Color(c) => match b {
            Button::Red | Button::Green => color::set_effects(color::current_shade(color_step(c, b))),
            _ => color::unchase_effects(color::current_shade(color_step(c, b))),
        },
        ModeView::Music(m) => match b {
            Button::RightBlue => seq![EffectView::Music(MusicCommandView::Next)],
            Button::LeftBlue => seq![EffectView::Music(MusicCommandView::Prev)],
            _ => music::play_current_effects(music_step(m, b)),
        },
    }
}

impl Mode {
    /// Passes a button press to the mode's handler.
    pub fn press(&mut self, button: Button) -> (effects: Vec<Effect>)
        requires
            mode_ready(old(self)@),
        ensures
            final(self)@ == button_step(old(self)@, button),
            effects_view(effects@) == button_effects(old(self)@, button),
            mode_ready(final(self)@),
            mode_valid(final(self)@),
    {
        match button {
            Button::Red => self.red_button(),
            Button::LeftBlue => self.left_blue_button(),
            Button::RightBlue => self.right_blue_botton(),
            Button::Green => self.green_button(),
        }
    }
}

impl ModeTrait for Mode {
    open spec fn ready(&self) -> bool {
        mode_ready(self@)
    }

    fn setup(&mut self) -> (effects: Vec<Effect>)
        ensures
            final(self)@ == old(self)@,
            mode_valid(final(self)@),
            effects_view(effects@) == setup_effects(old(self)@),
    {
        match self {
            Mode::Idle(m) => {
                let e = m.setup();
                assert(effects_view(e@) =~= Seq::empty());
                e
            },
            Mode::Color(m) => m.setup(),
            Mode::Music(m) => m.setup(),
        }
    }

    fn teardown(&mut self) -> (effects: Vec<Effect>)
        ensures
            final(self)@ == old(self)@,
            mode_valid(final(self)@),
            effects_view(effects@) == teardown_effects(old(self)@),
    {
        match self {
            Mode::Idle(m) => {
                let e = m.teardown();
                assert(effects_view(e@) =~= Seq::empty());
                e
            },
            Mode::Color(m) => m.teardown(),
            Mode::Music(m) => m.teardown(),
        }
    }

    fn red_button(&mut self) -> (effects: Vec<Effect>)
        ensures
            final(self)@ == button_step(old(self)@, Button::Red),
            mode_valid(final(self)@),
            effects_view(effects@) == button_effects(old(self)@, Button::Red),
    {
        match self {
            Mode::Idle(m) => {
                let e = m.red_button();
                assert(effects_view(e@) =~= Seq::empty());
                e
            },
            Mode::Color(m) => m.red_button(),
            Mode::Music(m) => m.red_button(),
        }
    }

    fn left_blue_button(&mut self) -> (effects: Vec<Effect>)
        ensures
            final(self)@ == button_step(old(self)@, Button::LeftBlue),
            mode_valid(final(self)@),
            effects_view(effects@) == button_effects(old(self)@, Button::LeftBlue),
    {
        match self {
            Mode::Idle(m) => {
                let e = m.left_blue_button();
                assert(effects_view(e@) =~= Seq::empty());
                e
            },
            Mode::Color(m) => m.left_blue_button(),
            Mode::Music(m) => m.left_blue_button(),
        }
    }

    fn right_blue_botton(&mut self) -> (effects: Vec<Effect>)
        ensures
            final(self)@ == button_step(old(self)@, Button::RightBlue),
            mode_valid(final(self)@),
            effects_view(effects@) == button_effects(old(self)@, Button::RightBlue),
    {
        match self {
            Mode::Idle(m) => {
                let e = m.right_blue_botton();
                assert(effects_view(e@) =~= Seq::empty());
                e
            },
            Mode::Color(m) => m.right_blue_botton(),
            Mode::Music(m) => m.right_blue_botton(),
        }
    }

    fn green_button(&mut self) -> (effects: Vec<Effect>)
        ensures
            final(self)@ == button_step(old(self)@, Button::Green),
            mode_valid(final(self)@),
            effects_view(effects@) == button_effects(old(self)@, Button::Green),
    {
        match self {
            Mode::Idle(m) => {
                let e = m.green_button();
                assert(effects_view(e@) =~= Seq::empty());
                e
            },
            Mode::Color(m) => m.green_button(),
            Mode::Music(m) => m.green_button(),
        }
    }
}

/// Through the mode's dispatch, the green button undoes the red button and
/// the left blue button undoes the right blue button (and the other way
/// round), in every mode: the colour mode below full brightness for the red
/// button and above the darkest step for the green button, the music mode
/// stepping back and forth through its playlists.
pub proof fn lemma_buttons_undo_each_other(v: ModeView)
    requires
        mode_valid(v),
        mode_ready(v),
    ensures
        button_step(button_step(v, Button::RightBlue), Button::LeftBlue) == v,
        button_step(button_step(v, Button::LeftBlue), Button::RightBlue) == v,
        (v matches ModeView::Color(c) ==> c.intensity < 7) ==> button_step(
            button_step(v, Button::Red),
            Button::Green,
        ) == v,
        (v matches ModeView::Color(c) ==> c.intensity > 0) ==> button_step(
            button_step(v, Button::Green),
            Button::Red,
        ) == v,
{
    match v {
        ModeView::Color(c) => {
            color::lemma_blue_buttons_undo_each_other(c);
            color::lemma_red_green_undo_each_other(c);
        },
        ModeView::Music(m) => {
            music::lemma_red_green_undo_each_other(m);
        },
        ModeView::Idle => {},
    }
}

/// In the music mode the blue buttons skip within the playlist and leave
/// the mode as it is, the red button moves to the next playlist and the
/// green button to the previous one, wrapping round.
pub proof fn lemma_music_buttons(m: MusicModeView)
    requires
        music::in_range(m),
        m.playlists.len() > 0,
    ensures
        button_effects(ModeView::Music(m), Button::RightBlue) == seq![
            EffectView::Music(MusicCommandView::Next),
        ],
        button_effects(ModeView::Music(m), Button::LeftBlue) == seq![
            EffectView::Music(MusicCommandView::Prev),
        ],
        button_step(ModeView::Music(m), Button::RightBlue) == ModeView::Music(m),
        button_step(ModeView::Music(m), Button::LeftBlue) == ModeView::Music(m),
        button_step(ModeView::Music(m), Button::Red) matches ModeView::Music(n) && n.playlists
            == m.playlists && n.current == (if m.current + 1 == m.playlists.len() {
            0
        } else {
            m.current + 1
        }),
        button_step(ModeView::Music(m), Button::Green) matches ModeView::Music(p) && p.playlists
            == m.playlists && p.current == (if m.current == 0 {
            m.playlists.len() - 1
        } else {
            m.current - 1
        }),
{
    let n = m.playlists.len() as int;
    if m.current + 1 < n {
        vstd::arithmetic::div_mod::lemma_small_mod((m.current + 1) as nat, n as nat);
    } else {
        vstd::arithmetic::div_mod::lemma_mod_self_0(n);
    }
}

} // verus!
