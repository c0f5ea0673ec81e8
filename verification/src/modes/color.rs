use vstd::prelude::*;

use crate::lightstrip::{ColorSet, Message, MessageView, Pixel};
use crate::modes::{effects_view, Effect, EffectView, ModeTrait};

verus! {

/// Number of colours the mode steps through.
pub const N_COLORS: usize = 6;

/// Number of brightness steps.
pub const N_INTENSITIES: usize = 8;

/// The colours, in the order the blue buttons step through them: red,
/// yellow, green, cyan, blue, magenta.
pub open spec fn palette(i: int) -> Pixel {
    if i == 0 {
        Pixel { r: 255, g: 0, b: 0 }
    } else if i == 1 {
        Pixel { r: 255, g: 255, b: 0 }
    } else if i == 2 {
        Pixel { r: 0, g: 255, b: 0 }
    } else if i == 3 {
        Pixel { r: 0, g: 255, b: 255 }
    } else if i == 4 {
        Pixel { r: 0, g: 0, b: 255 }
    } else {
        Pixel { r: 255, g: 0, b: 255 }
    }
}

/// Gamma brightness table (gamma 2.0, 8 steps over 0-255).
pub open spec fn gamma(i: int) -> u8 {
    if i == 0 {
        0
    } else if i == 1 {
        5
    } else if i == 2 {
        21
    } else if i == 3 {
        47
    } else if i == 4 {
        83
    } else if i == 5 {
        130
    } else if i == 6 {
        187
    } else {
        255
    }
}

/// A component scaled by the gamma multiplier of a brightness step.
pub open spec fn intensified(val: u8, intensity: int) -> u8 {
    ((val as int * gamma(intensity) as int) / 255) as u8
}

/// Colour `color` of the palette at brightness step `intensity`.
pub open spec fn shade(color: int, intensity: int) -> Pixel {
    Pixel {
        r: intensified(palette(color).r, intensity),
        g: intensified(palette(color).g, intensity),
        b: intensified(palette(color).b, intensity),
    }
}

/// The palette entry, when there is one.
pub fn palette_color(i: usize) -> (c: Option<Pixel>)
    ensures
        c == (if i < N_COLORS { Some(palette(i as int)) } else { None::<Pixel> }),
{
    match i {
        0 => Some(Pixel { r: 255, g: 0, b: 0 }),
        1 => Some(Pixel { r: 255, g: 255, b: 0 }),
        2 => Some(Pixel { r: 0, g: 255, b: 0 }),
        3 => Some(Pixel { r: 0, g: 255, b: 255 }),
        4 => Some(Pixel { r: 0, g: 0, b: 255 }),
        5 => Some(Pixel { r: 255, g: 0, b: 255 }),
        _ => None,
    }
}

/// The gamma multiplier of a brightness step, when there is one.
pub fn gamma_multiplier(i: usize) -> (m: Option<u8>)
    ensures
        m == (if i < N_INTENSITIES { Some(gamma(i as int)) } else { None::<u8> }),
{
    match i {
        0 => Some(0),
        1 => Some(5),
        2 => Some(21),
        3 => Some(47),
        4 => Some(83),
        5 => Some(130),
        6 => Some(187),
        7 => Some(255),
        _ => None,
    }
}

/// What can go wrong when a colour is looked up.
#[derive(Clone, Copy, Debug, PartialEq, Eq, Structural)]
pub enum ModeError {
    /// No palette entry at this index.
    NoColor(usize),
    /// No gamma multiplier at this brightness step.
    NoGammaMultiplier(usize),
}

/// The mode that shows one colour of the palette on the whole strip.
#[derive(Debug)]
pub struct ColorMode {
    current_color: usize,
    intensity: usize,
}

pub struct ColorModeView {
    pub color: int,
    pub intensity: int,
}

impl View for ColorMode {
    type V = ColorModeView;

    closed spec fn view(&self) -> ColorModeView {
        ColorModeView { color: self.current_color as int, intensity: self.intensity as int }
    }
}

/// The colour index names a palette entry and the brightness step a gamma
/// multiplier; every colour mode is in such a state.
pub open spec fn in_range(v: ColorModeView) -> bool {
    0 <= v.color < N_COLORS && 0 <= v.intensity < N_INTENSITIES
}

/// The state after the right blue button: the next colour, wrapping round.
pub open spec fn next_color(v: ColorModeView) -> ColorModeView {
    ColorModeView { color: (v.color + 1) % (N_COLORS as int), intensity: v.intensity }
}

/// The state after the left blue button: the previous colour, wrapping round.
pub open spec fn previous_color(v: ColorModeView) -> ColorModeView {
    ColorModeView {
        color: if v.color >= 1 { v.color - 1 } else { N_COLORS as int - 1 },
        intensity: v.intensity,
    }
}

/// The state after the red button: one step brighter, up to the last step.
pub open spec fn brighter(v: ColorModeView) -> ColorModeView {
    ColorModeView {
        color: v.color,
        intensity: if v.intensity <= 6 { v.intensity + 1 } else { v.intensity },
    }
}

/// The state after the green button: one step darker, down to the first step.
pub open spec fn darker(v: ColorModeView) -> ColorModeView {
    ColorModeView {
        color: v.color,
        intensity: if v.intensity == 0 { 0 } else { v.intensity - 1 },
    }
}

/// The colour that the mode in state `v` shows.
pub open spec fn current_shade(v: ColorModeView) -> Pixel {
    shade(v.color, v.intensity)
}

/// Show one colour on the whole strip, passing over a failure to send it.
pub open spec fn set_effects(c: Pixel) -> Seq<EffectView> {
    seq![EffectView::TryShow(MessageView::ColorSet(seq![c]))]
}

/// Paint the strip with one colour pixel by pixel, passing over a failure
/// to send it.
pub open spec fn unchase_effects(c: Pixel) -> Seq<EffectView> {
    seq![EffectView::TryShow(MessageView::Unchase(c))]
}

impl ColorMode {
    #[verifier::type_invariant]
    spec fn in_range(self) -> bool {
        self.current_color < N_COLORS && self.intensity < N_INTENSITIES
    }

    /// The first colour at full brightness.
    pub fn create() -> (mode: ColorMode)
        ensures
            mode@ == (ColorModeView { color: 0, intensity: N_INTENSITIES - 1 }),
            in_range(mode@),
    {
        let current_color: usize = 0;
        let intensity: usize = N_INTENSITIES - 1;
        ColorMode { current_color, intensity }
    }

    /// Index of the current colour in the palette.
    pub fn current_color(&self) -> (i: usize)
        ensures
            i == self@.color,
    {
        self.current_color
    }

    /// The current brightness step.
    pub fn intensity(&self) -> (i: usize)
        ensures
            i == self@.intensity,
    {
        self.intensity
    }

    fn set(&mut self, color: Pixel) -> (effects: Vec<Effect>)
        ensures
            final(self)@ == old(self)@,
            effects_view(effects@) == set_effects(color),
    {
        let mut colors: Vec<Pixel> = Vec::new();
        colors.push(color);
        let effects = vec![Effect::TryShow(Message::ColorSet(ColorSet::new(colors)))];
        assert(effects_view(effects@) =~= set_effects(color));
        effects
    }

    fn unchase(&mut self, color: Pixel) -> (effects: Vec<Effect>)
        ensures
            final(self)@ == old(self)@,
            effects_view(effects@) == unchase_effects(color),
    {
        let effects = vec![Effect::TryShow(Message::Unchase(color))];
        assert(effects_view(effects@) =~= unchase_effects(color));
        effects
    }

    /// Scales a component by the gamma multiplier of the current brightness
    /// step.
    pub fn intensify(&self, val: u8) -> (res: Result<u8, ModeError>)
        ensures
            res == (if self@.intensity < N_INTENSITIES {
                Ok::<u8, ModeError>(intensified(val, self@.intensity))
            } else {
                Err(ModeError::NoGammaMultiplier(self@.intensity as usize))
            }),
    {
        let multiplier = match gamma_multiplier(self.intensity) {
            Some(m) => m,
            None => {
                return Err(ModeError::NoGammaMultiplier(self.intensity));
            },
        };
        assert(val as int * multiplier as int <= 255 * 255) by (nonlinear_arith)
            requires
                val <= 255,
                multiplier <= 255,
        ;
        let result: u16 = (val as u16 * multiplier as u16) / 255;
        assert(result <= 255) by (nonlinear_arith)
            requires
                result == (val as int * multiplier as int) / 255,
                val as int * multiplier as int <= 255 * 255,
        ;
        Ok(result as u8)
    }

    /// The current colour at the current brightness.
    pub fn get_color(&self) -> (res: Result<Pixel, ModeError>)
        ensures
            res == (if self@.color >= N_COLORS {
                Err::<Pixel, ModeError>(ModeError::NoColor(self@.color as usize))
            } else if self@.intensity >= N_INTENSITIES {
                Err(ModeError::NoGammaMultiplier(self@.intensity as usize))
            } else {
                Ok(current_shade(self@))
            }),
    {
        let color = match palette_color(self.current_color) {
            Some(c) => c,
            None => {
                return Err(ModeError::NoColor(self.current_color));
            },
        };
        let r = self.intensify(color.r)?;
        let g = self.intensify(color.g)?;
        let b = self.intensify(color.b)?;
        Ok(Pixel { r, g, b })
    }

    /// Paints the current colour onto the strip pixel by pixel.
    pub fn update_lights_chase(&mut self) -> (effects: Vec<Effect>)
        ensures
            final(self)@ == old(self)@,
            in_range(final(self)@),
            effects_view(effects@) == unchase_effects(current_shade(old(self)@)),
    {
        proof {
            use_type_invariant(&*self);
        }
        match self.get_color() {
            Ok(color) => self.unchase(color),
            Err(_) => {
                proof {
                    assert(false);
                }
                Vec::new()
            },
        }
    }

    /// Shows the current colour on the whole strip.
    pub fn update_lights(&mut self) -> (effects: Vec<Effect>)
        ensures
            final(self)@ == old(self)@,
            in_range(final(self)@),
            effects_view(effects@) == set_effects(current_shade(old(self)@)),
    {
        proof {
            use_type_invariant(&*self);
        }
        match self.get_color() {
            Ok(color) => self.set(color),
            Err(_) => {
                proof {
                    assert(false);
                }
                Vec::new()
            },
        }
    }
}

impl ModeTrait for ColorMode {
    open spec fn ready(&self) -> bool {
        true
    }

    fn setup(&mut self) -> (effects: Vec<Effect>)
        ensures
            final(self)@ == old(self)@,
            in_range(final(self)@),
            effects_view(effects@) == set_effects(current_shade(old(self)@)),
    {
        self.update_lights()
    }

    fn teardown(&mut self) -> (effects: Vec<Effect>)
        ensures
            final(self)@ == old(self)@,
            in_range(final(self)@),
            effects_view(effects@) == unchase_effects(Pixel { r: 0, g: 0, b: 0 }),
    {
        proof {
            use_type_invariant(&*self);
        }
        self.unchase(Pixel::default())
    }

    fn right_blue_botton(&mut self) -> (effects: Vec<Effect>)
        ensures
            final(self)@ == next_color(old(self)@),
            in_range(final(self)@),
            effects_view(effects@) == unchase_effects(current_shade(final(self)@)),
    {
        proof {
            use_type_invariant(&*self);
        }
        self.current_color = (self.current_color + 1) % N_COLORS;
        self.update_lights_chase()
    }

    fn left_blue_button(&mut self) -> (effects: Vec<Effect>)
        ensures
            final(self)@ == previous_color(old(self)@),
            in_range(final(self)@),
            effects_view(effects@) == unchase_effects(current_shade(final(self)@)),
    {
        proof {
            use_type_invariant(&*self);
        }
        self.current_color = self.current_color.checked_sub(1).unwrap_or(N_COLORS - 1);
        self.update_lights_chase()
    }

    fn red_button(&mut self) -> (effects: Vec<Effect>)
        ensures
            final(self)@ == brighter(old(self)@),
            in_range(final(self)@),
            effects_view(effects@) == set_effects(current_shade(final(self)@)),
    {
        proof {
            use_type_invariant(&*self);
        }
        self.intensity = match self.intensity {
            0..=6 => self.intensity + 1,
            _ => self.intensity,
        };
        self.update_lights()
    }

    fn green_button(&mut self) -> (effects: Vec<Effect>)
        ensures
            final(self)@ == darker(old(self)@),
            in_range(final(self)@),
            effects_view(effects@) == set_effects(current_shade(final(self)@)),
    {
        proof {
            use_type_invariant(&*self);
        }
        self.intensity = match self.intensity {
            0 => self.intensity,
            _ => self.intensity - 1,
        };
        self.update_lights()
    }
}

/// The left blue button undoes the right blue button, and the right one
/// undoes the left one.
pub proof fn lemma_blue_buttons_undo_each_other(v: ColorModeView)
    requires
        in_range(v),
    ensures
        previous_color(next_color(v)) == v,
        next_color(previous_color(v)) == v,
{
}

/// Six presses of the right blue button come back to the same colour.
pub proof fn lemma_colors_cycle(v: ColorModeView)
    requires
        in_range(v),
    ensures
        next_color(next_color(next_color(next_color(next_color(next_color(v)))))) == v,
{
}

/// The green button undoes the red button below full brightness, and the
/// red button undoes the green button above the darkest step.
pub proof fn lemma_red_green_undo_each_other(v: ColorModeView)
    requires
        in_range(v),
    ensures
        v.intensity < N_INTENSITIES - 1 ==> darker(brighter(v)) == v,
        v.intensity > 0 ==> brighter(darker(v)) == v,
{
}

proof fn lemma_scale_monotone(val: u8, g1: u8, g2: u8)
    requires
        g1 <= g2,
    ensures
        (val as int * g1 as int) / 255 <= (val as int * g2 as int) / 255,
{
    assert(val as int * g1 as int <= val as int * g2 as int) by (nonlinear_arith)
        requires
            g1 <= g2,
            0 <= val,
    ;
    vstd::arithmetic::div_mod::lemma_div_is_ordered(
        val as int * g1 as int,
        val as int * g2 as int,
        255,
    );
}

/// The red button never makes any component of the colour darker, and the
/// green button never makes any brighter.
pub proof fn lemma_red_brightens_green_darkens(v: ColorModeView)
    requires
        in_range(v),
    ensures
        current_shade(v).r <= current_shade(brighter(v)).r,
        current_shade(v).g <= current_shade(brighter(v)).g,
        current_shade(v).b <= current_shade(brighter(v)).b,
        current_shade(darker(v)).r <= current_shade(v).r,
        current_shade(darker(v)).g <= current_shade(v).g,
        current_shade(darker(v)).b <= current_shade(v).b,
{
    let c = palette(v.color);
    let g = gamma(v.intensity);
    let gb = gamma(brighter(v).intensity);
    let gd = gamma(darker(v).intensity);
    lemma_scale_monotone(c.r, g, gb);
    lemma_scale_monotone(c.g, g, gb);
    lemma_scale_monotone(c.b, g, gb);
    lemma_scale_monotone(c.r, gd, g);
    lemma_scale_monotone(c.g, gd, g);
    lemma_scale_monotone(c.b, gd, g);
}

/// At full brightness the colour is the palette entry itself; at the
/// darkest step it is off.
pub proof fn lemma_brightness_ends(color: int)
    ensures
        shade(color, N_INTENSITIES - 1) == palette(color),
        shade(color, 0) == (Pixel { r: 0, g: 0, b: 0 }),
{
    let c = palette(color);
    assert((c.r as int * 255) / 255 == c.r as int);
    assert((c.g as int * 255) / 255 == c.g as int);
    assert((c.b as int * 255) / 255 == c.b as int);
}

/// The palette, stepped through with the right blue button from the first
/// colour: red, yellow, green, cyan, blue, magenta, each at full strength;
/// `palette_color` hands out exactly these six and nothing past them.
pub proof fn lemma_palette_is_the_six_colours()
    ensures
        forall|i: int|
            0 <= i < N_COLORS ==> #[trigger] palette(i) == seq![
                Pixel { r: 255, g: 0, b: 0 },
                Pixel { r: 255, g: 255, b: 0 },
                Pixel { r: 0, g: 255, b: 0 },
                Pixel { r: 0, g: 255, b: 255 },
                Pixel { r: 0, g: 0, b: 255 },
                Pixel { r: 255, g: 0, b: 255 },
            ][i],
        forall|i: int, j: int| 0 <= i < j < N_COLORS ==> #[trigger] palette(i) != #[trigger] palette(j),
{
    assert forall|i: int| 0 <= i < N_COLORS implies #[trigger] palette(i) == seq![
        Pixel { r: 255, g: 0, b: 0 },
        Pixel { r: 255, g: 255, b: 0 },
        Pixel { r: 0, g: 255, b: 0 },
        Pixel { r: 0, g: 255, b: 255 },
        Pixel { r: 0, g: 0, b: 255 },
        Pixel { r: 255, g: 0, b: 255 },
    ][i] by {
        if i == 0 {
        } else if i == 1 {
        } else if i == 2 {
        } else if i == 3 {
        } else if i == 4 {
        } else {
        }
    }
}

/// At full brightness, the right blue button from red shows yellow, then
/// green, cyan, blue, magenta, and red again.
pub proof fn lemma_right_blue_walks_the_palette(v: ColorModeView)
    requires
        in_range(v),
        v.intensity == N_INTENSITIES - 1,
    ensures
        v.color == 0 ==> current_shade(next_color(v)) == (Pixel { r: 255, g: 255, b: 0 }),
        v.color == 1 ==> current_shade(next_color(v)) == (Pixel { r: 0, g: 255, b: 0 }),
        v.color == 2 ==> current_shade(next_color(v)) == (Pixel { r: 0, g: 255, b: 255 }),
        v.color == 3 ==> current_shade(next_color(v)) == (Pixel { r: 0, g: 0, b: 255 }),
        v.color == 4 ==> current_shade(next_color(v)) == (Pixel { r: 255, g: 0, b: 255 }),
        v.color == 5 ==> current_shade(next_color(v)) == (Pixel { r: 255, g: 0, b: 0 }),
{
    lemma_brightness_ends(next_color(v).color);
}

/// The brightness steps scale by 0, 5, 21, 47, 83, 130, 187 and 255
/// (out of 255), each step brighter than the one before; `gamma_multiplier`
/// hands out exactly these eight.
pub proof fn lemma_gamma_table()
    ensures
        forall|i: int|
            0 <= i < N_INTENSITIES ==> #[trigger] gamma(i) == seq![
                0u8,
                5u8,
                21u8,
                47u8,
                83u8,
                130u8,
                187u8,
                255u8,
            ][i],
        forall|i: int, j: int| 0 <= i < j < N_INTENSITIES ==> #[trigger] gamma(i) < #[trigger] gamma(j),
        forall|v: u8, i: int| #[trigger] intensified(v, i) as int == (v as int * gamma(i) as int) / 255,
{
    assert forall|i: int| 0 <= i < N_INTENSITIES implies #[trigger] gamma(i) == seq![
        0u8,
        5u8,
        21u8,
        47u8,
        83u8,
        130u8,
        187u8,
        255u8,
    ][i] by {
        if i == 0 {
        } else if i == 1 {
        } else if i == 2 {
        } else if i == 3 {
        } else if i == 4 {
        } else if i == 5 {
        } else if i == 6 {
        } else {
        }
    }
    assert forall|v: u8, i: int| #[trigger] intensified(v, i) as int == (v as int * gamma(i) as int)
        / 255 by {
        assert(v as int * gamma(i) as int <= 255 * 255) by (nonlinear_arith)
            requires
                v <= 255,
                gamma(i) <= 255,
        ;
        assert((v as int * gamma(i) as int) / 255 <= 255) by (nonlinear_arith)
            requires
                v as int * gamma(i) as int <= 255 * 255,
        ;
        assert(0 <= (v as int * gamma(i) as int) / 255) by (nonlinear_arith)
            requires
                0 <= v as int * gamma(i) as int,
        ;
        assert(0 <= v as int * gamma(i) as int) by (nonlinear_arith)
            requires
                0 <= v,
                0 <= gamma(i),
        ;
    }
}

} // verus!
