use vstd::prelude::*;

verus! {

pub const LCDD4: u64 = 100;
pub const LCDD6: u64 = 102;
pub const LCDD10: u64 = 106;
pub const LCDD12: u64 = 108;
pub const LCDD14: u64 = 110;
pub const LCDD18: u64 = 114;
pub const LCDD20: u64 = 116;
pub const LCDD22: u64 = 118;
pub const LCDCLK: u64 = 120;
pub const LCDVSYNC: u64 = 123;

pub const XIOP2: u64 = 1013;
pub const XIOP4: u64 = 1015;
pub const XIOP6: u64 = 1017;
pub const XIOP8: u64 = 1019;

pub const MODE_BUTTON_RED: u64 = XIOP2;
pub const MODE_BUTTON_BLUE: u64 = XIOP6;
pub const MODE_BUTTON_GREEN: u64 = XIOP4;

pub const RED_BUTTON: u64 = LCDD4;
pub const RIGHT_BLUE_BUTTON: u64 = XIOP8;
pub const LEFT_BLUE_BUTTON: u64 = LCDD14;
pub const GREEN_BUTTON: u64 = LCDD10;

pub const MODE_BUTTON_GREEN_LED: u64 = LCDD20;
pub const MODE_BUTTON_RED_LED: u64 = LCDCLK;
pub const MODE_BUTTON_BLUE_LED: u64 = LCDVSYNC;

pub const RED_BUTTON_LED: u64 = LCDD6;
pub const RIGHT_BLUE_BUTTON_LED: u64 = LCDD12;
pub const LEFT_BLUE_BUTTON_LED: u64 = LCDD18;
pub const GREEN_BUTTON_LED: u64 = LCDD22;

/// The value a button's watcher starts from: no reading yet.
pub const NO_READING: u8 = 255;

/// The pins watched for presses, in the order their watchers start.
pub open spec fn button_pins() -> Seq<u64> {
    seq![
        MODE_BUTTON_RED,
        MODE_BUTTON_BLUE,
        MODE_BUTTON_GREEN,
        RED_BUTTON,
        RIGHT_BLUE_BUTTON,
        LEFT_BLUE_BUTTON,
        GREEN_BUTTON,
    ]
}

/// The LED pins set up as outputs, in order.
pub open spec fn led_pins() -> Seq<u64> {
    seq![
        MODE_BUTTON_RED_LED,
        MODE_BUTTON_GREEN_LED,
        MODE_BUTTON_BLUE_LED,
        RED_BUTTON_LED,
        LEFT_BLUE_BUTTON_LED,
        RIGHT_BLUE_BUTTON_LED,
        GREEN_BUTTON_LED,
    ]
}

pub fn input_pins() -> (pins: Vec<u64>)
    ensures
        pins@ == button_pins(),
{
    let pins = vec![
        MODE_BUTTON_RED,
        MODE_BUTTON_BLUE,
        MODE_BUTTON_GREEN,
        RED_BUTTON,
        RIGHT_BLUE_BUTTON,
        LEFT_BLUE_BUTTON,
        GREEN_BUTTON,
    ];
    assert(pins@ =~= button_pins());
    pins
}

pub fn output_pins() -> (pins: Vec<u64>)
    ensures
        pins@ == led_pins(),
{
    let pins = vec![
        MODE_BUTTON_RED_LED,
        MODE_BUTTON_GREEN_LED,
        MODE_BUTTON_BLUE_LED,
        RED_BUTTON_LED,
        LEFT_BLUE_BUTTON_LED,
        RIGHT_BLUE_BUTTON_LED,
        GREEN_BUTTON_LED,
    ];
    assert(pins@ =~= led_pins());
    pins
}

/// What a button's watcher does with a new reading: the reading it keeps,
/// and whether it reports a press.
pub struct Reading {
    pub keep: u8,
    pub pressed: bool,
}

/// A reading `val` after the kept reading `prev` is a press: the pin went
/// low.
pub open spec fn is_press(prev: u8, val: u8) -> bool {
    val != prev && val == 0
}

/// One reading of a button: a press is a change to 0 (the buttons pull the
/// pin low); any change becomes the kept reading.
pub fn on_reading(prev: u8, val: u8) -> (r: Reading)
    ensures
        r.keep == val,
        r.pressed == is_press(prev, val),
{
    let mut prev_val = prev;
    let mut pressed = false;
    if val != prev_val {
        if val == 0 {
            pressed = true;
        }
        prev_val = val;
    }
    Reading { keep: prev_val, pressed }
}

/// A button held down is reported once: while the readings stay 0 no
/// further press is reported, and the first reading after the watcher
/// starts reports a press exactly when the button is down.
pub proof fn lemma_held_button_reports_once(prev: u8)
    ensures
        !is_press(0, 0),
        is_press(NO_READING, 0),
        forall|v: u8| v != 0 ==> !is_press(prev, v),
{
}

} // verus!
