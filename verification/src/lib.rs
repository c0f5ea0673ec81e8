//! Control logic for a button-driven LED strip and music box: colour
//! parsing, the light strip's frame sequences and their Open Pixel Control
//! encoding, the colour and music modes, and the mode switching that the
//! buttons drive.

pub mod lightstrip;
pub mod easyopc;
pub mod modes;
pub mod buttons;
pub mod control;
pub mod music;
