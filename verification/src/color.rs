//! A few 8-bit color numbers picked for menu themes.

use vstd::prelude::*;

verus! {

pub const WHITE: u8 = 15;

pub const LIGHT_GRAY: u8 = 7;

pub const GRAY: u8 = 8;

pub const BLUE: u8 = 32;

pub const GREEN: u8 = 35;

pub const PURPLE: u8 = 99;

pub const RED: u8 = 160;

pub const ORANGE: u8 = 208;

pub const YELLOW: u8 = 220;

pub const BLACK: u8 = 233;

pub const DARK_GRAY: u8 = 236;

} // verus!
