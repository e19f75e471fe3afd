//! Linux evdev button codes, as a pointer button carries them.
use vstd::prelude::*;

verus! {

pub const LEFT: u32 = 0x110;

pub const RIGHT: u32 = 0x111;

pub const MIDDLE: u32 = 0x112;

pub const BACK: u32 = 0x113;

pub const FORWARD: u32 = 0x114;

} // verus!
