//! IBus keysym values and modifier-mask bits, plus key-state helpers.
use vstd::prelude::*;

verus! {

// Modifier-mask bits.
pub const LOCK_MASK: u32 = 2;
pub const CONTROL_MASK: u32 = 4;
pub const MOD1_MASK: u32 = 8;
pub const MOD4_MASK: u32 = 64;
pub const FORWARD_MASK: u32 = 0x0200_0000;
pub const IGNORED_MASK: u32 = FORWARD_MASK;
pub const SUPER_MASK: u32 = 0x0400_0000;
pub const HYPER_MASK: u32 = 0x0800_0000;
pub const META_MASK: u32 = 0x1000_0000;
pub const RELEASE_MASK: u32 = 0x4000_0000;

// Keysyms the engine reacts to.
pub const BACKSPACE: u32 = 0xff08;
pub const TAB: u32 = 0xff09;

/// Modifiers that mean the key is a shortcut or command, not text input.
pub const SUPPRESSING: u32 = CONTROL_MASK | MOD1_MASK | MOD4_MASK | IGNORED_MASK | SUPER_MASK | HYPER_MASK | META_MASK;

/// Whether the modifier state allows the key to produce text: no control,
/// alt, logo, super, hyper or meta modifier, and not a forwarded key.
pub fn is_valid_state(state: u32) -> (r: bool)
    ensures
        r == (state & SUPPRESSING == 0),
{
    state & SUPPRESSING == 0
}

/// Whether this is a key-release event (which engines ignore).
pub fn is_release(state: u32) -> (r: bool)
    ensures
        r == (state & RELEASE_MASK != 0),
{
    state & RELEASE_MASK != 0
}

} // verus!
