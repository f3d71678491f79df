//! Output-mode and engine-behaviour flag sets.
//!
//! Each named flag is a variant; combining flags (with `|`, `union`,
//! `difference`) yields the `Bits` variant carrying the raw bit set. Every
//! question about a value goes through its bit set (`bits`).
use vstd::prelude::*;

verus! {

pub const MODE_VIETNAMESE: u32 = 1;
pub const MODE_ENGLISH: u32 = 2;
pub const MODE_TONELESS: u32 = 4;
pub const MODE_MARKLESS: u32 = 8;
pub const MODE_LOWERCASE: u32 = 16;
pub const MODE_FULL_TEXT: u32 = 32;
pub const MODE_PUNCTUATION: u32 = 64;
pub const MODE_IN_REVERSE_ORDER: u32 = 128;

pub const FLAG_FREE_TONE_MARKING: u32 = 1;
pub const FLAG_STD_TONE_STYLE: u32 = 2;
pub const FLAG_AUTO_CORRECT: u32 = 4;

/// Whether every bit of `flag` is set in `bits`.
pub open spec fn has_bits(bits: u32, flag: u32) -> bool {
    bits & flag == flag
}

/// Output mode flags controlling how a composition is flattened to text.
#[allow(non_camel_case_types)]
#[derive(Debug, Clone, Copy, Eq)]
pub enum Mode {
    VIETNAMESE,
    ENGLISH,
    TONELESS,
    MARKLESS,
    LOWERCASE,
    FULL_TEXT,
    PUNCTUATION,
    IN_REVERSE_ORDER,
    /// An arbitrary combination of flags.
    Bits(u32),
}

/// Engine behaviour flags (tone marking and auto-correction).
#[allow(non_camel_case_types)]
#[derive(Debug, Clone, Copy, Eq)]
pub enum EngineFlags {
    FREE_TONE_MARKING,
    STD_TONE_STYLE,
    AUTO_CORRECT,
    /// The default flag set: free tone marking, standard tone style and
    /// auto-correction all enabled.
    STD,
    /// An arbitrary combination of flags.
    Bits(u32),
}

impl Mode {
    /// The bit set this mode stands for.
    pub open spec fn spec_bits(self) -> u32 {
        match self {
            Mode::VIETNAMESE => MODE_VIETNAMESE,
            Mode::ENGLISH => MODE_ENGLISH,
            Mode::TONELESS => MODE_TONELESS,
            Mode::MARKLESS => MODE_MARKLESS,
            Mode::LOWERCASE => MODE_LOWERCASE,
            Mode::FULL_TEXT => MODE_FULL_TEXT,
            Mode::PUNCTUATION => MODE_PUNCTUATION,
            Mode::IN_REVERSE_ORDER => MODE_IN_REVERSE_ORDER,
            Mode::Bits(b) => b,
        }
    }

    /// Whether the flag bits `flag` are all set.
    pub open spec fn has(self, flag: u32) -> bool {
        has_bits(self.spec_bits(), flag)
    }

    pub fn bits(&self) -> (r: u32)
        ensures
            r == self.spec_bits(),
    {
        match self {
            Mode::VIETNAMESE => MODE_VIETNAMESE,
            Mode::ENGLISH => MODE_ENGLISH,
            Mode::TONELESS => MODE_TONELESS,
            Mode::MARKLESS => MODE_MARKLESS,
            Mode::LOWERCASE => MODE_LOWERCASE,
            Mode::FULL_TEXT => MODE_FULL_TEXT,
            Mode::PUNCTUATION => MODE_PUNCTUATION,
            Mode::IN_REVERSE_ORDER => MODE_IN_REVERSE_ORDER,
            Mode::Bits(b) => *b,
        }
    }

    /// Whether every flag of `other` is set.
    pub fn contains(&self, other: Mode) -> (r: bool)
        ensures
            r == self.has(other.spec_bits()),
    {
        let o = other.bits();
        self.bits() & o == o
    }

    /// Whether the flag bits `flag` are all set.
    pub fn has_flag(&self, flag: u32) -> (r: bool)
        ensures
            r == self.has(flag),
    {
        self.bits() & flag == flag
    }

    pub fn from_bits(bits: u32) -> (r: Mode)
        ensures
            r.spec_bits() == bits,
    {
        Mode::Bits(bits)
    }

    pub fn empty() -> (r: Mode)
        ensures
            r.spec_bits() == 0,
    {
        Mode::Bits(0)
    }

    pub fn union(self, other: Mode) -> (r: Mode)
        ensures
            r == Mode::Bits(self.spec_bits() | other.spec_bits()),
    {
        Mode::Bits(self.bits() | other.bits())
    }

    pub fn difference(self, other: Mode) -> (r: Mode)
        ensures
            r.spec_bits() == self.spec_bits() & !other.spec_bits(),
    {
        Mode::Bits(self.bits() & !other.bits())
    }
}

impl vstd::std_specs::ops::BitOrSpecImpl for Mode {
    open spec fn obeys_bitor_spec() -> bool {
        true
    }

    open spec fn bitor_req(self, rhs: Mode) -> bool {
        true
    }

    open spec fn bitor_spec(self, rhs: Mode) -> Mode {
        Mode::Bits(self.spec_bits() | rhs.spec_bits())
    }
}

impl core::ops::BitOr for Mode {
    type Output = Mode;

    fn bitor(self, rhs: Mode) -> (r: Mode)
        ensures
            r == Mode::Bits(self.spec_bits() | rhs.spec_bits()),
    {
        self.union(rhs)
    }
}

impl EngineFlags {
    /// The bit set these flags stand for.
    pub open spec fn spec_bits(self) -> u32 {
        match self {
            EngineFlags::FREE_TONE_MARKING => FLAG_FREE_TONE_MARKING,
            EngineFlags::STD_TONE_STYLE => FLAG_STD_TONE_STYLE,
            EngineFlags::AUTO_CORRECT => FLAG_AUTO_CORRECT,
            EngineFlags::STD => 7,
            EngineFlags::Bits(b) => b,
        }
    }

    /// Whether the flag bits `flag` are all set.
    pub open spec fn has(self, flag: u32) -> bool {
        has_bits(self.spec_bits(), flag)
    }

    pub fn bits(&self) -> (r: u32)
        ensures
            r == self.spec_bits(),
    {
        match self {
            EngineFlags::FREE_TONE_MARKING => FLAG_FREE_TONE_MARKING,
            EngineFlags::STD_TONE_STYLE => FLAG_STD_TONE_STYLE,
            EngineFlags::AUTO_CORRECT => FLAG_AUTO_CORRECT,
            EngineFlags::STD => 7,
            EngineFlags::Bits(b) => *b,
        }
    }

    /// Whether every flag of `other` is set.
    pub fn contains(&self, other: EngineFlags) -> (r: bool)
        ensures
            r == self.has(other.spec_bits()),
    {
        let o = other.bits();
        self.bits() & o == o
    }

    /// Whether the flag bits `flag` are all set.
    pub fn has_flag(&self, flag: u32) -> (r: bool)
        ensures
            r == self.has(flag),
    {
        self.bits() & flag == flag
    }

    pub fn from_bits(bits: u32) -> (r: EngineFlags)
        ensures
            r.spec_bits() == bits,
    {
        EngineFlags::Bits(bits)
    }

    pub fn empty() -> (r: EngineFlags)
        ensures
            r.spec_bits() == 0,
    {
        EngineFlags::Bits(0)
    }

    pub fn union(self, other: EngineFlags) -> (r: EngineFlags)
        ensures
            r == EngineFlags::Bits(self.spec_bits() | other.spec_bits()),
    {
        EngineFlags::Bits(self.bits() | other.bits())
    }

    pub fn difference(self, other: EngineFlags) -> (r: EngineFlags)
        ensures
            r.spec_bits() == self.spec_bits() & !other.spec_bits(),
    {
        EngineFlags::Bits(self.bits() & !other.bits())
    }

    /// Sets or clears the flags of `other`.
    pub fn set(&mut self, other: EngineFlags, value: bool)
        ensures
            final(self).spec_bits() == if value {
                old(self).spec_bits() | other.spec_bits()
            } else {
                old(self).spec_bits() & !other.spec_bits()
            },
    {
        if value {
            *self = self.union(other);
        } else {
            *self = self.difference(other);
        }
    }
}

impl vstd::std_specs::ops::BitOrSpecImpl for EngineFlags {
    open spec fn obeys_bitor_spec() -> bool {
        true
    }

    open spec fn bitor_req(self, rhs: EngineFlags) -> bool {
        true
    }

    open spec fn bitor_spec(self, rhs: EngineFlags) -> EngineFlags {
        EngineFlags::Bits(self.spec_bits() | rhs.spec_bits())
    }
}

impl core::ops::BitOr for EngineFlags {
    type Output = EngineFlags;

    fn bitor(self, rhs: EngineFlags) -> (r: EngineFlags)
        ensures
            r == EngineFlags::Bits(self.spec_bits() | rhs.spec_bits()),
    {
        self.union(rhs)
    }
}

/// Two modes are equal when they stand for the same bit set.
impl PartialEq for Mode {
    fn eq(&self, other: &Mode) -> (r: bool) {
        self.bits() == other.bits()
    }
}

impl vstd::std_specs::cmp::PartialEqSpecImpl for Mode {
    open spec fn obeys_eq_spec() -> bool {
        true
    }

    open spec fn eq_spec(&self, other: &Mode) -> bool {
        self.spec_bits() == other.spec_bits()
    }
}

/// Two flag sets are equal when they stand for the same bit set.
impl PartialEq for EngineFlags {
    fn eq(&self, other: &EngineFlags) -> (r: bool) {
        self.bits() == other.bits()
    }
}

impl vstd::std_specs::cmp::PartialEqSpecImpl for EngineFlags {
    open spec fn obeys_eq_spec() -> bool {
        true
    }

    open spec fn eq_spec(&self, other: &EngineFlags) -> bool {
        self.spec_bits() == other.spec_bits()
    }
}

/// The standard engine flag set is exactly the union of its three flags.
pub proof fn law_std_is_union_of_flags()
    ensures
        EngineFlags::STD.spec_bits() == (EngineFlags::FREE_TONE_MARKING.spec_bits()
            | EngineFlags::STD_TONE_STYLE.spec_bits() | EngineFlags::AUTO_CORRECT.spec_bits()),
{
    assert(7u32 == (1u32 | 2u32 | 4u32)) by (bit_vector);
}

} // verus!
