//! Engine configuration: the input-mode selector, the feature bits, and the
//! runtime settings an engine instance is built from.
use vstd::prelude::*;
use crate::mode::{has_bits, EngineFlags, FLAG_FREE_TONE_MARKING, FLAG_STD_TONE_STYLE};

verus! {

/// How committed text reaches the client. Stored values stay stable so
/// existing settings keep working; the retired mode 6 is remapped to
/// `BackspaceForwarding` when settings are read.
#[derive(Debug, Clone, Copy, PartialEq, Eq, Structural)]
pub enum InputMode {
    Preedit,
    SurroundingText,
    BackspaceForwarding,
    ShiftLeftForwarding,
    ForwardAsCommit,
    Us,
}

/// The mode a stored integer selects: 2 to 5 and 7 name their modes, the
/// retired 6 is read as `BackspaceForwarding`, anything else as `Preedit`.
pub open spec fn mode_of_stored(value: i32) -> InputMode {
    if value == 2 {
        InputMode::SurroundingText
    } else if value == 3 || value == 6 {
        InputMode::BackspaceForwarding
    } else if value == 4 {
        InputMode::ShiftLeftForwarding
    } else if value == 5 {
        InputMode::ForwardAsCommit
    } else if value == 7 {
        InputMode::Us
    } else {
        InputMode::Preedit
    }
}

/// The integer a mode is stored as.
pub open spec fn stored_of_mode(mode: InputMode) -> i32 {
    match mode {
        InputMode::Preedit => 1,
        InputMode::SurroundingText => 2,
        InputMode::BackspaceForwarding => 3,
        InputMode::ShiftLeftForwarding => 4,
        InputMode::ForwardAsCommit => 5,
        InputMode::Us => 7,
    }
}

impl InputMode {
    /// Map a stored integer to a mode, remapping the retired mode 6.
    pub fn from_stored(value: i32) -> (r: InputMode)
        ensures
            r == mode_of_stored(value),
    {
        match value {
            2 => InputMode::SurroundingText,
            3 => InputMode::BackspaceForwarding,
            4 => InputMode::ShiftLeftForwarding,
            5 => InputMode::ForwardAsCommit,
            6 => InputMode::BackspaceForwarding,
            7 => InputMode::Us,
            _ => InputMode::Preedit,
        }
    }

    /// The integer this mode is stored as.
    pub fn stored(self) -> (r: i32)
        ensures
            r == stored_of_mode(self),
    {
        match self {
            InputMode::Preedit => 1,
            InputMode::SurroundingText => 2,
            InputMode::BackspaceForwarding => 3,
            InputMode::ShiftLeftForwarding => 4,
            InputMode::ForwardAsCommit => 5,
            InputMode::Us => 7,
        }
    }
}

pub const IB_AUTO_COMMIT_VN_NOT_MATCH: u32 = 1;
pub const IB_MACRO_ENABLED: u32 = 2;
pub const IB_SPELL_CHECK_ENABLED: u32 = 16;
pub const IB_AUTO_NON_VN_RESTORE: u32 = 32;
pub const IB_DD_FREE_STYLE: u32 = 64;
pub const IB_NO_UNDERLINE: u32 = 128;
pub const IB_SPELL_CHECK_WITH_RULES: u32 = 256;
pub const IB_SPELL_CHECK_WITH_DICTS: u32 = 512;
pub const IB_AUTO_COMMIT_WITH_DELAY: u32 = 1024;
pub const IB_PREEDIT_ELIMINATION: u32 = 8192;
pub const IB_AUTO_CAPITALIZE_MACRO: u32 = 32768;
pub const IB_WORKAROUND_FB_MESSENGER: u32 = 524288;
pub const IB_WORKAROUND_WPS: u32 = 1048576;

/// The bits of the default feature set.
pub const IB_STD: u32 = 1081840;

/// Feature flags. Bit positions match stored settings, so existing settings
/// decode unchanged (retired bits are left as gaps).
#[allow(non_camel_case_types)]
#[derive(Debug, Clone, Copy, Eq)]
pub enum IBFlags {
    AUTO_COMMIT_VN_NOT_MATCH,
    MACRO_ENABLED,
    SPELL_CHECK_ENABLED,
    AUTO_NON_VN_RESTORE,
    DD_FREE_STYLE,
    NO_UNDERLINE,
    SPELL_CHECK_WITH_RULES,
    SPELL_CHECK_WITH_DICTS,
    AUTO_COMMIT_WITH_DELAY,
    PREEDIT_ELIMINATION,
    AUTO_CAPITALIZE_MACRO,
    WORKAROUND_FB_MESSENGER,
    WORKAROUND_WPS,
    /// The default feature set: spell checking by rules, restoring non-Vietnamese
    /// words, free-style `dd`, auto-capitalized macros, no underline and the WPS
    /// workaround.
    STD,
    /// An arbitrary combination of flags.
    Bits(u32),
}

impl IBFlags {
    /// The bit set these flags stand for.
    pub open spec fn spec_bits(self) -> u32 {
        match self {
            IBFlags::AUTO_COMMIT_VN_NOT_MATCH => IB_AUTO_COMMIT_VN_NOT_MATCH,
            IBFlags::MACRO_ENABLED => IB_MACRO_ENABLED,
            IBFlags::SPELL_CHECK_ENABLED => IB_SPELL_CHECK_ENABLED,
            IBFlags::AUTO_NON_VN_RESTORE => IB_AUTO_NON_VN_RESTORE,
            IBFlags::DD_FREE_STYLE => IB_DD_FREE_STYLE,
            IBFlags::NO_UNDERLINE => IB_NO_UNDERLINE,
            IBFlags::SPELL_CHECK_WITH_RULES => IB_SPELL_CHECK_WITH_RULES,
            IBFlags::SPELL_CHECK_WITH_DICTS => IB_SPELL_CHECK_WITH_DICTS,
            IBFlags::AUTO_COMMIT_WITH_DELAY => IB_AUTO_COMMIT_WITH_DELAY,
            IBFlags::PREEDIT_ELIMINATION => IB_PREEDIT_ELIMINATION,
            IBFlags::AUTO_CAPITALIZE_MACRO => IB_AUTO_CAPITALIZE_MACRO,
            IBFlags::WORKAROUND_FB_MESSENGER => IB_WORKAROUND_FB_MESSENGER,
            IBFlags::WORKAROUND_WPS => IB_WORKAROUND_WPS,
            IBFlags::STD => IB_STD,
            IBFlags::Bits(b) => b,
        }
    }

    /// Whether the flag bits `flag` are all set.
    pub open spec fn has(self, flag: u32) -> bool {
        has_bits(self.spec_bits(), flag)
    }

    pub fn bits(&self) -> (r: u32)
        ensures
            r == self.spec_bits(),
    {
        match self {
            IBFlags::AUTO_COMMIT_VN_NOT_MATCH => IB_AUTO_COMMIT_VN_NOT_MATCH,
            IBFlags::MACRO_ENABLED => IB_MACRO_ENABLED,
            IBFlags::SPELL_CHECK_ENABLED => IB_SPELL_CHECK_ENABLED,
            IBFlags::AUTO_NON_VN_RESTORE => IB_AUTO_NON_VN_RESTORE,
            IBFlags::DD_FREE_STYLE => IB_DD_FREE_STYLE,
            IBFlags::NO_UNDERLINE => IB_NO_UNDERLINE,
            IBFlags::SPELL_CHECK_WITH_RULES => IB_SPELL_CHECK_WITH_RULES,
            IBFlags::SPELL_CHECK_WITH_DICTS => IB_SPELL_CHECK_WITH_DICTS,
            IBFlags::AUTO_COMMIT_WITH_DELAY => IB_AUTO_COMMIT_WITH_DELAY,
            IBFlags::PREEDIT_ELIMINATION => IB_PREEDIT_ELIMINATION,
            IBFlags::AUTO_CAPITALIZE_MACRO => IB_AUTO_CAPITALIZE_MACRO,
            IBFlags::WORKAROUND_FB_MESSENGER => IB_WORKAROUND_FB_MESSENGER,
            IBFlags::WORKAROUND_WPS => IB_WORKAROUND_WPS,
            IBFlags::STD => IB_STD,
            IBFlags::Bits(b) => *b,
        }
    }

    /// Whether every flag of `other` is set.
    pub fn contains(&self, other: IBFlags) -> (r: bool)
        ensures
            r == self.has(other.spec_bits()),
    {
        let o = other.bits();
        self.bits() & o == o
    }

    /// Whether the flag bits `flag` are all set.
    pub fn has_flag(&self, flag: u32) -> (r: bool)
        ensures
            r == self.has(flag),
    {
        self.bits() & flag == flag
    }

    pub fn from_bits(bits: u32) -> (r: IBFlags)
        ensures
            r.spec_bits() == bits,
    {
        IBFlags::Bits(bits)
    }

    pub fn empty() -> (r: IBFlags)
        ensures
            r.spec_bits() == 0,
    {
        IBFlags::Bits(0)
    }

    pub fn union(self, other: IBFlags) -> (r: IBFlags)
        ensures
            r == IBFlags::Bits(self.spec_bits() | other.spec_bits()),
    {
        IBFlags::Bits(self.bits() | other.bits())
    }

    pub fn difference(self, other: IBFlags) -> (r: IBFlags)
        ensures
            r.spec_bits() == self.spec_bits() & !other.spec_bits(),
    {
        IBFlags::Bits(self.bits() & !other.bits())
    }

    /// Sets or clears the flags of `other`.
    pub fn set(&mut self, other: IBFlags, value: bool)
        ensures
            final(self).spec_bits() == if value {
                old(self).spec_bits() | other.spec_bits()
            } else {
                old(self).spec_bits() & !other.spec_bits()
            },
    {
        if value {
            *self = self.union(other);
        } else {
            *self = self.difference(other);
        }
    }
}

impl vstd::std_specs::ops::BitOrSpecImpl for IBFlags {
    open spec fn obeys_bitor_spec() -> bool {
        true
    }

    open spec fn bitor_req(self, rhs: IBFlags) -> bool {
        true
    }

    open spec fn bitor_spec(self, rhs: IBFlags) -> IBFlags {
        IBFlags::Bits(self.spec_bits() | rhs.spec_bits())
    }
}

impl core::ops::BitOr for IBFlags {
    type Output = IBFlags;

    fn bitor(self, rhs: IBFlags) -> (r: IBFlags)
        ensures
            r == IBFlags::Bits(self.spec_bits() | rhs.spec_bits()),
    {
        self.union(rhs)
    }
}

/// Two flag sets are equal when they stand for the same bit set.
impl PartialEq for IBFlags {
    fn eq(&self, other: &IBFlags) -> (r: bool) {
        self.bits() == other.bits()
    }
}

impl vstd::std_specs::cmp::PartialEqSpecImpl for IBFlags {
    open spec fn obeys_eq_spec() -> bool {
        true
    }

    open spec fn eq_spec(&self, other: &IBFlags) -> bool {
        self.spec_bits() == other.spec_bits()
    }
}

/// The default feature set is the union of its seven flags.
pub proof fn law_ib_std_is_union_of_flags()
    ensures
        IBFlags::STD.spec_bits() == (IB_SPELL_CHECK_ENABLED | IB_SPELL_CHECK_WITH_RULES | IB_AUTO_NON_VN_RESTORE
            | IB_DD_FREE_STYLE | IB_AUTO_CAPITALIZE_MACRO | IB_NO_UNDERLINE | IB_WORKAROUND_WPS),
{
    assert(1081840u32 == (16u32 | 256u32 | 32u32 | 64u32 | 32768u32 | 128u32 | 1048576u32)) by (bit_vector);
}

/// Runtime configuration for an engine instance.
#[derive(Debug)]
pub struct Config {
    /// Selected input method name (e.g. `"Telex"`), set from the engine name.
    pub input_method: String,
    /// Output charset name (e.g. `"Unicode"`).
    pub output_charset: String,
    /// Core composition flags (tone marking / auto-correct).
    pub engine_flags: EngineFlags,
    /// Engine feature flags.
    pub ib_flags: IBFlags,
    /// The single global input mode.
    pub input_mode: InputMode,
    /// Keyboard shortcut slots: five `(state, keyval)` pairs.
    pub shortcuts: [u32; 10],
    /// The user's `(shortcut, expansion)` macro pairs.
    pub macros: Vec<(String, String)>,
}

/// The value of a configuration.
pub struct ConfigV {
    pub input_method: Seq<char>,
    pub output_charset: Seq<char>,
    pub engine_flags: EngineFlags,
    pub ib_flags: IBFlags,
    pub input_mode: InputMode,
    pub shortcuts: Seq<u32>,
    pub macros: Seq<(Seq<char>, Seq<char>)>,
}

impl View for Config {
    type V = ConfigV;

    open spec fn view(&self) -> ConfigV {
        ConfigV {
            input_method: self.input_method@,
            output_charset: self.output_charset@,
            engine_flags: self.engine_flags,
            ib_flags: self.ib_flags,
            input_mode: self.input_mode,
            shortcuts: self.shortcuts@,
            macros: pair_views(self.macros@),
        }
    }
}

/// The values of `(String, String)` pairs.
pub open spec fn pair_views(v: Seq<(String, String)>) -> Seq<(Seq<char>, Seq<char>)> {
    v.map_values(|e: (String, String)| (e.0@, e.1@))
}

/// A copy of `(String, String)` pairs.
pub fn clone_pairs(v: &Vec<(String, String)>) -> (r: Vec<(String, String)>)
    ensures
        pair_views(r@) == pair_views(v@),
{
    let mut out: Vec<(String, String)> = Vec::new();
    let mut i: usize = 0;
    while i < v.len()
        invariant
            i <= v@.len(),
            pair_views(out@) == pair_views(v@).subrange(0, i as int),
        decreases v@.len() - i,
    {
        let (a, b) = &v[i];
        let e = (a.clone(), b.clone());
        proof {
            assert(pair_views(out@.push(e)) =~= pair_views(out@).push((e.0@, e.1@)));
            assert(pair_views(v@).subrange(0, i + 1) =~= pair_views(v@).subrange(0, i as int).push((a@, b@)));
        }
        out.push(e);
        i += 1;
    }
    assert(pair_views(v@).subrange(0, v@.len() as int) =~= pair_views(v@));
    out
}

impl Clone for Config {
    fn clone(&self) -> (r: Config)
        ensures
            r.input_method@ == self.input_method@,
            r.output_charset@ == self.output_charset@,
            r.engine_flags == self.engine_flags,
            r.ib_flags == self.ib_flags,
            r.input_mode == self.input_mode,
            r.shortcuts == self.shortcuts,
            pair_views(r.macros@) == pair_views(self.macros@),
    {
        Config {
            input_method: self.input_method.clone(),
            output_charset: self.output_charset.clone(),
            engine_flags: self.engine_flags,
            ib_flags: self.ib_flags,
            input_mode: self.input_mode,
            shortcuts: self.shortcuts,
            macros: clone_pairs(&self.macros),
        }
    }
}

impl Default for Config {
    fn default() -> (r: Config)
        ensures
            r.input_method@ == "Telex"@,
            r.output_charset@ == "Unicode"@,
            r.engine_flags == EngineFlags::STD,
            r.ib_flags == IBFlags::STD,
            r.input_mode == InputMode::Preedit,
            r.shortcuts@ == seq![1u32, 126, 0, 0, 0, 0, 0, 0, 5, 117],
            r.macros@.len() == 0,
    {
        Config {
            input_method: "Telex".to_owned(),
            output_charset: "Unicode".to_owned(),
            engine_flags: EngineFlags::STD,
            ib_flags: IBFlags::STD,
            input_mode: InputMode::Preedit,
            shortcuts: [1, 126, 0, 0, 0, 0, 0, 0, 5, 117],
            macros: Vec::new(),
        }
    }
}

/// The settings as stored: the output charset, the stored input mode, one
/// switch per feature and the `shortcut:expansion` macro entries.
pub struct StoredSettings {
    pub output_charset: String,
    pub input_mode: i32,
    pub free_tone_marking: bool,
    pub modern_tone_style: bool,
    pub spell_check: bool,
    pub spell_check_rules: bool,
    pub spell_check_dicts: bool,
    pub auto_restore_non_vn: bool,
    pub dd_free_style: bool,
    pub hide_underline: bool,
    pub macros_enabled: bool,
    pub auto_capitalize_macros: bool,
    pub workaround_fb_messenger: bool,
    pub macros: Vec<String>,
}

/// `flag` when `on`, else no bit.
pub open spec fn bit_if(on: bool, flag: u32) -> u32 {
    if on {
        flag
    } else {
        0
    }
}

/// The engine flags of stored settings: free tone marking as stored, and the
/// standard (old, first-vowel) tone style unless the modern placement is on.
pub open spec fn stored_engine_bits(s: StoredSettings) -> u32 {
    bit_if(s.free_tone_marking, FLAG_FREE_TONE_MARKING) | bit_if(!s.modern_tone_style, FLAG_STD_TONE_STYLE)
}

/// The feature flags of stored settings: one flag per switch that is on.
pub open spec fn stored_ib_bits(s: StoredSettings) -> u32 {
    bit_if(s.spell_check, IB_SPELL_CHECK_ENABLED) | bit_if(s.spell_check_rules, IB_SPELL_CHECK_WITH_RULES)
        | bit_if(s.spell_check_dicts, IB_SPELL_CHECK_WITH_DICTS) | bit_if(s.auto_restore_non_vn, IB_AUTO_NON_VN_RESTORE)
        | bit_if(s.dd_free_style, IB_DD_FREE_STYLE) | bit_if(s.hide_underline, IB_NO_UNDERLINE) | bit_if(
        s.macros_enabled,
        IB_MACRO_ENABLED,
    ) | bit_if(s.auto_capitalize_macros, IB_AUTO_CAPITALIZE_MACRO) | bit_if(
        s.workaround_fb_messenger,
        IB_WORKAROUND_FB_MESSENGER,
    )
}

fn or_if(bits: u32, on: bool, flag: u32) -> (r: u32)
    ensures
        r == bits | bit_if(on, flag),
{
    if on {
        bits | flag
    } else {
        assert(bits | 0u32 == bits) by (bit_vector);
        bits
    }
}

impl Config {
    /// The configuration stored settings give: the input method and the
    /// shortcut slots keep their defaults, the flags follow the switches, the
    /// input mode is read from its stored value and the macros are the
    /// well-formed entries.
    pub fn from_settings(s: StoredSettings) -> (r: Config)
        ensures
            r.input_method@ == "Telex"@,
            r.output_charset@ == s.output_charset@,
            r.engine_flags.spec_bits() == stored_engine_bits(s),
            r.ib_flags.spec_bits() == stored_ib_bits(s),
            r.input_mode == mode_of_stored(s.input_mode),
            r.shortcuts@ == seq![1u32, 126, 0, 0, 0, 0, 0, 0, 5, 117],
            pair_views(r.macros@) == crate::macros::entry_pairs(s.macros@.map_values(|e: String| e@)),
    {
        let defaults = Config::default();
        let e = or_if(0, s.free_tone_marking, FLAG_FREE_TONE_MARKING);
        let e = or_if(e, !s.modern_tone_style, FLAG_STD_TONE_STYLE);
        assert(0u32 | bit_if(s.free_tone_marking, FLAG_FREE_TONE_MARKING) == bit_if(s.free_tone_marking, FLAG_FREE_TONE_MARKING)) by {
            let x = bit_if(s.free_tone_marking, FLAG_FREE_TONE_MARKING);
            assert(0u32 | x == x) by (bit_vector);
        }
        let b = or_if(0, s.spell_check, IB_SPELL_CHECK_ENABLED);
        let b = or_if(b, s.spell_check_rules, IB_SPELL_CHECK_WITH_RULES);
        let b = or_if(b, s.spell_check_dicts, IB_SPELL_CHECK_WITH_DICTS);
        let b = or_if(b, s.auto_restore_non_vn, IB_AUTO_NON_VN_RESTORE);
        let b = or_if(b, s.dd_free_style, IB_DD_FREE_STYLE);
        let b = or_if(b, s.hide_underline, IB_NO_UNDERLINE);
        let b = or_if(b, s.macros_enabled, IB_MACRO_ENABLED);
        let b = or_if(b, s.auto_capitalize_macros, IB_AUTO_CAPITALIZE_MACRO);
        let b = or_if(b, s.workaround_fb_messenger, IB_WORKAROUND_FB_MESSENGER);
        assert(0u32 | bit_if(s.spell_check, IB_SPELL_CHECK_ENABLED) == bit_if(s.spell_check, IB_SPELL_CHECK_ENABLED)) by {
            let x = bit_if(s.spell_check, IB_SPELL_CHECK_ENABLED);
            assert(0u32 | x == x) by (bit_vector);
        }
        let macros = crate::macros::parse_macro_entries(s.macros.as_slice());
        assert(pair_views(macros@) =~= crate::macros::string_pairs(macros@));
        Config {
            input_method: defaults.input_method,
            output_charset: s.output_charset,
            engine_flags: EngineFlags::Bits(e),
            ib_flags: IBFlags::Bits(b),
            input_mode: InputMode::from_stored(s.input_mode),
            shortcuts: defaults.shortcuts,
            macros,
        }
    }
}

/// Reading back a stored mode gives the mode stored, the retired value 6
/// reads as `BackspaceForwarding`, and every other value that no mode is
/// stored as reads as `Preedit`.
pub proof fn law_stored_mode_reads_back(m: InputMode, v: i32)
    ensures
        mode_of_stored(stored_of_mode(m)) == m,
        mode_of_stored(6) == InputMode::BackspaceForwarding,
        v != 6 && (forall|k: InputMode| #[trigger] stored_of_mode(k) != v) ==> mode_of_stored(v) == InputMode::Preedit,
{
    if v != 6 && (forall|k: InputMode| #[trigger] stored_of_mode(k) != v) {
        assert(stored_of_mode(InputMode::Preedit) != v);
        assert(stored_of_mode(InputMode::SurroundingText) != v);
        assert(stored_of_mode(InputMode::BackspaceForwarding) != v);
        assert(stored_of_mode(InputMode::ShiftLeftForwarding) != v);
        assert(stored_of_mode(InputMode::ForwardAsCommit) != v);
        assert(stored_of_mode(InputMode::Us) != v);
    }
}

} // verus!
