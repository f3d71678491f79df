//! The preedit-mode engine handler: the default mode, where in-progress text
//! is shown as preedit and committed on a word break.
//!
//! The handler turns each IBus event into the [`Action`]s to emit back to the
//! client; sending them, reading settings and launching the preferences window
//! are left to the caller.
use vstd::prelude::*;
use crate::composition::TEMP_ID;
use crate::config::{
    pair_views, Config, ConfigV, IBFlags, InputMode, IB_AUTO_CAPITALIZE_MACRO, IB_AUTO_NON_VN_RESTORE,
    IB_DD_FREE_STYLE, IB_MACRO_ENABLED, IB_NO_UNDERLINE, IB_SPELL_CHECK_ENABLED, IB_SPELL_CHECK_WITH_DICTS,
    IB_SPELL_CHECK_WITH_RULES, IB_WORKAROUND_FB_MESSENGER,
};
use crate::dict::Dictionary;
use crate::engine::{
    engine_wf, BambooEngine, key_spec, last_word_of, processed_spec, remove_spec, restore_spec, BambusaEngine,
    EngineV,
};
use crate::keysyms::{BACKSPACE, LOCK_MASK, RELEASE_MASK, SUPPRESSING, TAB};
use crate::macros::{is_prefix_of, lookup_spec, norm_key, table_of, MacroTable, MacroTableV};
use crate::mode::{EngineFlags, Mode};
use crate::text::{
    chars_of, is_alphabetic_char, is_lowercase_char, is_uppercase_char, lowercase_str,
    string_from_chars, uppercase_str,
};
use crate::unicode_tables::{any_vietnamese_rune, any_vietnamese_vowel, can_process, is_word_break};

verus! {

/// Something the handler asks its caller to do.
#[derive(Debug)]
pub enum Action {
    /// Commit finalized text to the client.
    CommitText(String),
    /// Show or replace the in-progress preedit text.
    UpdatePreedit { text: String, cursor_pos: u32, visible: bool, underline: bool },
    /// Hide the preedit text.
    HidePreedit,
    /// Delete text around the cursor via the surrounding-text protocol.
    DeleteSurroundingText { offset: i32, nchars: u32 },
    /// Hide the auxiliary text.
    HideAuxiliaryText,
    /// Hide the lookup table.
    HideLookupTable,
    /// Register the property panel: a single button `key` labelled `label`
    /// (to be translated by the caller).
    RegisterProperty { key: String, label: String },
    /// Ask the client to send surrounding text.
    RequireSurroundingText,
    /// Launch the preferences window.
    LaunchSetup,
}

/// The value of an [`Action`].
pub enum ActionV {
    CommitText(Seq<char>),
    UpdatePreedit { text: Seq<char>, cursor_pos: u32, visible: bool, underline: bool },
    HidePreedit,
    DeleteSurroundingText { offset: i32, nchars: u32 },
    HideAuxiliaryText,
    HideLookupTable,
    RegisterProperty { key: Seq<char>, label: Seq<char> },
    RequireSurroundingText,
    LaunchSetup,
}

impl View for Action {
    type V = ActionV;

    open spec fn view(&self) -> ActionV {
        match self {
            Action::CommitText(s) => ActionV::CommitText(s@),
            Action::UpdatePreedit { text, cursor_pos, visible, underline } => ActionV::UpdatePreedit {
                text: text@,
                cursor_pos: *cursor_pos,
                visible: *visible,
                underline: *underline,
            },
            Action::HidePreedit => ActionV::HidePreedit,
            Action::DeleteSurroundingText { offset, nchars } => ActionV::DeleteSurroundingText {
                offset: *offset,
                nchars: *nchars,
            },
            Action::HideAuxiliaryText => ActionV::HideAuxiliaryText,
            Action::HideLookupTable => ActionV::HideLookupTable,
            Action::RegisterProperty { key, label } => ActionV::RegisterProperty { key: key@, label: label@ },
            Action::RequireSurroundingText => ActionV::RequireSurroundingText,
            Action::LaunchSetup => ActionV::LaunchSetup,
        }
    }
}

/// The values of a sequence of actions.
pub open spec fn actions_view(a: Seq<Action>) -> Seq<ActionV> {
    a.map_values(|x: Action| x@)
}

/// The character a keysym stands for (`char::from_u32`): the scalar value
/// itself when it is one (at most 0x10FFFF and outside the surrogates).
pub open spec fn char_of_keyval(v: u32) -> Option<char> {
    if v <= 0x10FFFF && !(0xD800 <= v && v <= 0xDFFF) {
        Some(v as char)
    } else {
        None
    }
}

/// Calls `char::from_u32`, which returns the character for a Unicode scalar
/// value and `None` for any other number. Claimed: exactly
/// `char_of_keyval(v)`.
#[verifier::external_body]
fn char_from_u32(v: u32) -> (r: Option<char>)
    ensures
        r == char_of_keyval(v),
{
    char::from_u32(v)
}

/// The character a keysym stands for, or NUL.
pub open spec fn key_of(keyval: u32) -> char {
    match char_of_keyval(keyval) {
        Some(c) => c,
        None => '\0',
    }
}

fn key_char(keyval: u32) -> (r: char)
    ensures
        r == key_of(keyval),
{
    match char_from_u32(keyval) {
        Some(c) => c,
        None => '\0',
    }
}

/// Common-prefix diff: the differing suffix of `new`, and how many trailing
/// characters of `old` to delete to reach it.
pub open spec fn common_prefix(new: Seq<char>, old: Seq<char>, i: int) -> int
    decreases new.len() - i,
{
    if i < 0 || i >= new.len() || i >= old.len() || new[i] != old[i] {
        i
    } else {
        common_prefix(new, old, i + 1)
    }
}

proof fn lemma_common_prefix(new: Seq<char>, old: Seq<char>, i: int)
    requires
        0 <= i <= new.len(),
        i <= old.len(),
    ensures
        i <= common_prefix(new, old, i) <= new.len(),
        common_prefix(new, old, i) <= old.len(),
    decreases new.len() - i,
{
    if i < new.len() && i < old.len() && new[i] == old[i] {
        lemma_common_prefix(new, old, i + 1);
    }
}

/// The suffix of `new` after its common prefix with `old`, and the number of
/// characters of `old` after that prefix.
pub open spec fn offset_runes_spec(new: Seq<char>, old: Seq<char>) -> (Seq<char>, u32) {
    let k = common_prefix(new, old, 0);
    (new.subrange(k, new.len() as int), (old.len() - k) as u32)
}

/// Common-prefix diff: the differing suffix of `new`, and how many trailing
/// characters of `old` to delete to reach it.
pub fn offset_runes<'a>(new: &'a str, old: &str) -> (r: (&'a str, u32))
    ensures
        (r.0@, r.1) == offset_runes_spec(new@, old@),
{
    let new_chars = chars_of(new);
    let old_chars = chars_of(old);
    let mut offset: usize = 0;
    while offset < new_chars.len() && offset < old_chars.len() && new_chars[offset] == old_chars[offset]
        invariant
            offset <= new_chars@.len(),
            offset <= old_chars@.len(),
            new_chars@ == new@,
            old_chars@ == old@,
            common_prefix(new@, old@, 0) == common_prefix(new@, old@, offset as int),
        decreases new_chars@.len() - offset,
    {
        offset += 1;
    }
    let n_backspace = (old_chars.len() - offset) as u32;
    (new.substring_char(offset, new_chars.len()), n_backspace)
}

/// The letter case of a macro key, mirrored onto its expansion.
#[derive(Debug, Clone, Copy, PartialEq, Eq, Structural)]
pub enum MacroCase {
    AllLower,
    AllUpper,
    Mixed,
}

/// The letter case of a macro key: all lowercase, all uppercase, or mixed
/// (also when it has no letters at all).
pub open spec fn macro_case_spec(key: Seq<char>) -> MacroCase {
    let letters = key.filter(|c: char| is_alphabetic_char(c));
    if letters.len() == 0 {
        MacroCase::Mixed
    } else if forall|i: int| 0 <= i < letters.len() ==> is_lowercase_char(#[trigger] letters[i]) {
        MacroCase::AllLower
    } else if forall|i: int| 0 <= i < letters.len() ==> is_uppercase_char(#[trigger] letters[i]) {
        MacroCase::AllUpper
    } else {
        MacroCase::Mixed
    }
}

/// The letter case of a macro key, to mirror it onto the expansion.
pub fn macro_case(key: &str) -> (r: MacroCase)
    ensures
        r == macro_case_spec(key@),
{
    let chars = chars_of(key);
    let mut letters: Vec<char> = Vec::new();
    let mut i: usize = 0;
    while i < chars.len()
        invariant
            i <= chars@.len(),
            chars@ == key@,
            letters@ == chars@.subrange(0, i as int).filter(|c: char| is_alphabetic_char(c)),
        decreases chars@.len() - i,
    {
        proof {
            reveal_with_fuel(Seq::filter, 1);
            assert(chars@.subrange(0, i + 1).drop_last() =~= chars@.subrange(0, i as int));
        }
        if crate::text::is_alphabetic(chars[i]) {
            letters.push(chars[i]);
        }
        i += 1;
    }
    assert(chars@.subrange(0, chars@.len() as int) =~= chars@);
    if letters.len() == 0 {
        return MacroCase::Mixed;
    }
    let mut all_lower = true;
    let mut all_upper = true;
    let mut j: usize = 0;
    while j < letters.len()
        invariant
            j <= letters@.len(),
            all_lower == forall|k: int| 0 <= k < j ==> is_lowercase_char(#[trigger] letters@[k]),
            all_upper == forall|k: int| 0 <= k < j ==> is_uppercase_char(#[trigger] letters@[k]),
        decreases letters@.len() - j,
    {
        let c = letters[j];
        all_lower = all_lower && crate::text::is_lowercase(c);
        all_upper = all_upper && crate::text::is_uppercase(c);
        j += 1;
    }
    if all_lower {
        MacroCase::AllLower
    } else if all_upper {
        MacroCase::AllUpper
    } else {
        MacroCase::Mixed
    }
}

/// The value of a handler: its composer, settings, macros and dictionary,
/// and whether the next key restores the last word's keystrokes.
#[verifier::ext_equal]
pub struct HandlerV {
    pub engine: EngineV,
    pub config: ConfigV,
    pub macros: MacroTableV,
    pub dict: Seq<Seq<char>>,
    pub restore: bool,
}

/// Composes Vietnamese text and renders it through IBus preedit.
pub struct PreeditHandler {
    engine: BambusaEngine,
    config: Config,
    macros: MacroTable,
    dict: Dictionary,
    should_restore_key_strokes: bool,
}

impl PreeditHandler {
    pub closed spec fn state(&self) -> HandlerV {
        HandlerV {
            engine: self.engine@,
            config: self.config@,
            macros: self.macros@,
            dict: self.dict@,
            restore: self.should_restore_key_strokes,
        }
    }
}

impl View for PreeditHandler {
    type V = HandlerV;

    open spec fn view(&self) -> HandlerV {
        self.state()
    }
}

/// A handler value is well formed when its composer is.
pub open spec fn handler_wf(h: HandlerV) -> bool {
    engine_wf(h.engine)
}

/// `h` with composer `e`.
pub open spec fn with_engine(h: HandlerV, e: EngineV) -> HandlerV {
    HandlerV { engine: e, ..h }
}

/// The composer's text under `mode`.
pub open spec fn text_of(h: HandlerV, mode: Mode) -> Seq<char> {
    processed_spec(h.engine, mode)
}

/// Whether the text being typed should show as raw keystrokes: restoring
/// non-Vietnamese words and spell checking by rules are on, the word is not
/// a free-style `dd` abbreviation (when those are allowed), it holds a
/// Vietnamese character (when `check_vn_rune`), and it is not a valid
/// (possibly partial) syllable.
pub open spec fn should_fallback_spec(h: HandlerV, check_vn_rune: bool) -> bool {
    let f = h.config.ib_flags;
    let vn = text_of(h, Mode::Bits(17));
    if !f.has(IB_AUTO_NON_VN_RESTORE) || !f.has(IB_SPELL_CHECK_ENABLED) {
        false
    } else if vn.len() == 0 {
        false
    } else if f.has(IB_DD_FREE_STYLE) && !any_vietnamese_vowel(vn) && (vn.last() == 'd' || vn.contains('đ')) {
        false
    } else if check_vn_rune && !any_vietnamese_rune(vn) {
        false
    } else if !f.has(IB_SPELL_CHECK_WITH_RULES) {
        false
    } else {
        !crate::target::is_valid_spec(last_word_of(h.engine), false)
    }
}

/// Whether a finished word must be restored to its keystrokes: restoring
/// non-Vietnamese words and spell checking are on, it holds no `đ` (when
/// free-style `dd` is allowed), and it is not a dictionary word (when
/// checking by dictionary) or not a complete valid syllable (when checking by
/// rules only).
pub open spec fn must_fallback_spec(h: HandlerV) -> bool {
    let f = h.config.ib_flags;
    let vn = text_of(h, Mode::Bits(17));
    if !f.has(IB_AUTO_NON_VN_RESTORE) || !f.has(IB_SPELL_CHECK_ENABLED) {
        false
    } else if vn.len() == 0 {
        false
    } else if f.has(IB_DD_FREE_STYLE) && vn.contains('đ') {
        false
    } else if f.has(IB_SPELL_CHECK_WITH_DICTS) {
        !h.dict.contains(vn)
    } else if f.has(IB_SPELL_CHECK_WITH_RULES) {
        !crate::target::is_valid_spec(last_word_of(h.engine), true)
    } else {
        false
    }
}

/// The preedit text: the last space-separated word with macros on, else the
/// raw keystrokes when falling back to English, else the composed word.
pub open spec fn preedit_spec(h: HandlerV) -> Seq<char> {
    if h.config.ib_flags.has(IB_MACRO_ENABLED) {
        text_of(h, Mode::PUNCTUATION)
    } else if should_fallback_spec(h, true) {
        text_of(h, Mode::ENGLISH)
    } else {
        text_of(h, Mode::VIETNAMESE)
    }
}

/// The mode keys are fed to the composer in.
pub open spec fn typing_mode(h: HandlerV) -> Mode {
    if should_fallback_spec(h, false) {
        Mode::ENGLISH
    } else {
        Mode::VIETNAMESE
    }
}

/// The text to commit for `old`: the keystrokes when it holds a Vietnamese
/// character but must fall back, else `old`.
pub open spec fn composed_spec(h: HandlerV, old: Seq<char>) -> Seq<char> {
    if any_vietnamese_rune(old) && must_fallback_spec(h) {
        text_of(h, Mode::ENGLISH)
    } else {
        old
    }
}

/// The expansion of macro key `key`, in the key's case when auto-capitalize
/// is on (all-lower gives lowercase, all-upper gives uppercase).
pub open spec fn expand_spec(h: HandlerV, key: Seq<char>) -> Seq<char> {
    let value = match lookup_spec(h.macros, key) {
        Some(v) => v,
        None => Seq::empty(),
    };
    if !h.config.ib_flags.has(IB_AUTO_CAPITALIZE_MACRO) {
        value
    } else {
        match macro_case_spec(key) {
            MacroCase::AllLower => lowercase_str(value),
            MacroCase::AllUpper => uppercase_str(value),
            MacroCase::Mixed => value,
        }
    }
}

/// The expansion of the current word when macros are on and it is a macro key.
pub open spec fn macro_text_spec(h: HandlerV) -> Option<Seq<char>> {
    let t = text_of(h, Mode::PUNCTUATION);
    if h.config.ib_flags.has(IB_MACRO_ENABLED) && lookup_spec(h.macros, t) is Some {
        Some(expand_spec(h, t))
    } else {
        None
    }
}

/// Whether the keysym is one the handler takes: backspace, a word break, tab
/// over a macro key, or a key the composer processes.
pub open spec fn valid_key_val(h: HandlerV, keyval: u32) -> bool {
    let key = key_of(keyval);
    if keyval == BACKSPACE || is_word_break(key) {
        true
    } else if keyval == TAB && macro_text_spec(h) is Some {
        true
    } else {
        can_process(key, h.engine.im.keys)
    }
}

/// Whether the key produces text: no suppressing modifier, and a key the
/// handler takes.
pub open spec fn printable_spec(h: HandlerV, state: u32, keyval: u32) -> bool {
    state & SUPPRESSING == 0 && valid_key_val(h, keyval)
}

/// With caps lock: `[`/`]` become `{`/`}` (and back) for input methods whose
/// appending keys include the bracket.
pub open spec fn bracket_case(h: HandlerV, key: char) -> char {
    let mapped = if key == '[' {
        '{'
    } else if key == ']' {
        '}'
    } else if key == '{' {
        '['
    } else {
        ']'
    };
    if (key == '[' || key == ']' || key == '{' || key == '}') && h.engine.im.appending_keys.contains(key) {
        mapped
    } else {
        key
    }
}

/// Building the macro table of a configuration: its pairs when macros are
/// enabled, otherwise empty; auto-capitalize is kept either way.
pub open spec fn build_macros_spec(c: ConfigV) -> MacroTableV {
    let auto_cap = c.ib_flags.has(IB_AUTO_CAPITALIZE_MACRO);
    MacroTableV {
        auto_capitalize: auto_cap,
        table: if c.ib_flags.has(IB_MACRO_ENABLED) {
            table_of(c.macros, auto_cap, c.macros.len() as int)
        } else {
            Map::empty()
        },
    }
}

fn build_macros(config: &Config) -> (r: MacroTable)
    ensures
        r@ == build_macros_spec(config@),
{
    let auto_cap = config.ib_flags.contains(IBFlags::AUTO_CAPITALIZE_MACRO);
    if config.ib_flags.contains(IBFlags::MACRO_ENABLED) {
        MacroTable::from_entries(config.macros.as_slice(), auto_cap)
    } else {
        MacroTable::empty(auto_cap)
    }
}

/// Appends the characters of `b` to a copy of `a`.
fn concat(a: &[char], b: &[char]) -> (r: Vec<char>)
    ensures
        r@ == a@ + b@,
{
    let mut v: Vec<char> = Vec::new();
    let mut i: usize = 0;
    while i < a.len()
        invariant
            i <= a@.len(),
            v@ == a@.subrange(0, i as int),
        decreases a@.len() - i,
    {
        v.push(a[i]);
        i += 1;
    }
    let mut j: usize = 0;
    while j < b.len()
        invariant
            j <= b@.len(),
            v@ == a@ + b@.subrange(0, j as int),
        decreases b@.len() - j,
    {
        v.push(b[j]);
        j += 1;
    }
    assert(a@ + b@.subrange(0, b@.len() as int) =~= a@ + b@);
    v
}

impl PreeditHandler {
    fn text(&self, mode: Mode) -> (r: Vec<char>)
        requires
            handler_wf(self@),
        ensures
            r@ == text_of(self@, mode),
    {
        let s = self.engine.processed_string(mode);
        chars_of(s.as_str())
    }

    fn should_fallback_to_english(&self, check_vn_rune: bool) -> (r: bool)
        requires
            handler_wf(self@),
        ensures
            r == should_fallback_spec(self@, check_vn_rune),
    {
        let f = self.config.ib_flags;
        if !f.contains(IBFlags::AUTO_NON_VN_RESTORE) || !f.contains(IBFlags::SPELL_CHECK_ENABLED) {
            return false;
        }
        let vn_s = self.engine.processed_string(Mode::Bits(17));
        let vn = chars_of(vn_s.as_str());
        if vn.len() == 0 {
            return false;
        }
        if f.contains(IBFlags::DD_FREE_STYLE) && !crate::unicode_tables::has_any_vietnamese_vowel(vn_s.as_str())
            && (vn[vn.len() - 1] == 'd' || crate::text::seq_contains(vn.as_slice(), 'đ')) {
            return false;
        }
        if check_vn_rune && !crate::unicode_tables::has_any_vietnamese_rune(vn_s.as_str()) {
            return false;
        }
        if !f.contains(IBFlags::SPELL_CHECK_WITH_RULES) {
            return false;
        }
        !self.engine.is_valid(false)
    }

    fn must_fallback_to_english(&self) -> (r: bool)
        requires
            handler_wf(self@),
        ensures
            r == must_fallback_spec(self@),
    {
        let f = self.config.ib_flags;
        if !f.contains(IBFlags::AUTO_NON_VN_RESTORE) || !f.contains(IBFlags::SPELL_CHECK_ENABLED) {
            return false;
        }
        let vn_s = self.engine.processed_string(Mode::Bits(17));
        let vn = chars_of(vn_s.as_str());
        if vn.len() == 0 {
            return false;
        }
        if f.contains(IBFlags::DD_FREE_STYLE) && crate::text::seq_contains(vn.as_slice(), 'đ') {
            return false;
        }
        if f.contains(IBFlags::SPELL_CHECK_WITH_DICTS) {
            !crate::dict::contains(&self.dict, vn_s.as_str())
        } else if f.contains(IBFlags::SPELL_CHECK_WITH_RULES) {
            !self.engine.is_valid(true)
        } else {
            false
        }
    }

    fn preedit_string(&self) -> (r: Vec<char>)
        requires
            handler_wf(self@),
        ensures
            r@ == preedit_spec(self@),
    {
        if self.config.ib_flags.contains(IBFlags::MACRO_ENABLED) {
            return self.text(Mode::PUNCTUATION);
        }
        if self.should_fallback_to_english(true) {
            return self.text(Mode::ENGLISH);
        }
        self.text(Mode::VIETNAMESE)
    }

    fn composer_mode(&self) -> (r: Mode)
        requires
            handler_wf(self@),
        ensures
            r == typing_mode(self@),
    {
        if self.should_fallback_to_english(false) {
            Mode::ENGLISH
        } else {
            Mode::VIETNAMESE
        }
    }

    fn composed_string(&self, old_text: &[char]) -> (r: Vec<char>)
        requires
            handler_wf(self@),
        ensures
            r@ == composed_spec(self@, old_text@),
    {
        let old_s = string_from_chars(old_text);
        if crate::unicode_tables::has_any_vietnamese_rune(old_s.as_str()) && self.must_fallback_to_english() {
            self.text(Mode::ENGLISH)
        } else {
            concat(old_text, &[])
        }
    }

    /// Expand a macro key to its value, applying the typed key's case when
    /// auto-capitalize is on (all-lower gives lower, all-upper gives upper).
    pub fn expand_macro(&self, key: &str) -> (r: String)
        ensures
            r@ == expand_spec(self@, key@),
    {
        let value: &str = match self.macros.get(key) {
            Some(v) => v,
            None => "",
        };
        proof {
            reveal_strlit("");
        }
        assert(value@ == match lookup_spec(self@.macros, key@) {
            Some(v) => v,
            None => Seq::empty(),
        });
        if !self.config.ib_flags.contains(IBFlags::AUTO_CAPITALIZE_MACRO) {
            return value.to_owned();
        }
        match macro_case(key) {
            MacroCase::AllLower => crate::text::str_to_lowercase(value),
            MacroCase::AllUpper => crate::text::str_to_uppercase(value),
            MacroCase::Mixed => value.to_owned(),
        }
    }

    fn macro_text(&self) -> (r: Option<Vec<char>>)
        requires
            handler_wf(self@),
        ensures
            r matches Some(t) ==> macro_text_spec(self@) == Some(t@),
            r is None ==> macro_text_spec(self@) is None,
    {
        if !self.config.ib_flags.contains(IBFlags::MACRO_ENABLED) {
            return None;
        }
        let text = self.engine.processed_string(Mode::PUNCTUATION);
        if self.macros.has_key(text.as_str()) {
            let e = self.expand_macro(text.as_str());
            Some(chars_of(e.as_str()))
        } else {
            None
        }
    }

    fn is_valid_key_val(&self, keyval: u32) -> (r: bool)
        requires
            handler_wf(self@),
        ensures
            r == valid_key_val(self@, keyval),
    {
        let key = key_char(keyval);
        if keyval == BACKSPACE || crate::unicode_tables::is_word_break_symbol(key) {
            return true;
        }
        if keyval == TAB && self.macro_text().is_some() {
            return true;
        }
        self.engine.can_process_key(key)
    }

    fn is_printable_key(&self, state: u32, keyval: u32) -> (r: bool)
        requires
            handler_wf(self@),
        ensures
            r == printable_spec(self@, state, keyval),
    {
        crate::keysyms::is_valid_state(state) && self.is_valid_key_val(keyval)
    }

    /// Map `[`/`]` to `{`/`}` (and back) for input methods that bind brackets.
    fn to_upper(&self, key: char) -> (r: char)
        ensures
            r == bracket_case(self@, key),
    {
        let mapped = match key {
            '[' => '{',
            ']' => '}',
            '{' => '[',
            '}' => ']',
            _ => {
                return key;
            },
        };
        if crate::text::seq_contains(self.engine.input_method().appending_keys.as_slice(), key) {
            mapped
        } else {
            key
        }
    }
}

/// The composer with its composition cleared.
pub open spec fn reset_engine(h: HandlerV) -> HandlerV {
    with_engine(h, EngineV { comp: Seq::empty(), ..h.engine })
}

/// The text as a commit, when it is not empty.
pub open spec fn commit_of(s: Seq<char>) -> Seq<ActionV> {
    if s.len() > 0 {
        seq![ActionV::CommitText(s)]
    } else {
        Seq::empty()
    }
}

/// Showing `t` as preedit (hiding the preedit when `t` is empty).
pub open spec fn update_preedit_spec(h: HandlerV, t: Seq<char>) -> Seq<ActionV> {
    let len = t.len() as u32;
    if len == 0 {
        seq![ActionV::HidePreedit, ActionV::HideAuxiliaryText]
    } else {
        seq![
            ActionV::UpdatePreedit {
                text: t,
                cursor_pos: len,
                visible: true,
                underline: !h.config.ib_flags.has(IB_NO_UNDERLINE),
            },
        ]
    }
}

/// Committing `s` and clearing the composition.
pub open spec fn commit_and_reset_spec(h: HandlerV, s: Seq<char>) -> (HandlerV, Seq<ActionV>) {
    (
        reset_engine(h),
        seq![ActionV::HidePreedit, ActionV::HideAuxiliaryText, ActionV::HideLookupTable] + commit_of(s),
    )
}

/// Committing `s` on a word break and clearing the composition: the commit
/// comes before hiding the preedit on a word break or with the messenger
/// workaround, after it otherwise.
pub open spec fn commit_word_break_spec(h: HandlerV, s: Seq<char>, is_word_break: bool) -> (HandlerV, Seq<ActionV>) {
    let head = if h.config.ib_flags.has(IB_WORKAROUND_FB_MESSENGER) || is_word_break {
        commit_of(s).push(ActionV::HidePreedit)
    } else {
        seq![ActionV::HidePreedit] + commit_of(s)
    };
    (reset_engine(h), head + seq![ActionV::HideAuxiliaryText, ActionV::HideLookupTable])
}

/// The offset that deletes `n` characters before the cursor.
pub open spec fn backspace_offset(n: u32) -> i32 {
    0i32.wrapping_sub(n as i32)
}

/// Rewriting the client's text from `old` to `new`: delete what follows
/// their common prefix, then commit the rest of `new`.
pub open spec fn update_previous_spec(old: Seq<char>, new: Seq<char>) -> Seq<ActionV> {
    let (suffix, n) = offset_runes_spec(new, old);
    (if n > 0 {
        seq![ActionV::DeleteSurroundingText { offset: backspace_offset(n), nchars: n }]
    } else {
        Seq::empty()
    }) + commit_of(suffix)
}

/// The typed key as text, when it is printable.
pub open spec fn key_text(printable: bool, key: char) -> Seq<char> {
    if printable {
        seq![key]
    } else {
        Seq::empty()
    }
}

#[verifier::opaque]
/// A key that fits no Vietnamese word: a word holding a Vietnamese
/// character that must fall back is restored to its keystrokes (and the
/// text is its last space-separated word); the key is then typed raw.
pub open spec fn non_vn_word_spec(h: HandlerV, keyval: u32, state: u32) -> (HandlerV, Seq<char>) {
    let key = key_of(keyval);
    let printable = printable_spec(h, state, keyval);
    let old = preedit_spec(h);
    let ks = key_text(printable, key);
    if any_vietnamese_rune(old) && must_fallback_spec(h) {
        let e1 = restore_spec(h.engine, false);
        let new_text = processed_spec(e1, Mode::Bits(66)) + ks;
        let e2 = if printable {
            key_spec(e1, key, Mode::ENGLISH)
        } else {
            e1
        };
        (with_engine(h, e2), new_text)
    } else {
        let e2 = if printable {
            key_spec(h.engine, key, Mode::ENGLISH)
        } else {
            h.engine
        };
        (with_engine(h, e2), old + ks)
    }
}

/// After an appending key that leaves a word break in the text: drop it from
/// the composition and type a raw space in its place.
pub open spec fn break_after_append(e: EngineV) -> EngineV {
    key_spec(remove_spec(e, false), ' ', Mode::ENGLISH)
}

#[verifier::opaque]
/// One key into the composer: the text to show and whether it ends the
/// word. Restoring keystrokes takes precedence; then a printable key the
/// composer processes is composed (appending keys that stay literal may
/// end the word); with macros on, a key continuing a macro key is buffered
/// and a complete macro key is expanded; anything else is a non-Vietnamese
/// word ending.
pub open spec fn commit_text_spec(h: HandlerV, keyval: u32, state: u32) -> (HandlerV, Seq<char>, bool) {
    let key = key_of(keyval);
    let printable = printable_spec(h, state, keyval);
    let old = preedit_spec(h);
    let ks = key_text(printable, key);
    if h.restore {
        let h1 = with_engine(HandlerV { restore: false, ..h }, restore_spec(h.engine, !any_vietnamese_rune(old)));
        (h1, preedit_spec(h1), false)
    } else if printable && can_process(key, h.engine.im.keys) {
        let k = if state & LOCK_MASK != 0 {
            bracket_case(h, key)
        } else {
            key
        };
        let h1 = with_engine(h, key_spec(h.engine, k, typing_mode(h)));
        if h1.engine.im.appending_keys.contains(k) {
            let new_text = if should_fallback_spec(h1, true) {
                text_of(h1, Mode::ENGLISH)
            } else {
                text_of(h1, Mode::VIETNAMESE)
            };
            let full = text_of(h1, Mode::VIETNAMESE);
            if full.len() > 0 && full.last() == k {
                let ret = preedit_spec(h1);
                let wbs = ret.len() > 0 && is_word_break(ret.last());
                if wbs {
                    (with_engine(h1, break_after_append(h1.engine)), ret, true)
                } else {
                    (h1, ret, false)
                }
            } else if new_text.len() > 0 && new_text.last() == k {
                let wbs = is_word_break(k);
                if wbs {
                    (with_engine(h1, break_after_append(h1.engine)), old.push(k), true)
                } else {
                    (h1, old.push(k), false)
                }
            } else {
                (h1, preedit_spec(h1), false)
            }
        } else {
            (h1, preedit_spec(h1), false)
        }
    } else if h.config.ib_flags.has(IB_MACRO_ENABLED) && printable && exists|m: Seq<char>|
        #[trigger] h.macros.table.contains_key(m) && is_prefix_of(norm_key(h.macros.auto_capitalize, old + ks), m) {
        (with_engine(h, key_spec(h.engine, key, Mode::ENGLISH)), old + ks, false)
    } else if h.config.ib_flags.has(IB_MACRO_ENABLED) && lookup_spec(h.macros, old) is Some {
        (h, expand_spec(h, old) + ks, true)
    } else {
        let r = non_vn_word_spec(h, keyval, state);
        (r.0, r.1, true)
    }
}

/// Every composer step in a handler transition that only grows ids.
pub proof fn lemma_steps_grow(e: EngineV, key: char, mode: Mode, refresh: bool, to_vietnamese: bool)
    ensures
        e.next <= key_spec(e, key, mode).next,
        e.next <= remove_spec(e, refresh).next,
        e.next <= restore_spec(e, to_vietnamese).next,
{
    reveal(crate::engine::key_spec);
    reveal(crate::engine::remove_spec);
    reveal(crate::engine::restore_spec);
    let split = crate::target::last_word_spec(e.comp, e.im.keys);
    crate::engine::lemma_replay_monotone(e.next, e.comp.subrange(split, e.comp.len() as int), e.im, e.flags, 0);
}

impl PreeditHandler {
    fn update_preedit(&self, text: &[char]) -> (r: Vec<Action>)
        ensures
            actions_view(r@) == update_preedit_spec(self@, text@),
    {
        let encoded = string_from_chars(text);
        let encoded = crate::encoder::encode(self.config.output_charset.as_str(), encoded.as_str());
        let len = text.len() as u32;
        let mut out: Vec<Action> = Vec::new();
        if len == 0 {
            out.push(Action::HidePreedit);
            out.push(Action::HideAuxiliaryText);
            assert(actions_view(out@) =~= seq![ActionV::HidePreedit, ActionV::HideAuxiliaryText]);
            return out;
        }
        out.push(
            Action::UpdatePreedit {
                text: encoded,
                cursor_pos: len,
                visible: true,
                underline: !self.config.ib_flags.contains(IBFlags::NO_UNDERLINE),
            },
        );
        assert(actions_view(out@) =~= update_preedit_spec(self@, text@));
        out
    }

    fn reset_composition(&mut self)
        ensures
            final(self)@ == reset_engine(old(self)@),
    {
        let ghost h = self@;
        self.engine.reset();
        assert(self@ =~= reset_engine(h));
    }

    fn commit_and_reset(&mut self, s: &[char]) -> (r: Vec<Action>)
        ensures
            (final(self)@, actions_view(r@)) == commit_and_reset_spec(old(self)@, s@),
    {
        let mut actions: Vec<Action> = Vec::new();
        actions.push(Action::HidePreedit);
        actions.push(Action::HideAuxiliaryText);
        actions.push(Action::HideLookupTable);
        if s.len() > 0 {
            let committed = string_from_chars(s);
            let committed = crate::encoder::encode(self.config.output_charset.as_str(), committed.as_str());
            actions.push(Action::CommitText(committed));
        }
        assert(actions_view(actions@) =~= commit_and_reset_spec(self@, s@).1);
        self.reset_composition();
        actions
    }

    fn commit_and_reset_for_word_break(&mut self, s: &[char], is_word_break: bool) -> (r: Vec<Action>)
        ensures
            (final(self)@, actions_view(r@)) == commit_word_break_spec(old(self)@, s@, is_word_break),
    {
        let committed = string_from_chars(s);
        let committed = crate::encoder::encode(self.config.output_charset.as_str(), committed.as_str());
        let mut actions: Vec<Action> = Vec::new();
        if self.config.ib_flags.contains(IBFlags::WORKAROUND_FB_MESSENGER) || is_word_break {
            if s.len() > 0 {
                actions.push(Action::CommitText(committed));
            }
            actions.push(Action::HidePreedit);
        } else {
            actions.push(Action::HidePreedit);
            if s.len() > 0 {
                actions.push(Action::CommitText(committed));
            }
        }
        actions.push(Action::HideAuxiliaryText);
        actions.push(Action::HideLookupTable);
        assert(actions_view(actions@) =~= commit_word_break_spec(self@, s@, is_word_break).1);
        self.reset_composition();
        actions
    }

    /// Rewrite the client text from `old` to `new`: delete the changed
    /// trailing characters and commit the new ones.
    fn update_previous_text(&self, old: &[char], new: &[char]) -> (r: Vec<Action>)
        ensures
            actions_view(r@) == update_previous_spec(old@, new@),
    {
        let old_s = string_from_chars(old);
        let new_s = string_from_chars(new);
        let old_enc = crate::encoder::encode(self.config.output_charset.as_str(), old_s.as_str());
        let new_enc = crate::encoder::encode(self.config.output_charset.as_str(), new_s.as_str());
        let (suffix, n_backspace) = offset_runes(new_enc.as_str(), old_enc.as_str());
        let mut actions: Vec<Action> = Vec::new();
        if n_backspace > 0 {
            actions.push(Action::DeleteSurroundingText { offset: 0i32.wrapping_sub(n_backspace as i32), nchars: n_backspace });
        }
        if suffix.unicode_len() > 0 {
            actions.push(Action::CommitText(suffix.to_owned()));
        }
        assert(actions_view(actions@) =~= update_previous_spec(old@, new@));
        actions
    }
}

/// A key event in surrounding-text mode: the composition is committed as it
/// changes and rewritten through surrounding-text deletions.
pub open spec fn surrounding_spec(h: HandlerV, keyval: u32, state: u32) -> (HandlerV, bool, Seq<ActionV>) {
    let raw = text_of(h, Mode::Bits(34)).len();
    let key = key_of(keyval);
    let old = preedit_spec(h);
    if state & RELEASE_MASK != 0 {
        (h, false, Seq::empty())
    } else if !h.restore && !can_process(key, h.engine.im.keys) && raw == 0 && !h.config.ib_flags.has(
        IB_MACRO_ENABLED,
    ) {
        (h, false, Seq::empty())
    } else if keyval == BACKSPACE {
        if raw > 0 {
            let h1 = with_engine(h, remove_spec(h.engine, true));
            (h1, true, update_previous_spec(old, preedit_spec(h1)))
        } else {
            (h, false, Seq::empty())
        }
    } else if keyval == TAB {
        (reset_engine(h), false, Seq::empty())
    } else {
        let c = commit_text_spec(h, keyval, state);
        let p = printable_spec(c.0, state, keyval);
        let acts = update_previous_spec(old, c.1);
        (if c.2 {
            reset_engine(c.0)
        } else {
            c.0
        }, p, acts)
    }
}

/// A key event: whether the key was handled, and the actions to emit. Key
/// releases are ignored, and so is a key the composer cannot take while
/// nothing is composed (so special keys reach the client). Backspace removes
/// the last character (or commits nothing when a single one is left); Tab
/// commits the macro expansion or the composed word; any other key goes
/// through the composer, committing on a word break.
pub open spec fn key_event_spec(h: HandlerV, keyval: u32, state: u32) -> (HandlerV, bool, Seq<ActionV>) {
    let raw = text_of(h, Mode::Bits(34)).len();
    let key = key_of(keyval);
    if h.config.input_mode == InputMode::SurroundingText {
        surrounding_spec(h, keyval, state)
    } else if state & RELEASE_MASK != 0 {
        (h, false, Seq::empty())
    } else if !h.restore && !can_process(key, h.engine.im.keys) && raw == 0 && !h.config.ib_flags.has(
        IB_MACRO_ENABLED,
    ) {
        (h, false, Seq::empty())
    } else if keyval == BACKSPACE {
        if preedit_spec(h).len() == 1 {
            let r = commit_and_reset_spec(h, Seq::empty());
            (r.0, true, r.1)
        } else if raw > 0 {
            let h1 = with_engine(h, remove_spec(h.engine, true));
            (h1, true, update_preedit_spec(h1, preedit_spec(h1)))
        } else {
            (h, false, Seq::empty())
        }
    } else if keyval == TAB {
        match macro_text_spec(h) {
            Some(x) => {
                let r = commit_and_reset_spec(h, x);
                (r.0, true, r.1)
            },
            None => {
                let r = commit_and_reset_spec(h, composed_spec(h, preedit_spec(h)));
                (r.0, false, r.1)
            },
        }
    } else {
        let c = commit_text_spec(h, keyval, state);
        let p = printable_spec(c.0, state, keyval);
        if c.2 {
            let r = commit_word_break_spec(c.0, c.1, p);
            (r.0, p, r.1)
        } else {
            (c.0, p, update_preedit_spec(c.0, c.1))
        }
    }
}

impl PreeditHandler {
    fn handle_non_vn_word(&mut self, keyval: u32, _keycode: u32, state: u32) -> (r: Vec<char>)
        requires
            handler_wf(old(self)@),
            non_vn_word_spec(old(self)@, keyval, state).0.engine.next <= TEMP_ID,
        ensures
            (final(self)@, r@) == non_vn_word_spec(old(self)@, keyval, state),
            handler_wf(final(self)@),
    {
        let ghost h = self@;
        proof {
            reveal(non_vn_word_spec);
        }
        let key = key_char(keyval);
        let is_printable = self.is_printable_key(state, keyval);
        let old_text = self.preedit_string();
        let mut key_s: Vec<char> = Vec::new();
        if is_printable {
            key_s.push(key);
        }
        assert(key_s@ =~= key_text(is_printable, key));
        let old_s = string_from_chars(old_text.as_slice());
        if crate::unicode_tables::has_any_vietnamese_rune(old_s.as_str()) && self.must_fallback_to_english() {
            proof {
                lemma_steps_grow(restore_spec(h.engine, false), key, Mode::ENGLISH, false, false);
            }
            self.engine.restore_last_word(false);
            let t = self.text(Mode::Bits(66));
            let new_text = concat(t.as_slice(), key_s.as_slice());
            if is_printable {
                self.engine.process_key(key, Mode::ENGLISH);
            }
            assert(self@ =~= non_vn_word_spec(h, keyval, state).0);
            return new_text;
        }
        if is_printable {
            self.engine.process_key(key, Mode::ENGLISH);
        }
        assert(self@ =~= non_vn_word_spec(h, keyval, state).0);
        concat(old_text.as_slice(), key_s.as_slice())
    }

    /// After an appending key that leaves a word break: drop it and type a
    /// raw space in its place.
    fn break_after_appending(&mut self)
        requires
            handler_wf(old(self)@),
            break_after_append(old(self)@.engine).next <= TEMP_ID,
        ensures
            final(self)@ == with_engine(old(self)@, break_after_append(old(self)@.engine)),
            handler_wf(final(self)@),
    {
        let ghost h = self@;
        proof {
            lemma_steps_grow(remove_spec(h.engine, false), ' ', Mode::ENGLISH, false, false);
        }
        self.engine.remove_last_char(false);
        self.engine.process_key(' ', Mode::ENGLISH);
        assert(self@ =~= with_engine(h, break_after_append(h.engine)));
    }

    /// Process one key into the composer and return the text and whether it
    /// ends the word.
    fn commit_text(&mut self, keyval: u32, keycode: u32, state: u32) -> (r: (Vec<char>, bool))
        requires
            handler_wf(old(self)@),
            commit_text_spec(old(self)@, keyval, state).0.engine.next <= TEMP_ID,
        ensures
            (final(self)@, r.0@, r.1) == commit_text_spec(old(self)@, keyval, state),
            handler_wf(final(self)@),
    {
        let ghost h = self@;
        proof {
            reveal(commit_text_spec);
        }
        let key = key_char(keyval);
        let is_printable = self.is_printable_key(state, keyval);
        let old_text = self.preedit_string();
        if self.should_restore_key_strokes {
            self.should_restore_key_strokes = false;
            let old_s = string_from_chars(old_text.as_slice());
            let to_vn = !crate::unicode_tables::has_any_vietnamese_rune(old_s.as_str());
            self.engine.restore_last_word(to_vn);
            let ghost h1 = with_engine(HandlerV { restore: false, ..h }, restore_spec(h.engine, to_vn));
            assert(self@ =~= h1);
            return (self.preedit_string(), false);
        }
        if is_printable && self.engine.can_process_key(key) {
            let k = if state & LOCK_MASK != 0 {
                self.to_upper(key)
            } else {
                key
            };
            let mode = self.composer_mode();
            proof {
                let e1 = key_spec(h.engine, k, mode);
                lemma_steps_grow(e1, ' ', Mode::ENGLISH, false, false);
                lemma_steps_grow(remove_spec(e1, false), ' ', Mode::ENGLISH, false, false);
            }
            self.engine.process_key(k, mode);
            let ghost h1 = with_engine(h, key_spec(h.engine, k, mode));
            assert(self@ =~= h1);
            if crate::text::seq_contains(self.engine.input_method().appending_keys.as_slice(), k) {
                let new_text = if self.should_fallback_to_english(true) {
                    self.text(Mode::ENGLISH)
                } else {
                    self.text(Mode::VIETNAMESE)
                };
                let full_seq = self.text(Mode::VIETNAMESE);
                if full_seq.len() > 0 && full_seq[full_seq.len() - 1] == k {
                    let ret = self.preedit_string();
                    let is_wbs = ret.len() > 0 && crate::unicode_tables::is_word_break_symbol(ret[ret.len() - 1]);
                    if is_wbs {
                        self.break_after_appending();
                    }
                    return (ret, is_wbs);
                }
                if new_text.len() > 0 && new_text[new_text.len() - 1] == k {
                    let is_wbs = crate::unicode_tables::is_word_break_symbol(k);
                    if is_wbs {
                        self.break_after_appending();
                    }
                    let mut out = concat(old_text.as_slice(), &[]);
                    out.push(k);
                    return (out, is_wbs);
                }
                return (self.preedit_string(), false);
            }
            return (self.preedit_string(), false);
        }
        let mut key_s: Vec<char> = Vec::new();
        if is_printable {
            key_s.push(key);
        }
        assert(key_s@ =~= key_text(is_printable, key));
        if self.config.ib_flags.contains(IBFlags::MACRO_ENABLED) {
            let candidate = concat(old_text.as_slice(), key_s.as_slice());
            let candidate_s = string_from_chars(candidate.as_slice());
            if is_printable && self.macros.has_prefix(candidate_s.as_str()) {
                self.engine.process_key(key, Mode::ENGLISH);
                assert(self@ =~= with_engine(h, key_spec(h.engine, key, Mode::ENGLISH)));
                return (candidate, false);
            }
            let old_s = string_from_chars(old_text.as_slice());
            if self.macros.has_key(old_s.as_str()) {
                let expanded = self.expand_macro(old_s.as_str());
                let e = chars_of(expanded.as_str());
                return (concat(e.as_slice(), key_s.as_slice()), true);
            }
        }
        proof {
            reveal(non_vn_word_spec);
        }
        (self.handle_non_vn_word(keyval, keycode, state), true)
    }

    /// Surrounding-text delivery: instead of showing preedit, commit the
    /// composition incrementally and rewrite it through surrounding-text
    /// deletions as it changes.
    fn process_key_surrounding(&mut self, keyval: u32, keycode: u32, state: u32) -> (r: (bool, Vec<Action>))
        requires
            handler_wf(old(self)@),
            surrounding_spec(old(self)@, keyval, state).0.engine.next <= TEMP_ID,
        ensures
            (final(self)@, r.0, actions_view(r.1@)) == surrounding_spec(old(self)@, keyval, state),
            handler_wf(final(self)@),
    {
        let ghost h = self@;
        if crate::keysyms::is_release(state) {
            let v: Vec<Action> = Vec::new();
            assert(actions_view(v@) =~= Seq::<ActionV>::empty());
            return (false, v);
        }
        let raw_key_len = self.text(Mode::Bits(34)).len();
        let key = key_char(keyval);
        let old_text = self.preedit_string();
        let empty: Vec<Action> = Vec::new();
        assert(actions_view(empty@) =~= Seq::<ActionV>::empty());
        if !self.should_restore_key_strokes && !self.engine.can_process_key(key) && raw_key_len == 0
            && !self.config.ib_flags.contains(IBFlags::MACRO_ENABLED) {
            return (false, empty);
        }
        if keyval == BACKSPACE {
            if raw_key_len > 0 {
                self.engine.remove_last_char(true);
                assert(self@ =~= with_engine(h, remove_spec(h.engine, true)));
                let new_text = self.preedit_string();
                return (true, self.update_previous_text(old_text.as_slice(), new_text.as_slice()));
            }
            return (false, empty);
        }
        if keyval == TAB {
            self.reset_composition();
            return (false, empty);
        }
        let (new_text, is_word_break) = self.commit_text(keyval, keycode, state);
        let is_printable = self.is_printable_key(state, keyval);
        let actions = self.update_previous_text(old_text.as_slice(), new_text.as_slice());
        if is_word_break {
            self.reset_composition();
        }
        (is_printable, actions)
    }

    /// Handle a key event: whether the key was handled, and the actions to
    /// emit.
    pub fn process_key_event(&mut self, keyval: u32, keycode: u32, state: u32) -> (r: (bool, Vec<Action>))
        requires
            key_event_spec(old(self)@, keyval, state).0.engine.next <= TEMP_ID,
        ensures
            (final(self)@, r.0, actions_view(r.1@)) == key_event_spec(old(self)@, keyval, state),
            handler_wf(final(self)@),
    {
        proof {
            use_type_invariant(&self.engine);
        }
        let ghost h = self@;
        if self.config.input_mode == InputMode::SurroundingText {
            return self.process_key_surrounding(keyval, keycode, state);
        }
        let empty: Vec<Action> = Vec::new();
        assert(actions_view(empty@) =~= Seq::<ActionV>::empty());
        if crate::keysyms::is_release(state) {
            return (false, empty);
        }
        let raw_key_len = self.text(Mode::Bits(34)).len();
        let key = key_char(keyval);
        if !self.should_restore_key_strokes && !self.engine.can_process_key(key) && raw_key_len == 0
            && !self.config.ib_flags.contains(IBFlags::MACRO_ENABLED) {
            return (false, empty);
        }
        if keyval == BACKSPACE {
            if self.preedit_string().len() == 1 {
                return (true, self.commit_and_reset(&[]));
            }
            if raw_key_len > 0 {
                self.engine.remove_last_char(true);
                assert(self@ =~= with_engine(h, remove_spec(h.engine, true)));
                let preedit = self.preedit_string();
                return (true, self.update_preedit(preedit.as_slice()));
            }
            return (false, empty);
        }
        if keyval == TAB {
            match self.macro_text() {
                Some(expansion) => {
                    return (true, self.commit_and_reset(expansion.as_slice()));
                },
                None => {},
            }
            let old_text = self.preedit_string();
            let composed = self.composed_string(old_text.as_slice());
            return (false, self.commit_and_reset(composed.as_slice()));
        }
        let (new_text, is_word_break) = self.commit_text(keyval, keycode, state);
        let is_printable = self.is_printable_key(state, keyval);
        if is_word_break {
            return (is_printable, self.commit_and_reset_for_word_break(new_text.as_slice(), is_printable));
        }
        (is_printable, self.update_preedit(new_text.as_slice()))
    }
}

/// A new handler for `config`: the composer runs the configured input
/// method (Telex when it is not built in) with the configured flags.
pub open spec fn new_handler_spec(c: ConfigV, dict: Seq<Seq<char>>) -> HandlerV {
    let (name, i) = match crate::input_method::layout_index(c.input_method) {
        Some(i) => (c.input_method, i),
        None => ("Telex"@, 0int),
    };
    HandlerV {
        engine: EngineV {
            im: crate::input_method::build_spec(name, crate::input_method::layout_pairs(i)),
            flags: c.engine_flags,
            comp: Seq::empty(),
            next: 0,
        },
        config: c,
        macros: build_macros_spec(c),
        dict,
        restore: false,
    }
}

/// Clearing the composition hides the preedit and the auxiliary text.
pub open spec fn reset_spec(h: HandlerV) -> (HandlerV, Seq<ActionV>) {
    (reset_engine(h), seq![ActionV::HidePreedit, ActionV::HideAuxiliaryText])
}

/// Focusing in with freshly read settings: the input method stays (it is
/// fixed by the engine name); the composer is rebuilt, empty, when the
/// engine flags changed; the macros are rebuilt. The property panel is
/// registered, surrounding text is requested in surrounding-text mode, and
/// the composition is cleared.
pub open spec fn focus_in_spec(h: HandlerV, fresh: ConfigV) -> (HandlerV, Seq<ActionV>) {
    let c = ConfigV { input_method: h.config.input_method, ..fresh };
    let engine = if c.engine_flags.spec_bits() != h.config.engine_flags.spec_bits() {
        match crate::input_method::layout_index(c.input_method) {
            Some(i) => EngineV {
                im: crate::input_method::build_spec(c.input_method, crate::input_method::layout_pairs(i)),
                flags: c.engine_flags,
                comp: Seq::empty(),
                next: 0,
            },
            None => h.engine,
        }
    } else {
        h.engine
    };
    let h1 = HandlerV { engine, config: c, macros: build_macros_spec(c), ..h };
    let head = seq![ActionV::RegisterProperty { key: "setup"@, label: "Preferences"@ }];
    let head2 = if c.input_mode == InputMode::SurroundingText {
        head.push(ActionV::RequireSurroundingText)
    } else {
        head
    };
    let r = reset_spec(h1);
    (r.0, head2 + r.1)
}

impl PreeditHandler {
    pub fn new(config: Config, dict: Dictionary) -> (r: PreeditHandler)
        ensures
            r@ == new_handler_spec(config@, dict@),
            handler_wf(r@),
    {
        let im = match crate::input_method::parse_input_method(config.input_method.as_str()) {
            Some(im) => im,
            None => {
                proof {
                    crate::input_method::lemma_telex_is_built_in();
                }
                match crate::input_method::parse_input_method("Telex") {
                    Some(im) => im,
                    None => {
                        proof {
                            assert(false);
                        }
                        crate::input_method::InputMethod {
                            name: String::new(),
                            rules: Vec::new(),
                            super_keys: Vec::new(),
                            tone_keys: Vec::new(),
                            appending_keys: Vec::new(),
                            keys: Vec::new(),
                        }
                    },
                }
            },
        };
        let engine = BambooEngine::new(im, config.engine_flags);
        let macros = build_macros(&config);
        let r = PreeditHandler { engine, config, macros, dict, should_restore_key_strokes: false };
        assert(r@ =~= new_handler_spec(r.config@, r.dict@));
        r
    }

    /// The composer.
    pub fn engine(&self) -> (r: &BambusaEngine)
        ensures
            r@ == self@.engine,
    {
        &self.engine
    }

    /// Replace the macro table.
    pub fn set_macros(&mut self, macros: MacroTable)
        ensures
            final(self)@ == (HandlerV { macros: macros@, ..old(self)@ }),
    {
        self.macros = macros;
    }

    pub fn reset(&mut self) -> (r: Vec<Action>)
        ensures
            (final(self)@, actions_view(r@)) == reset_spec(old(self)@),
    {
        self.reset_composition();
        let mut out: Vec<Action> = Vec::new();
        out.push(Action::HidePreedit);
        out.push(Action::HideAuxiliaryText);
        assert(actions_view(out@) =~= reset_spec(old(self)@).1);
        out
    }

    pub fn focus_out(&mut self) -> (r: Vec<Action>)
        ensures
            (final(self)@, actions_view(r@)) == reset_spec(old(self)@),
    {
        self.reset()
    }

    /// Focus in with the settings as they now are (the input method is kept).
    pub fn focus_in(&mut self, fresh: Config) -> (r: Vec<Action>)
        ensures
            (final(self)@, actions_view(r@)) == focus_in_spec(old(self)@, fresh@),
            handler_wf(final(self)@),
    {
        proof {
            use_type_invariant(&self.engine);
        }
        let ghost h = self@;
        let mut fresh = fresh;
        fresh.input_method = self.config.input_method.clone();
        if fresh.engine_flags.bits() != self.config.engine_flags.bits() {
            match crate::input_method::parse_input_method(fresh.input_method.as_str()) {
                Some(im) => {
                    self.engine = BambooEngine::new(im, fresh.engine_flags);
                },
                None => {},
            }
        }
        self.config = fresh;
        self.macros = build_macros(&self.config);
        let ghost h1 = self@;
        let mut actions: Vec<Action> = Vec::new();
        actions.push(Action::RegisterProperty { key: "setup".to_owned(), label: "Preferences".to_owned() });
        if self.config.input_mode == InputMode::SurroundingText {
            actions.push(Action::RequireSurroundingText);
        }
        let mut rest = self.reset();
        actions.append(&mut rest);
        assert(actions_view(actions@) =~= focus_in_spec(h, fresh@).1);
        actions
    }

    /// A property was activated: the `setup` property launches the
    /// preferences window.
    pub fn property_activate(&mut self, name: &str, _state: u32) -> (r: Vec<Action>)
        ensures
            final(self)@ == old(self)@,
            actions_view(r@) == if name@ == "setup"@ {
                seq![ActionV::LaunchSetup]
            } else {
                Seq::empty()
            },
    {
        let mut out: Vec<Action> = Vec::new();
        let wanted = chars_of("setup");
        let got = chars_of(name);
        if crate::text::chars_eq(got.as_slice(), wanted.as_slice()) {
            out.push(Action::LaunchSetup);
        }
        assert(actions_view(out@) =~= if name@ == "setup"@ {
            seq![ActionV::LaunchSetup]
        } else {
            Seq::<ActionV>::empty()
        });
        out
    }
}

/// Whether `c` is a printable ASCII character other than space.
pub open spec fn is_ascii_graphic_spec(c: char) -> bool {
    '!' <= c && c <= '~'
}

/// A trivial handler that commits the typed ASCII character.
#[derive(Debug, Default)]
pub struct EchoHandler;

impl EchoHandler {
    /// A printable ASCII key is committed as typed and handled; anything else
    /// is left alone.
    pub fn process_key_event(&mut self, keyval: u32, _keycode: u32, _state: u32) -> (r: (bool, Vec<Action>))
        ensures
            match char_of_keyval(keyval) {
                Some(c) => if is_ascii_graphic_spec(c) {
                    r.0 && actions_view(r.1@) == seq![ActionV::CommitText(seq![c])]
                } else {
                    !r.0 && r.1@.len() == 0
                },
                None => !r.0 && r.1@.len() == 0,
            },
    {
        let mut out: Vec<Action> = Vec::new();
        match char_from_u32(keyval) {
            Some(c) => {
                if '!' <= c && c <= '~' {
                    let mut one: Vec<char> = Vec::new();
                    one.push(c);
                    assert(one@ =~= seq![c]);
                    out.push(Action::CommitText(string_from_chars(one.as_slice())));
                    assert(actions_view(out@) =~= seq![ActionV::CommitText(seq![c])]);
                    return (true, out);
                }
                (false, out)
            },
            None => (false, out),
        }
    }

    pub fn focus_in(&mut self) -> (r: Vec<Action>)
        ensures
            r@.len() == 0,
    {
        Vec::new()
    }

    pub fn focus_out(&mut self) -> (r: Vec<Action>)
        ensures
            r@.len() == 0,
    {
        Vec::new()
    }

    pub fn reset(&mut self) -> (r: Vec<Action>)
        ensures
            r@.len() == 0,
    {
        Vec::new()
    }

    pub fn set_surrounding_text(&mut self, _text: String, _cursor_pos: u32, _anchor_pos: u32) -> (r: Vec<Action>)
        ensures
            r@.len() == 0,
    {
        Vec::new()
    }
}

proof fn lemma_common_prefix_eq(new: Seq<char>, old: Seq<char>, i: int)
    requires
        0 <= i <= new.len(),
        i <= old.len(),
        new.subrange(0, i) == old.subrange(0, i),
    ensures
        new.subrange(0, common_prefix(new, old, i)) == old.subrange(0, common_prefix(new, old, i)),
    decreases new.len() - i,
{
    if i < new.len() && i < old.len() && new[i] == old[i] {
        assert(new.subrange(0, i + 1) =~= new.subrange(0, i).push(new[i]));
        assert(old.subrange(0, i + 1) =~= old.subrange(0, i).push(old[i]));
        lemma_common_prefix_eq(new, old, i + 1);
    }
}

/// Applying the diff rewrites `old` into `new`: deleting the counted
/// characters from the end of `old` and appending the suffix gives `new`.
pub proof fn law_offset_runes_rewrites(new: Seq<char>, old: Seq<char>)
    requires
        old.len() <= u32::MAX,
    ensures
        ({
            let (suffix, n) = offset_runes_spec(new, old);
            n <= old.len() && old.subrange(0, old.len() - n) + suffix == new
        }),
{
    lemma_common_prefix(new, old, 0);
    assert(new.subrange(0, 0) =~= old.subrange(0, 0));
    lemma_common_prefix_eq(new, old, 0);
    let k = common_prefix(new, old, 0);
    assert(old.subrange(0, k) + new.subrange(k, new.len() as int) =~= new);
}

/// Key releases are ignored: nothing changes and nothing is emitted.
pub proof fn law_key_release_is_ignored(h: HandlerV, keyval: u32, state: u32)
    requires
        state & RELEASE_MASK != 0,
    ensures
        key_event_spec(h, keyval, state) == (h, false, Seq::<ActionV>::empty()),
{
}

/// Tab in preedit mode, once past the guard for special keys, always ends
/// the word: the composition is left empty.
pub proof fn law_tab_ends_the_word(h: HandlerV, state: u32)
    requires
        h.config.input_mode != InputMode::SurroundingText,
        state & RELEASE_MASK == 0,
        h.restore || can_process(key_of(TAB), h.engine.im.keys) || text_of(h, Mode::Bits(34)).len() > 0
            || h.config.ib_flags.has(IB_MACRO_ENABLED),
    ensures
        key_event_spec(h, TAB, state).0.engine.comp.len() == 0,
{
}

/// A word break commits the word's text (when not empty) and leaves the
/// composition empty.
pub proof fn law_word_break_commits(h: HandlerV, s: Seq<char>, is_word_break: bool)
    ensures
        commit_word_break_spec(h, s, is_word_break).0.engine.comp.len() == 0,
        s.len() > 0 ==> commit_word_break_spec(h, s, is_word_break).1.contains(ActionV::CommitText(s)),
        s.len() == 0 ==> forall|i: int|
            0 <= i < commit_word_break_spec(h, s, is_word_break).1.len() ==> !(#[trigger] commit_word_break_spec(
                h,
                s,
                is_word_break,
            ).1[i] is CommitText),
{
    let acts = commit_word_break_spec(h, s, is_word_break).1;
    if s.len() > 0 {
        if h.config.ib_flags.has(IB_WORKAROUND_FB_MESSENGER) || is_word_break {
            assert(acts[0] == ActionV::CommitText(s));
        } else {
            assert(acts[1] == ActionV::CommitText(s));
        }
    }
}

} // verus!
