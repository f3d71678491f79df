//! Vietnamese text composition.

pub mod rules;
pub mod mode;
pub mod text;
pub mod unicode_tables;
pub mod composition;
pub mod flatten;
pub mod cvc;
pub mod spelling;
pub mod target;
pub mod generate;
pub mod parser;
pub mod input_method;
pub mod engine;
pub mod encoder;
pub mod config;
pub mod keysyms;
pub mod engines;
pub mod dict;
pub mod macros;
pub mod address;
pub mod preedit;

pub use encoder::{charset_names, encode};
pub use engine::{BambooEngine, BambusaEngine};
pub use input_method::{build_input_method, input_method_names, parse_input_method, InputMethod};
pub use mode::{EngineFlags, Mode};
pub use rules::{EffectType, Mark, Rule, Tone};
pub use unicode_tables::{has_any_vietnamese_rune, has_any_vietnamese_vowel};
