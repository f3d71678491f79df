//! Output charset encoding.
//!
//! Only Unicode is implemented today; the `charset` parameter reserves the
//! seam for the legacy Vietnamese charsets (TCVN3, VNI-Win, VIQR, …).
use vstd::prelude::*;

verus! {

/// Encode composed Unicode text into the named output charset.
pub fn encode(_charset: &str, input: &str) -> (r: String)
    ensures
        r@ == input@,
{
    input.to_owned()
}

/// Names of the supported output charsets.
pub fn charset_names() -> (r: Vec<&'static str>)
    ensures
        r@.len() == 1,
        r@[0]@ == "Unicode"@,
{
    let mut v: Vec<&'static str> = Vec::new();
    v.push("Unicode");
    v
}

} // verus!
