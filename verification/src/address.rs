//! The IBus private-bus address: the per-display address file's name, and
//! reading the address out of that file's text.
//!
//! IBus runs its own D-Bus daemon, separate from the session bus. Its address
//! is published in `IBUS_ADDRESS`, or in a per-display file under
//! `~/.config/ibus/bus/`; on Wayland the file is keyed by the Wayland display.
use vstd::prelude::*;
use crate::text::{chars_eq, chars_of, split_lines, split_lines_spec, string_from_chars};

verus! {

/// The IBus bus-address file name for a machine id and Wayland display:
/// `{machine_id}-unix-{display}`.
pub fn bus_file_name(machine_id: &str, display: &str) -> (r: String)
    ensures
        r@ == machine_id@ + "-unix-"@ + display@,
{
    let mut v = chars_of(machine_id);
    let mid = chars_of("-unix-");
    let tail = chars_of(display);
    let mut i: usize = 0;
    let ghost v0 = v@;
    while i < mid.len()
        invariant
            i <= mid@.len(),
            v@ == v0 + mid@.subrange(0, i as int),
        decreases mid@.len() - i,
    {
        v.push(mid[i]);
        i += 1;
    }
    assert(mid@.subrange(0, mid@.len() as int) =~= mid@);
    let ghost v1 = v@;
    let mut j: usize = 0;
    while j < tail.len()
        invariant
            j <= tail@.len(),
            v@ == v1 + tail@.subrange(0, j as int),
        decreases tail@.len() - j,
    {
        v.push(tail[j]);
        j += 1;
    }
    assert(tail@.subrange(0, tail@.len() as int) =~= tail@);
    string_from_chars(v.as_slice())
}

/// Line `k` of a text split into `pieces` at newlines: a `\r` ending a piece
/// that a newline follows belongs to the line ending.
pub open spec fn line_of(pieces: Seq<Seq<char>>, k: int) -> Seq<char> {
    let p = pieces[k];
    if k + 1 < pieces.len() && p.len() > 0 && p.last() == '\r' {
        p.drop_last()
    } else {
        p
    }
}

/// The rest of the first line from `k` on that starts with `IBUS_ADDRESS=`.
pub open spec fn address_scan(pieces: Seq<Seq<char>>, k: int) -> Option<Seq<char>>
    decreases pieces.len() - k,
{
    if k < 0 || k >= pieces.len() {
        None
    } else {
        let line = line_of(pieces, k);
        let key = "IBUS_ADDRESS="@;
        if key.len() <= line.len() && line.subrange(0, key.len() as int) == key {
            Some(line.subrange(key.len() as int, line.len() as int))
        } else {
            address_scan(pieces, k + 1)
        }
    }
}

/// Extract the address from the contents of an IBus bus-address file: the
/// rest of the first line that starts with `IBUS_ADDRESS=`.
pub fn parse_address_file(contents: &str) -> (r: Option<String>)
    ensures
        r matches Some(a) ==> address_scan(split_lines_spec(contents@), 0) == Some(a@),
        r is None ==> address_scan(split_lines_spec(contents@), 0) is None,
{
    let chars = chars_of(contents);
    let pieces = split_lines(chars.as_slice());
    let ghost ps = split_lines_spec(contents@);
    let key = chars_of("IBUS_ADDRESS=");
    let mut k: usize = 0;
    while k < pieces.len()
        invariant
            k <= pieces@.len() == ps.len(),
            ps == split_lines_spec(contents@),
            forall|j: int| 0 <= j < pieces@.len() ==> (#[trigger] pieces@[j])@ == ps[j],
            key@ == "IBUS_ADDRESS="@,
            address_scan(ps, 0) == address_scan(ps, k as int),
        decreases pieces@.len() - k,
    {
        let piece = pieces[k].as_slice();
        assert(piece@ == ps[k as int]);
        let n = if k + 1 < pieces.len() && piece.len() > 0 && piece[piece.len() - 1] == '\r' {
            piece.len() - 1
        } else {
            piece.len()
        };
        let line = vstd::slice::slice_subrange(piece, 0, n);
        assert(line@ =~= line_of(ps, k as int));
        if key.len() <= line.len() {
            let head = vstd::slice::slice_subrange(line, 0, key.len());
            if chars_eq(head, key.as_slice()) {
                let rest = vstd::slice::slice_subrange(line, key.len(), line.len());
                return Some(string_from_chars(rest));
            }
        }
        k += 1;
    }
    None
}

} // verus!
