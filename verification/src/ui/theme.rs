//! Text helpers for the manager's window.
use vstd::prelude::*;

use crate::text::{chars_of, push_char, slice_chars, string_of};

verus! {

/// A line cut to at most `max_chars` characters, with `…` appended when
/// anything was cut.
pub open spec fn shorten_spec(text: Seq<char>, max_chars: nat) -> Seq<char> {
    if text.len() > max_chars {
        text.take(max_chars as int).push('\u{2026}')
    } else {
        text
    }
}

/// Shortens a line for display.
pub fn shorten_line(text: &str, max_chars: usize) -> (r: String)
    ensures
        r@ == shorten_spec(text@, max_chars as nat),
{
    let v = chars_of(text);
    if v.len() > max_chars {
        let mut r = string_of(&slice_chars(&v, 0, max_chars));
        push_char(&mut r, '\u{2026}');
        r
    } else {
        text.to_owned()
    }
}

} // verus!
