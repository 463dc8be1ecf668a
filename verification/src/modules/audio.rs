//! What `wpctl get-volume` and `pactl subscribe` print, read as audio state.
use vstd::prelude::*;
use crate::text::{contains_str, contains_text, nth_word, nth_word_str};

verus! {

/// The volume field of `wpctl get-volume`'s output (`Volume: 0.45 [MUTED]`): its second
/// white-space separated word.
pub fn volume_field(output: &str) -> (r: Option<String>)
    ensures
        r matches Some(w) ==> nth_word(output@, 1) == Some(w@),
        r is None ==> nth_word(output@, 1) is None,
{
    nth_word_str(output, 1)
}

/// Whether `wpctl get-volume`'s output reports the sink as muted: it contains `[MUTED]`.
pub fn is_muted(output: &str) -> (r: bool)
    ensures
        r == contains_text(output@, "[MUTED]"@),
{
    contains_str(output, "[MUTED]")
}

/// Whether a line of `pactl subscribe` reports a change to an audio sink: it contains `sink`.
pub fn is_sink_event(line: &str) -> (r: bool)
    ensures
        r == contains_text(line@, "sink"@),
{
    contains_str(line, "sink")
}

} // verus!
