//! Text statistics and snapshots handed to reader extensions.

use vstd::prelude::*;

use crate::bridge::{bounded_utf8, bounded_utf8_end};
use crate::utf8_text::{byte_len, is_whitespace, is_whitespace_char};

verus! {

/// One character of a page's text layer.
#[derive(Clone, Copy, Debug, PartialEq, Eq, Structural)]
pub struct TextChar {
    pub value: char,
}

/// The characters of one page, in reading order.
#[derive(Clone, Debug)]
pub struct TextLayer {
    pub chars: Vec<TextChar>,
}

impl TextLayer {
    pub fn new(chars: Vec<TextChar>) -> (layer: Self)
        ensures
            layer.chars@ == chars@,
    {
        TextLayer { chars }
    }
}

/// The characters of a text layer.
pub open spec fn layer_text(chars: Seq<TextChar>) -> Seq<char> {
    chars.map_values(|c: TextChar| c.value)
}

/// Number of words of `s`: its maximal runs of non-white-space characters.
pub open spec fn word_count(s: Seq<char>) -> nat
    decreases s.len(),
{
    if s.len() == 0 {
        0
    } else {
        word_count(s.drop_last()) + (if !is_whitespace_char(s.last()) && (s.len() == 1
            || is_whitespace_char(s[s.len() - 2])) {
            1nat
        } else {
            0nat
        })
    }
}

/// Words and characters of a page's text, counted without copying the text.
pub fn text_layer_statistics(text: &TextLayer) -> (counts: (usize, usize))
    ensures
        counts.0 == word_count(layer_text(text.chars@)),
        counts.1 == text.chars@.len(),
{
    let ghost s = layer_text(text.chars@);
    let mut words: usize = 0;
    let mut previous_white = true;
    for index in 0..text.chars.len()
        invariant
            s == layer_text(text.chars@),
            words == word_count(s.take(index as int)),
            words <= index,
            index > 0 ==> previous_white == is_whitespace_char(s[index - 1]),
            index == 0 ==> previous_white,
    {
        proof {
            assert(s.take(index + 1).drop_last() =~= s.take(index as int));
        }
        let white = is_whitespace(text.chars[index].value);
        if !white && previous_white {
            words = words + 1;
        }
        previous_white = white;
    }
    proof {
        assert(s.take(text.chars@.len() as int) =~= s);
    }
    (words, text.chars.len())
}

/// Text handed to an extension snapshot, cut to at most `maximum_bytes` UTF-8
/// bytes at a character boundary.
pub fn bounded_snapshot_string(value: &str, maximum_bytes: usize) -> (bounded: String)
    ensures
        vstd::utf8::encode_utf8(bounded@) == vstd::utf8::encode_utf8(value@).subrange(
            0,
            bounded_utf8_end(value@, maximum_bytes as int),
        ),
        byte_len(bounded@) <= maximum_bytes,
        byte_len(value@) <= maximum_bytes ==> bounded@ == value@,
{
    bounded_utf8(value, maximum_bytes)
}

/// Coalesces requests for an extension input snapshot: one dispatch serves all
/// requests made before it starts.
#[derive(Clone, Copy, Debug, Default, PartialEq, Eq, Structural)]
pub struct ExtensionSnapshotDispatch {
    pub requested: bool,
}

impl ExtensionSnapshotDispatch {
    /// Records a request; `true` when the host must schedule a dispatch, `false`
    /// when one is already waiting to start.
    pub fn request(&mut self) -> (schedule: bool)
        ensures
            schedule == !old(self).requested,
            final(self).requested,
    {
        let schedule = !self.requested;
        self.requested = true;
        schedule
    }

    /// The scheduled dispatch starts; later requests need a new one.
    pub fn begin_dispatch(&mut self)
        ensures
            !final(self).requested,
    {
        self.requested = false;
    }
}

} // verus!
