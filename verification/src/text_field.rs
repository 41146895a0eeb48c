//! Single-line text field editing over UTF-8 byte offsets.
//!
//! The buffer keeps a selection as byte offsets into its text. Every offset it
//! stores is snapped down to a character boundary before use, replacements are
//! checked against a raw byte limit before anything changes, and offsets can be
//! converted to and from the UTF-16 code units used by platform input methods.

use core::ops::Range;
use vstd::prelude::*;
use vstd::utf8::*;

use crate::text_format::{decimal, decimal_spec, push_char};
use crate::utf8_text::{
    byte_len, byte_length, byte_offset, ceil_boundary_spec, chars_vec, char_width, floor_boundary_spec,
    is_boundary, lemma_boundary_index, lemma_byte_offset_ends, lemma_byte_offset_le,
    lemma_byte_offset_step, lemma_byte_offset_strict, lemma_ceil_within, lemma_encode_concat,
    lemma_floor_within,
    lemma_ends_are_boundaries, lemma_floor_boundary, lemma_floor_of_boundary,
    lemma_offset_is_boundary, lemma_scalar_width, utf16_len, utf16_width,
};

verus! {

broadcast use vstd::utf8::group_utf8_lib;

/// Why a text field refused an edit.
#[derive(Clone, Copy, Debug, PartialEq, Eq, Structural)]
pub enum TextFieldRejection {
    /// The edit would have made the text longer than `limit_bytes` UTF-8 bytes.
    TooLong { limit_bytes: usize, attempted_bytes: usize },
}

/// Notifications a text field emits to its owner.
#[derive(Clone, Debug, PartialEq, Eq)]
pub enum TextFieldEvent {
    Changed(String),
    Rejected(TextFieldRejection),
    Submit,
    Cancel,
}

/// The character a single-line field stores for `c`: line breaks become spaces.
pub open spec fn one_line_char(c: char) -> char {
    if c == '\r' || c == '\n' {
        ' '
    } else {
        c
    }
}

/// `cs` with every carriage return and line feed replaced by a space.
pub open spec fn single_line_spec(cs: Seq<char>) -> Seq<char> {
    cs.map_values(|c: char| one_line_char(c))
}

/// Largest boundary strictly before the boundary at or below `o`, or 0.
pub open spec fn previous_boundary_spec(cs: Seq<char>, o: int) -> int {
    let f = floor_boundary_spec(cs, min_int(o, byte_len(cs)));
    if f == 0 {
        0
    } else {
        floor_boundary_spec(cs, f - 1)
    }
}

/// Start of the character after the one at or below `o`, or the text length.
pub open spec fn next_boundary_spec(cs: Seq<char>, o: int) -> int {
    let f = floor_boundary_spec(cs, min_int(o, byte_len(cs)));
    if f >= byte_len(cs) {
        byte_len(cs)
    } else {
        ceil_boundary_spec(cs, f + 1)
    }
}

pub open spec fn min_int(a: int, b: int) -> int {
    if a <= b {
        a
    } else {
        b
    }
}

pub open spec fn max_int(a: int, b: int) -> int {
    if a >= b {
        a
    } else {
        b
    }
}

/// The boundary at or below `offset`, after clamping it to the text length.
pub open spec fn snap(cs: Seq<char>, offset: int) -> int {
    floor_boundary_spec(cs, min_int(offset, byte_len(cs)))
}

/// Start of the byte range a replacement of `start..end` actually removes.
pub open spec fn replace_start(cs: Seq<char>, start: int) -> int {
    snap(cs, start)
}

/// End of the byte range a replacement of `start..end` actually removes.
pub open spec fn replace_end(cs: Seq<char>, start: int, end: int) -> int {
    max_int(snap(cs, end), snap(cs, start))
}

/// Byte length the text would have after replacing `start..end` with `inserted`.
pub open spec fn replace_attempt(cs: Seq<char>, start: int, end: int, inserted: Seq<char>) -> int {
    byte_len(cs) - (replace_end(cs, start, end) - replace_start(cs, start)) + byte_len(inserted)
}

/// UTF-16 code units before the boundary `f`.
pub open spec fn utf16_prefix_len(cs: Seq<char>, f: int) -> int {
    utf16_len(decode_utf8(encode_utf8(cs).subrange(0, f)))
}

/// Number of leading characters among the first `k` whose UTF-16 length fits in `units`.
pub open spec fn utf16_fit(cs: Seq<char>, units: int, k: int) -> int
    decreases k,
{
    if k <= 0 {
        0
    } else if utf16_len(cs.take(k)) <= units {
        k
    } else {
        utf16_fit(cs, units, k - 1)
    }
}

/// Byte offset of the last character boundary whose UTF-16 position is at most `units`.
pub open spec fn offset_from_utf16_spec(cs: Seq<char>, units: int) -> int {
    byte_offset(cs, utf16_fit(cs, units, cs.len() as int))
}

/// What replacing `start..end` of `cs` with `inserted` under a `max` byte limit
/// yields: the inserted byte range, or the rejection.
pub open spec fn replace_outcome(
    cs: Seq<char>,
    start: int,
    end: int,
    inserted: Seq<char>,
    max: usize,
) -> Result<(int, int), TextFieldRejection> {
    let attempted = replace_attempt(cs, start, end, inserted);
    if attempted > usize::MAX {
        Err(TextFieldRejection::TooLong { limit_bytes: max, attempted_bytes: usize::MAX })
    } else if attempted > max {
        Err(TextFieldRejection::TooLong { limit_bytes: max, attempted_bytes: attempted as usize })
    } else {
        let s = replace_start(cs, start);
        Ok((s, s + byte_len(inserted)))
    }
}

/// `after` is `before` with `start..end` replaced by `inserted` under the limit
/// `max`; a rejected replacement leaves the buffer as it was.
pub open spec fn replaced(
    before: TextFieldBuffer,
    after: TextFieldBuffer,
    start: int,
    end: int,
    inserted: Seq<char>,
    max: usize,
) -> bool {
    let cs = before.text@;
    match replace_outcome(cs, start, end, inserted, max) {
        Err(_) => after == before,
        Ok((s, e)) => {
            &&& encode_utf8(after.text@) == encode_utf8(cs).subrange(0, s) + encode_utf8(
                single_line_spec(inserted),
            ) + encode_utf8(cs).subrange(replace_end(cs, start, end), byte_len(cs))
            &&& after.selection.start == e
            &&& after.selection.end == e
            &&& !after.reversed
            &&& after.marked is None
        },
    }
}

/// The executable result reports the same outcome as the specification.
pub open spec fn result_agrees(
    result: Result<Range<usize>, TextFieldRejection>,
    outcome: Result<(int, int), TextFieldRejection>,
) -> bool {
    match (result, outcome) {
        (Ok(range), Ok((s, e))) => range.start == s && range.end == e,
        (Err(rejection), Err(expected)) => rejection == expected,
        _ => false,
    }
}

/// A byte range whose ends lie on character boundaries, in order, within `cs`.
pub open spec fn valid_range(cs: Seq<char>, start: int, end: int) -> bool {
    &&& 0 <= start <= end <= byte_len(cs)
    &&& is_boundary(cs, start)
    &&& is_boundary(cs, end)
}

/// The buffer after `move_to(offset)`.
pub open spec fn moved_to(b: TextFieldBuffer, offset: int) -> TextFieldBuffer {
    let o = snap(b.text@, offset) as usize;
    TextFieldBuffer { text: b.text, selection: Range { start: o, end: o }, reversed: false, marked: b.marked }
}

/// The buffer after `select_to(offset)`.
pub open spec fn selected_to(b: TextFieldBuffer, offset: int) -> TextFieldBuffer {
    let o = snap(b.text@, offset);
    let anchor = if b.reversed {
        b.selection.end as int
    } else {
        b.selection.start as int
    };
    TextFieldBuffer {
        text: b.text,
        selection: Range { start: min_int(anchor, o) as usize, end: max_int(anchor, o) as usize },
        reversed: o < anchor,
        marked: b.marked,
    }
}

/// Text of the rejection, as shown to the user.
pub open spec fn rejection_message_spec(rejection: TextFieldRejection) -> Seq<char> {
    match rejection {
        TextFieldRejection::TooLong { limit_bytes, attempted_bytes } => "Search text would be "@
            + decimal_spec(attempted_bytes as nat) + " bytes; the "@ + decimal_spec(
            limit_bytes as nat,
        ) + "-byte limit was reached and the edit was ignored"@,
    }
}

impl TextFieldRejection {
    /// Human-readable description of the rejection.
    pub fn message(&self) -> (message: String)
        ensures
            message@ == rejection_message_spec(*self),
    {
        match self {
            TextFieldRejection::TooLong { limit_bytes, attempted_bytes } => {
                let mut message = String::new();
                message.append("Search text would be ");
                let attempted = decimal(*attempted_bytes);
                message.append(attempted.as_str());
                message.append(" bytes; the ");
                let limit = decimal(*limit_bytes);
                message.append(limit.as_str());
                message.append("-byte limit was reached and the edit was ignored");
                message
            },
        }
    }
}

/// Replaces the bytes `start..end` of `text` with `inserted` (`String::replace_range`).
#[verifier::external_body]
fn replace_bytes(text: &mut String, start: usize, end: usize, inserted: &str)
    requires
        start <= end <= byte_len(old(text)@),
        is_boundary(old(text)@, start as int),
        is_boundary(old(text)@, end as int),
    ensures
        encode_utf8(final(text)@) == encode_utf8(old(text)@).subrange(0, start as int)
            + encode_utf8(inserted@) + encode_utf8(old(text)@).subrange(
            end as int,
            byte_len(old(text)@),
        ),
{
    text.replace_range(start..end, inserted);
}

proof fn lemma_single_line_bytes(cs: Seq<char>)
    ensures
        byte_len(single_line_spec(cs)) == byte_len(cs),
    decreases cs.len(),
{
    if cs.len() > 0 {
        let rest = cs.drop_first();
        assert(single_line_spec(cs).drop_first() =~= single_line_spec(rest));
        assert(single_line_spec(cs)[0] == one_line_char(cs[0]));
        lemma_single_line_bytes(rest);
        lemma_scalar_width(cs[0]);
        lemma_scalar_width(one_line_char(cs[0]));
    } else {
        assert(single_line_spec(cs) =~= cs);
    }
}

proof fn lemma_utf16_take_step(cs: Seq<char>, i: int)
    requires
        0 <= i < cs.len(),
    ensures
        utf16_len(cs.take(i + 1)) == utf16_len(cs.take(i)) + utf16_width(cs[i]),
{
    assert(cs.take(i + 1).drop_last() =~= cs.take(i));
}

proof fn lemma_utf16_strict(cs: Seq<char>, j: int, k: int)
    requires
        0 <= j < k <= cs.len(),
    ensures
        utf16_len(cs.take(j)) < utf16_len(cs.take(k)),
    decreases k - j,
{
    lemma_utf16_take_step(cs, k - 1);
    if j < k - 1 {
        lemma_utf16_strict(cs, j, k - 1);
    }
}

proof fn lemma_utf16_within_bytes(cs: Seq<char>, i: int)
    requires
        0 <= i <= cs.len(),
    ensures
        0 <= utf16_len(cs.take(i)) <= byte_offset(cs, i),
    decreases i,
{
    if i == 0 {
        assert(cs.take(0) =~= Seq::<char>::empty());
        lemma_byte_offset_ends(cs);
    } else {
        lemma_utf16_within_bytes(cs, i - 1);
        lemma_utf16_take_step(cs, i - 1);
        lemma_byte_offset_step(cs, i - 1);
        lemma_scalar_width(cs[i - 1]);
    }
}

proof fn lemma_utf16_fit_exact(cs: Seq<char>, units: int, i: int, k: int)
    requires
        0 <= i <= k <= cs.len(),
        utf16_len(cs.take(i)) <= units,
        i < k ==> utf16_len(cs.take(i + 1)) > units,
    ensures
        utf16_fit(cs, units, k) == i,
    decreases k,
{
    if k > i {
        if i + 1 < k {
            lemma_utf16_strict(cs, i + 1, k);
        }
        lemma_utf16_fit_exact(cs, units, i, k - 1);
    } else if i == 0 {
        assert(cs.take(0) =~= Seq::<char>::empty());
    }
}

/// The bytes before the character boundary `byte_offset(cs, k)` decode to the first `k` characters.
pub proof fn lemma_prefix_decodes(cs: Seq<char>, k: int)
    requires
        0 <= k <= cs.len(),
    ensures
        encode_utf8(cs).subrange(0, byte_offset(cs, k)) == encode_utf8(cs.take(k)),
        encode_utf8(cs).subrange(byte_offset(cs, k), byte_len(cs)) == encode_utf8(cs.skip(k)),
        decode_utf8(encode_utf8(cs).subrange(0, byte_offset(cs, k))) == cs.take(k),
{
    assert(cs =~= cs.take(k) + cs.skip(k));
    lemma_encode_concat(cs.take(k), cs.skip(k));
    assert(encode_utf8(cs).subrange(0, byte_offset(cs, k)) =~= encode_utf8(cs.take(k)));
    assert(encode_utf8(cs).subrange(byte_offset(cs, k), byte_len(cs)) =~= encode_utf8(
        cs.skip(k),
    ));
}

/// Replacing the bytes between two boundaries with encoded text is a replacement
/// of the characters between them.
pub proof fn lemma_replace_chars(cs: Seq<char>, s: int, e: int, inserted: Seq<char>, result: Seq<char>)
    requires
        is_boundary(cs, s),
        is_boundary(cs, e),
        s <= e,
        encode_utf8(result) == encode_utf8(cs).subrange(0, s) + encode_utf8(inserted)
            + encode_utf8(cs).subrange(e, byte_len(cs)),
    ensures
        exists|ks: int, ke: int|
            0 <= ks <= ke <= cs.len() && s == byte_offset(cs, ks) && e == byte_offset(cs, ke)
                && result == cs.take(ks) + inserted + cs.skip(ke),
        is_boundary(result, s),
        is_boundary(result, s + byte_len(inserted)),
        byte_len(result) == byte_len(cs) - (e - s) + byte_len(inserted),
        encode_utf8(result).subrange(s, s + byte_len(inserted)) == encode_utf8(inserted),
{
    let ks = lemma_boundary_index(cs, s);
    let ke = lemma_boundary_index(cs, e);
    if ke < ks {
        lemma_byte_offset_strict(cs, ke, ks);
    }
    lemma_prefix_decodes(cs, ks);
    lemma_prefix_decodes(cs, ke);
    let joined = cs.take(ks) + inserted + cs.skip(ke);
    lemma_encode_concat(cs.take(ks), inserted);
    lemma_encode_concat(cs.take(ks) + inserted, cs.skip(ke));
    assert(encode_utf8(result) =~= encode_utf8(joined));
    encode_utf8_decode_utf8(result);
    encode_utf8_decode_utf8(joined);
    assert(result == joined);
    let kn = ks + inserted.len();
    assert(joined.take(kn) =~= cs.take(ks) + inserted);
    lemma_offset_is_boundary(joined, kn);
    assert(joined.take(ks) =~= cs.take(ks));
    lemma_offset_is_boundary(joined, ks);
    assert(encode_utf8(result).subrange(s, s + byte_len(inserted)) =~= encode_utf8(inserted));
}

proof fn lemma_single_line_idempotent(cs: Seq<char>)
    ensures
        single_line_spec(single_line_spec(cs)) == single_line_spec(cs),
{
    assert(single_line_spec(single_line_spec(cs)) =~= single_line_spec(cs));
}

proof fn lemma_offset_from_utf16_bounded(cs: Seq<char>, units: int)
    ensures
        0 <= offset_from_utf16_spec(cs, units) <= byte_len(cs),
{
    lemma_utf16_fit_range(cs, units, cs.len() as int);
    lemma_byte_offset_le(cs, 0, utf16_fit(cs, units, cs.len() as int));
    lemma_byte_offset_le(cs, utf16_fit(cs, units, cs.len() as int), cs.len() as int);
    lemma_byte_offset_ends(cs);
}

proof fn lemma_utf16_fit_range(cs: Seq<char>, units: int, k: int)
    requires
        0 <= k <= cs.len(),
    ensures
        0 <= utf16_fit(cs, units, k) <= k,
    decreases k,
{
    if k > 0 {
        lemma_utf16_fit_range(cs, units, k - 1);
    }
}

/// Snaps `offset` down to the nearest character boundary of `text`.
pub fn floor_boundary(text: &str, offset: usize) -> (boundary: usize)
    ensures
        boundary == floor_boundary_spec(text@, offset as int),
{
    let mut offset = offset;
    let ghost original = offset;
    while offset > 0 && !text.is_char_boundary(offset)
        invariant
            floor_boundary_spec(text@, original as int) == floor_boundary_spec(
                text@,
                offset as int,
            ),
        decreases offset,
    {
        offset -= 1;
    }
    offset
}

/// Start of the character before the (snapped) `offset`, or 0.
pub fn previous_boundary(text: &str, offset: usize) -> (boundary: usize)
    ensures
        boundary == previous_boundary_spec(text@, offset as int),
{
    let len = byte_length(text);
    let clamped = if offset < len {
        offset
    } else {
        len
    };
    let floor = floor_boundary(text, clamped);
    if floor == 0 {
        0
    } else {
        floor_boundary(text, floor - 1)
    }
}

/// Start of the character after the one at the (snapped) `offset`, or the text length.
pub fn next_boundary(text: &str, offset: usize) -> (boundary: usize)
    ensures
        boundary == next_boundary_spec(text@, offset as int),
{
    let len = byte_length(text);
    let clamped = if offset < len {
        offset
    } else {
        len
    };
    let floor = floor_boundary(text, clamped);
    proof {
        lemma_floor_boundary(text@, clamped as int);
    }
    if floor >= len {
        return len;
    }
    let mut next = floor + 1;
    proof {
        lemma_ends_are_boundaries(text@);
    }
    while !text.is_char_boundary(next)
        invariant
            floor + 1 <= next <= len,
            len == byte_len(text@),
            is_boundary(text@, len as int),
            ceil_boundary_spec(text@, next as int) == ceil_boundary_spec(text@, floor + 1),
        decreases len - next,
    {
        next += 1;
    }
    next
}

/// `text` with carriage returns and line feeds replaced by spaces.
pub fn single_line(text: &str) -> (line: String)
    ensures
        line@ == single_line_spec(text@),
        byte_len(line@) == byte_len(text@),
{
    let mut line = String::new();
    for c in iter: text.chars()
        invariant
            iter.seq() == text@,
            line@ == single_line_spec(text@.take(iter.index() as int)),
    {
        let ghost before = line@;
        let mapped = if c == '\r' || c == '\n' {
            ' '
        } else {
            c
        };
        push_char(&mut line, mapped);
        proof {
            let i = iter.index() as int;
            assert(single_line_spec(text@.take(i + 1)) =~= single_line_spec(text@.take(i)).push(
                one_line_char(text@[i]),
            ));
        }
    }
    proof {
        assert(text@.take(text@.len() as int) =~= text@);
        lemma_single_line_bytes(text@);
    }
    line
}

fn char_utf8_width(c: char) -> (width: usize)
    ensures
        width == char_width(c),
{
    proof {
        lemma_scalar_width(c);
    }
    let value = c as u32;
    if value <= 0x7F {
        1
    } else if value <= 0x7FF {
        2
    } else if value <= 0xFFFF {
        3
    } else {
        4
    }
}

fn char_utf16_width(c: char) -> (width: usize)
    ensures
        width == utf16_width(c),
{
    if (c as u32) >= 0x10000 {
        2
    } else {
        1
    }
}

/// Editable single-line text with a byte-offset selection and optional marked
/// (composition) range.
#[derive(Debug, PartialEq, Eq)]
pub struct TextFieldBuffer {
    pub text: String,
    pub selection: Range<usize>,
    pub reversed: bool,
    pub marked: Option<Range<usize>>,
}

impl Clone for TextFieldBuffer {
    fn clone(&self) -> (copy: Self)
        ensures
            copy == *self,
    {
        let marked = match &self.marked {
            Some(range) => Some(range.start..range.end),
            None => None,
        };
        TextFieldBuffer {
            text: self.text.clone(),
            selection: self.selection.start..self.selection.end,
            reversed: self.reversed,
            marked,
        }
    }
}

impl TextFieldBuffer {
    /// The selection, and the marked range if any, are ordered byte ranges on
    /// character boundaries of the text.
    pub open spec fn well_formed(&self) -> bool {
        &&& valid_range(self.text@, self.selection.start as int, self.selection.end as int)
        &&& self.marked matches Some(m) ==> valid_range(self.text@, m.start as int, m.end as int)
    }

    /// A buffer holding `text` on one line with the caret at its end.
    pub fn new(text: &str) -> (buffer: Self)
        ensures
            buffer.text@ == single_line_spec(text@),
            buffer.selection.start == byte_len(text@),
            buffer.selection.end == byte_len(text@),
            !buffer.reversed,
            buffer.marked is None,
    {
        let text = single_line(text);
        let end = byte_length(text.as_str());
        TextFieldBuffer { text, selection: end..end, reversed: false, marked: None }
    }

    /// Byte offset of the caret: the moving end of the selection.
    pub fn cursor(&self) -> (offset: usize)
        ensures
            offset == if self.reversed {
                self.selection.start
            } else {
                self.selection.end
            },
    {
        if self.reversed {
            self.selection.start
        } else {
            self.selection.end
        }
    }

    /// Collapses the selection to the boundary at or below `offset`.
    pub fn move_to(&mut self, offset: usize)
        ensures
            *final(self) == moved_to(*old(self), offset as int),
    {
        let len = byte_length(self.text.as_str());
        let clamped = if offset < len {
            offset
        } else {
            len
        };
        let offset = floor_boundary(self.text.as_str(), clamped);
        self.selection = offset..offset;
        self.reversed = false;
    }

    /// Moves the caret end of the selection to the boundary at or below
    /// `offset`, keeping the anchor and flipping direction when they cross.
    pub fn select_to(&mut self, offset: usize)
        ensures
            *final(self) == selected_to(*old(self), offset as int),
    {
        let len = byte_length(self.text.as_str());
        let clamped = if offset < len {
            offset
        } else {
            len
        };
        let offset = floor_boundary(self.text.as_str(), clamped);
        if self.reversed {
            self.selection.start = offset;
        } else {
            self.selection.end = offset;
        }
        if self.selection.end < self.selection.start {
            self.reversed = !self.reversed;
            self.selection = self.selection.end..self.selection.start;
        }
        if self.selection.start == self.selection.end {
            self.reversed = false;
        }
    }

    /// Replaces the byte range `range` (snapped to boundaries) with `text` on
    /// one line, unless the result would exceed `max_bytes` bytes; then nothing
    /// changes and the attempted size is reported.
    pub fn replace(&mut self, range: Range<usize>, text: &str, max_bytes: usize) -> (result: Result<
        Range<usize>,
        TextFieldRejection,
    >)
        ensures
            replaced(*old(self), *final(self), range.start as int, range.end as int, text@, max_bytes),
            result_agrees(
                result,
                replace_outcome(old(self).text@, range.start as int, range.end as int, text@, max_bytes),
            ),
            result is Ok ==> final(self).well_formed(),
    {
        let len = byte_length(self.text.as_str());
        let start_clamped = if range.start < len {
            range.start
        } else {
            len
        };
        let end_clamped = if range.end < len {
            range.end
        } else {
            len
        };
        let start = floor_boundary(self.text.as_str(), start_clamped);
        let end_floor = floor_boundary(self.text.as_str(), end_clamped);
        let end = if end_floor >= start {
            end_floor
        } else {
            start
        };
        proof {
            lemma_floor_boundary(self.text@, start_clamped as int);
            lemma_floor_boundary(self.text@, end_clamped as int);
        }
        let retained_bytes = len - (end - start);
        let text_len = byte_length(text);
        let attempted_bytes = match retained_bytes.checked_add(text_len) {
            Some(attempted) => attempted,
            None => {
                return Err(
                    TextFieldRejection::TooLong { limit_bytes: max_bytes, attempted_bytes: usize::MAX },
                );
            },
        };
        if attempted_bytes > max_bytes {
            return Err(TextFieldRejection::TooLong { limit_bytes: max_bytes, attempted_bytes });
        }
        // Carriage returns and line feeds are one-byte scalars, just like the
        // spaces that replace them, so the checked byte count is also the final one.
        let inserted = single_line(text);
        let ghost before = self.text@;
        replace_bytes(&mut self.text, start, end, inserted.as_str());
        let inserted_len = byte_length(inserted.as_str());
        proof {
            lemma_replace_chars(before, start as int, end as int, inserted@, self.text@);
            lemma_floor_of_boundary(self.text@, start + inserted_len);
        }
        let inserted_end = start + inserted_len;
        self.move_to(inserted_end);
        self.marked = None;
        Ok(start..inserted_end)
    }

    /// Replaces the current selection; see [`TextFieldBuffer::replace`].
    pub fn replace_selection(&mut self, text: &str, max_bytes: usize) -> (result: Result<
        Range<usize>,
        TextFieldRejection,
    >)
        ensures
            replaced(
                *old(self),
                *final(self),
                old(self).selection.start as int,
                old(self).selection.end as int,
                text@,
                max_bytes,
            ),
            result_agrees(
                result,
                replace_outcome(
                    old(self).text@,
                    old(self).selection.start as int,
                    old(self).selection.end as int,
                    text@,
                    max_bytes,
                ),
            ),
            result is Ok ==> final(self).well_formed(),
    {
        let range = self.selection.start..self.selection.end;
        self.replace(range, text, max_bytes)
    }

    /// Number of UTF-16 code units before the (snapped) byte `offset`.
    pub fn offset_to_utf16(&self, offset: usize) -> (units: usize)
        ensures
            units == utf16_prefix_len(self.text@, snap(self.text@, offset as int)),
    {
        let text = self.text.as_str();
        let len = byte_length(text);
        let clamped = if offset < len {
            offset
        } else {
            len
        };
        let target = floor_boundary(text, clamped);
        let ghost cs = self.text@;
        proof {
            lemma_floor_boundary(cs, clamped as int);
        }
        let ghost kt = lemma_boundary_index(cs, target as int);
        let chars = chars_vec(text);
        let mut index: usize = 0;
        let mut position: usize = 0;
        let mut units: usize = 0;
        proof {
            lemma_byte_offset_ends(cs);
            assert(cs.take(0) =~= Seq::<char>::empty());
        }
        while position < target
            invariant
                chars@ == cs,
                0 <= index <= kt <= cs.len(),
                target == byte_offset(cs, kt),
                position == byte_offset(cs, index as int),
                units == utf16_len(cs.take(index as int)),
                units <= position,
                target <= len,
                len == byte_len(cs),
            decreases kt - index,
        {
            proof {
                if index >= kt {
                    lemma_byte_offset_le(cs, kt as int, index as int);
                }
                lemma_byte_offset_step(cs, index as int);
                lemma_utf16_take_step(cs, index as int);
                lemma_byte_offset_le(cs, index + 1, kt);
                lemma_utf16_within_bytes(cs, index + 1);
            }
            let c = chars[index];
            position = position + char_utf8_width(c);
            units = units + char_utf16_width(c);
            index = index + 1;
        }
        proof {
            if index < kt {
                lemma_byte_offset_strict(cs, index as int, kt);
            }
            lemma_prefix_decodes(cs, kt);
        }
        units
    }

    /// Byte offset of the last character boundary at or before the UTF-16
    /// position `offset`.
    pub fn offset_from_utf16(&self, offset: usize) -> (position: usize)
        ensures
            position == offset_from_utf16_spec(self.text@, offset as int),
    {
        let text = self.text.as_str();
        let ghost cs = self.text@;
        let len = byte_length(text);
        let chars = chars_vec(text);
        let mut index: usize = 0;
        let mut position: usize = 0;
        let mut units: usize = 0;
        proof {
            lemma_byte_offset_ends(cs);
            assert(cs.take(0) =~= Seq::<char>::empty());
        }
        while index < chars.len()
            invariant
                chars@ == cs,
                0 <= index <= cs.len(),
                position == byte_offset(cs, index as int),
                units == utf16_len(cs.take(index as int)),
                cs == self.text@,
                units <= offset,
                units <= position,
                len == byte_len(cs),
            decreases cs.len() - index,
        {
            let c = chars[index];
            let wide = char_utf16_width(c);
            proof {
                lemma_byte_offset_step(cs, index as int);
                lemma_utf16_take_step(cs, index as int);
                lemma_byte_offset_le(cs, index + 1, cs.len() as int);
                lemma_byte_offset_ends(cs);
                lemma_utf16_within_bytes(cs, index + 1);
                assert(utf16_len(cs.take(index + 1)) == units + wide);
            }
            if units >= offset {
                proof {
                    lemma_utf16_fit_exact(cs, offset as int, index as int, cs.len() as int);
                }
                return position;
            }
            let next = units + wide;
            if next > offset {
                proof {
                    lemma_utf16_fit_exact(cs, offset as int, index as int, cs.len() as int);
                }
                return position;
            }
            units = next;
            position = position + char_utf8_width(c);
            index = index + 1;
        }
        proof {
            lemma_utf16_fit_exact(cs, offset as int, cs.len() as int, cs.len() as int);
            lemma_byte_offset_ends(cs);
        }
        len
    }

    /// A byte range converted to UTF-16 positions.
    pub fn range_to_utf16(&self, range: Range<usize>) -> (units: Range<usize>)
        ensures
            units.start == utf16_prefix_len(self.text@, snap(self.text@, range.start as int)),
            units.end == utf16_prefix_len(self.text@, snap(self.text@, range.end as int)),
    {
        let start = self.offset_to_utf16(range.start);
        let end = self.offset_to_utf16(range.end);
        start..end
    }

    /// A UTF-16 range converted to byte offsets at character boundaries.
    pub fn range_from_utf16(&self, range: Range<usize>) -> (bytes: Range<usize>)
        ensures
            bytes.start == offset_from_utf16_spec(self.text@, range.start as int),
            bytes.end == offset_from_utf16_spec(self.text@, range.end as int),
    {
        let start = self.offset_from_utf16(range.start);
        let end = self.offset_from_utf16(range.end);
        start..end
    }
}

} // verus!

verus! {

/// Converting a snapped byte offset to UTF-16 and back returns the same offset.
pub proof fn law_utf16_round_trip(cs: Seq<char>, offset: int)
    ensures
        offset_from_utf16_spec(cs, utf16_prefix_len(cs, snap(cs, offset))) == snap(cs, offset),
{
    let f = snap(cs, offset);
    lemma_floor_boundary(cs, min_int(offset, byte_len(cs)));
    let k = lemma_boundary_index(cs, f);
    lemma_prefix_decodes(cs, k);
    let units = utf16_len(cs.take(k));
    if k < cs.len() {
        lemma_utf16_strict(cs, k, k + 1);
    }
    lemma_utf16_fit_exact(cs, units, k, cs.len() as int);
}

/// Stepping back one character from a boundary and then forward one character
/// returns to that boundary.
pub proof fn law_previous_then_next(cs: Seq<char>, c: int)
    requires
        is_boundary(cs, c),
        0 < c,
    ensures
        next_boundary_spec(cs, previous_boundary_spec(cs, c)) == c,
{
    let k = lemma_boundary_index(cs, c);
    lemma_byte_offset_ends(cs);
    lemma_byte_offset_le(cs, k, cs.len() as int);
    lemma_floor_of_boundary(cs, c);
    assert(k > 0);
    lemma_byte_offset_step(cs, k - 1);
    lemma_scalar_width(cs[k - 1]);
    lemma_floor_within(cs, k - 1, c - 1);
    let p = byte_offset(cs, k - 1);
    assert(previous_boundary_spec(cs, c) == p);
    lemma_byte_offset_le(cs, k - 1, cs.len() as int);
    lemma_offset_is_boundary(cs, k - 1);
    lemma_floor_of_boundary(cs, p);
    lemma_byte_offset_strict(cs, k - 1, cs.len() as int);
    lemma_ceil_within(cs, k - 1, p + 1);
}

/// Stepping forward one character from a boundary and then back one character
/// returns to that boundary.
pub proof fn law_next_then_previous(cs: Seq<char>, c: int)
    requires
        is_boundary(cs, c),
        c < byte_len(cs),
    ensures
        previous_boundary_spec(cs, next_boundary_spec(cs, c)) == c,
{
    let k = lemma_boundary_index(cs, c);
    lemma_byte_offset_ends(cs);
    lemma_floor_of_boundary(cs, c);
    assert(k < cs.len());
    lemma_byte_offset_step(cs, k);
    lemma_scalar_width(cs[k]);
    lemma_ceil_within(cs, k, c + 1);
    let n = byte_offset(cs, k + 1);
    assert(next_boundary_spec(cs, c) == n);
    lemma_byte_offset_le(cs, k + 1, cs.len() as int);
    lemma_offset_is_boundary(cs, k + 1);
    lemma_floor_of_boundary(cs, n);
    lemma_floor_within(cs, k, n - 1);
}

/// A replacement changes only the replaced characters: the text before the
/// snapped start and after the snapped end is kept, and the inserted text is
/// the single-line form of the argument.
pub proof fn law_replace_keeps_surroundings(
    before: TextFieldBuffer,
    after: TextFieldBuffer,
    start: int,
    end: int,
    inserted: Seq<char>,
)
    requires
        encode_utf8(after.text@) == encode_utf8(before.text@).subrange(
            0,
            replace_start(before.text@, start),
        ) + encode_utf8(single_line_spec(inserted)) + encode_utf8(before.text@).subrange(
            replace_end(before.text@, start, end),
            byte_len(before.text@),
        ),
    ensures
        exists|ks: int, ke: int|
            0 <= ks <= ke <= before.text@.len() && byte_offset(before.text@, ks) == replace_start(
                before.text@,
                start,
            ) && byte_offset(before.text@, ke) == replace_end(before.text@, start, end)
                && after.text@ == before.text@.take(ks) + single_line_spec(inserted)
                + before.text@.skip(ke),
{
    let cs = before.text@;
    lemma_floor_boundary(cs, min_int(start, byte_len(cs)));
    lemma_floor_boundary(cs, min_int(end, byte_len(cs)));
    lemma_replace_chars(
        cs,
        replace_start(cs, start),
        replace_end(cs, start, end),
        single_line_spec(inserted),
        after.text@,
    );
}

/// A text without line breaks stays without line breaks after any replacement.
pub proof fn law_replace_stays_single_line(
    before: Seq<char>,
    after: Seq<char>,
    ks: int,
    ke: int,
    inserted: Seq<char>,
)
    requires
        0 <= ks <= ke <= before.len(),
        after == before.take(ks) + single_line_spec(inserted) + before.skip(ke),
        forall|i: int| 0 <= i < before.len() ==> before[i] != '\n' && before[i] != '\r',
    ensures
        forall|i: int| 0 <= i < after.len() ==> after[i] != '\n' && after[i] != '\r',
{
    assert forall|i: int| 0 <= i < after.len() implies after[i] != '\n' && after[i] != '\r' by {
        let mid = single_line_spec(inserted);
        if i < ks {
            assert(after[i] == before[i]);
        } else if i < ks + mid.len() {
            assert(after[i] == mid[i - ks]);
        } else {
            assert(after[i] == before[ke + (i - ks - mid.len())]);
        }
    }
}

} // verus!

verus! {

proof fn lemma_skip_offset(cs: Seq<char>, ks: int, j: int)
    requires
        0 <= ks <= cs.len(),
        0 <= j <= cs.len() - ks,
    ensures
        byte_offset(cs.skip(ks), j) == byte_offset(cs, ks + j) - byte_offset(cs, ks),
{
    assert(cs.take(ks + j) =~= cs.take(ks) + cs.skip(ks).take(j));
    lemma_encode_concat(cs.take(ks), cs.skip(ks).take(j));
}

/// The text between two character boundaries, as an owned string.
pub fn byte_slice(text: &str, start: usize, end: usize) -> (slice: String)
    requires
        valid_range(text@, start as int, end as int),
    ensures
        encode_utf8(slice@) == encode_utf8(text@).subrange(start as int, end as int),
{
    let ghost cs = text@;
    let ghost ks = lemma_boundary_index(cs, start as int);
    let ghost ke = lemma_boundary_index(cs, end as int);
    proof {
        if ke < ks {
            lemma_byte_offset_strict(cs, ke, ks);
        }
        lemma_prefix_decodes(cs, ks);
    }
    let (_, rest) = text.split_at(start);
    proof {
        assert(encode_utf8(rest@) == encode_utf8(cs.skip(ks)));
        encode_utf8_decode_utf8(rest@);
        encode_utf8_decode_utf8(cs.skip(ks));
        assert(rest@ == cs.skip(ks));
        lemma_skip_offset(cs, ks, ke - ks);
        lemma_offset_is_boundary(cs.skip(ks), ke - ks);
    }
    let (middle, _) = rest.split_at(end - start);
    proof {
        assert(encode_utf8(middle@) =~= encode_utf8(text@).subrange(start as int, end as int));
    }
    middle.to_owned()
}

/// The event a replacement reports: the new text, or the rejection.
pub open spec fn edit_event(
    outcome: Result<(int, int), TextFieldRejection>,
    text: Seq<char>,
    event: TextFieldEvent,
) -> bool {
    match outcome {
        Ok(_) => event matches TextFieldEvent::Changed(t) && t@ == text,
        Err(rejection) => event == TextFieldEvent::Rejected(rejection),
    }
}

/// The buffer a backspace edits: an empty selection first extends back over
/// the previous character.
pub open spec fn backspace_target(b: TextFieldBuffer) -> TextFieldBuffer {
    if b.selection.start == b.selection.end {
        selected_to(b, previous_boundary_spec(b.text@, cursor_spec(b)))
    } else {
        b
    }
}

/// The buffer a forward delete edits: an empty selection first extends over
/// the next character.
pub open spec fn delete_target(b: TextFieldBuffer) -> TextFieldBuffer {
    if b.selection.start == b.selection.end {
        selected_to(b, next_boundary_spec(b.text@, cursor_spec(b)))
    } else {
        b
    }
}

pub open spec fn cursor_spec(b: TextFieldBuffer) -> int {
    if b.reversed {
        b.selection.start as int
    } else {
        b.selection.end as int
    }
}

/// A single-line search field: its editable buffer, limit and presentation flags.
pub struct TextField {
    pub buffer: TextFieldBuffer,
    pub placeholder: String,
    pub selecting: bool,
    pub max_bytes: usize,
    pub borderless: bool,
}

impl TextField {
    /// An empty field that accepts at most `max_bytes` bytes.
    pub fn new(placeholder: &str, max_bytes: usize) -> (field: Self)
        ensures
            field.buffer.text@ == Seq::<char>::empty(),
            field.buffer.selection.start == 0,
            field.buffer.selection.end == 0,
            !field.buffer.reversed,
            field.buffer.marked is None,
            field.placeholder@ == placeholder@,
            !field.selecting,
            field.max_bytes == max_bytes,
            !field.borderless,
    {
        let buffer = TextFieldBuffer::new("");
        proof {
            reveal_strlit("");
            assert(buffer.text@ =~= Seq::<char>::empty());
        }
        TextField {
            buffer,
            placeholder: placeholder.to_owned(),
            selecting: false,
            max_bytes,
            borderless: false,
        }
    }

    /// The current text.
    pub fn text(&self) -> (text: &str)
        ensures
            text@ == self.buffer.text@,
    {
        self.buffer.text.as_str()
    }

    /// Replaces the whole text, or reports why the new text was refused.
    pub fn set_text(&mut self, text: &str) -> (result: Result<(), TextFieldRejection>)
        ensures
            replaced(
                old(self).buffer,
                final(self).buffer,
                0,
                byte_len(old(self).buffer.text@),
                text@,
                old(self).max_bytes,
            ),
            match replace_outcome(
                old(self).buffer.text@,
                0,
                byte_len(old(self).buffer.text@),
                text@,
                old(self).max_bytes,
            ) {
                Ok(_) => result is Ok,
                Err(rejection) => result == Err::<(), TextFieldRejection>(rejection),
            },
            final(self).max_bytes == old(self).max_bytes,
            final(self).borderless == old(self).borderless,
    {
        let len = byte_length(self.buffer.text.as_str());
        match self.buffer.replace(0..len, text, self.max_bytes) {
            Ok(_) => Ok(()),
            Err(rejection) => Err(rejection),
        }
    }

    /// Sets the borderless flag; returns whether it changed (and needs a repaint).
    pub fn set_borderless(&mut self, borderless: bool) -> (changed: bool)
        ensures
            changed == (old(self).borderless != borderless),
            final(self).borderless == borderless,
            final(self).buffer == old(self).buffer,
    {
        if self.borderless != borderless {
            self.borderless = borderless;
            true
        } else {
            false
        }
    }

    fn edit_outcome(&self, result: Result<Range<usize>, TextFieldRejection>) -> (event:
        TextFieldEvent)
        ensures
            match result {
                Ok(_) => event matches TextFieldEvent::Changed(t) && t@ == self.buffer.text@,
                Err(rejection) => event == TextFieldEvent::Rejected(rejection),
            },
    {
        match result {
            Ok(_) => TextFieldEvent::Changed(self.buffer.text.clone()),
            Err(rejection) => TextFieldEvent::Rejected(rejection),
        }
    }

    /// Deletes the selection, or the character before the caret.
    pub fn backspace(&mut self) -> (event: TextFieldEvent)
        ensures
            ({
                let target = backspace_target(old(self).buffer);
                let outcome = replace_outcome(
                    target.text@,
                    target.selection.start as int,
                    target.selection.end as int,
                    Seq::<char>::empty(),
                    old(self).max_bytes,
                );
                &&& replaced(
                    target,
                    final(self).buffer,
                    target.selection.start as int,
                    target.selection.end as int,
                    Seq::<char>::empty(),
                    old(self).max_bytes,
                )
                &&& edit_event(outcome, final(self).buffer.text@, event)
            }),
            final(self).max_bytes == old(self).max_bytes,
    {
        if self.buffer.selection.start == self.buffer.selection.end {
            let cursor = self.buffer.cursor();
            let previous = previous_boundary(self.buffer.text.as_str(), cursor);
            self.buffer.select_to(previous);
        }
        proof {
            reveal_strlit("");
        }
        let result = self.buffer.replace_selection("", self.max_bytes);
        self.edit_outcome(result)
    }

    /// Deletes the selection, or the character after the caret.
    pub fn delete(&mut self) -> (event: TextFieldEvent)
        ensures
            ({
                let target = delete_target(old(self).buffer);
                let outcome = replace_outcome(
                    target.text@,
                    target.selection.start as int,
                    target.selection.end as int,
                    Seq::<char>::empty(),
                    old(self).max_bytes,
                );
                &&& replaced(
                    target,
                    final(self).buffer,
                    target.selection.start as int,
                    target.selection.end as int,
                    Seq::<char>::empty(),
                    old(self).max_bytes,
                )
                &&& edit_event(outcome, final(self).buffer.text@, event)
            }),
            final(self).max_bytes == old(self).max_bytes,
    {
        if self.buffer.selection.start == self.buffer.selection.end {
            let cursor = self.buffer.cursor();
            let next = next_boundary(self.buffer.text.as_str(), cursor);
            self.buffer.select_to(next);
        }
        proof {
            reveal_strlit("");
        }
        let result = self.buffer.replace_selection("", self.max_bytes);
        self.edit_outcome(result)
    }

    /// Collapses the selection to its start, or moves the caret one character left.
    pub fn left(&mut self)
        ensures
            final(self).buffer == moved_to(
                old(self).buffer,
                if old(self).buffer.selection.start == old(self).buffer.selection.end {
                    previous_boundary_spec(old(self).buffer.text@, cursor_spec(old(self).buffer))
                } else {
                    old(self).buffer.selection.start as int
                },
            ),
    {
        let offset = if self.buffer.selection.start == self.buffer.selection.end {
            previous_boundary(self.buffer.text.as_str(), self.buffer.cursor())
        } else {
            self.buffer.selection.start
        };
        self.buffer.move_to(offset);
    }

    /// Collapses the selection to its end, or moves the caret one character right.
    pub fn right(&mut self)
        ensures
            final(self).buffer == moved_to(
                old(self).buffer,
                if old(self).buffer.selection.start == old(self).buffer.selection.end {
                    next_boundary_spec(old(self).buffer.text@, cursor_spec(old(self).buffer))
                } else {
                    old(self).buffer.selection.end as int
                },
            ),
    {
        let offset = if self.buffer.selection.start == self.buffer.selection.end {
            next_boundary(self.buffer.text.as_str(), self.buffer.cursor())
        } else {
            self.buffer.selection.end
        };
        self.buffer.move_to(offset);
    }

    /// Extends the selection one character to the left of the caret.
    pub fn select_left(&mut self)
        ensures
            final(self).buffer == selected_to(
                old(self).buffer,
                previous_boundary_spec(old(self).buffer.text@, cursor_spec(old(self).buffer)),
            ),
    {
        let offset = previous_boundary(self.buffer.text.as_str(), self.buffer.cursor());
        self.buffer.select_to(offset);
    }

    /// Extends the selection one character to the right of the caret.
    pub fn select_right(&mut self)
        ensures
            final(self).buffer == selected_to(
                old(self).buffer,
                next_boundary_spec(old(self).buffer.text@, cursor_spec(old(self).buffer)),
            ),
    {
        let offset = next_boundary(self.buffer.text.as_str(), self.buffer.cursor());
        self.buffer.select_to(offset);
    }

    /// Selects the whole text.
    pub fn select_all(&mut self)
        ensures
            final(self).buffer.text == old(self).buffer.text,
            final(self).buffer.marked == old(self).buffer.marked,
            final(self).buffer.selection.start == 0,
            final(self).buffer.selection.end == byte_len(old(self).buffer.text@),
            !final(self).buffer.reversed,
    {
        let len = byte_length(self.buffer.text.as_str());
        self.buffer.selection = 0..len;
        self.buffer.reversed = false;
    }

    /// Moves the caret to the start of the text.
    pub fn home(&mut self)
        ensures
            final(self).buffer == moved_to(old(self).buffer, 0),
    {
        self.buffer.move_to(0);
    }

    /// Moves the caret to the end of the text.
    pub fn end(&mut self)
        ensures
            final(self).buffer == moved_to(old(self).buffer, byte_len(old(self).buffer.text@)),
    {
        let len = byte_length(self.buffer.text.as_str());
        self.buffer.move_to(len);
    }

    /// The selected text for the clipboard, when the selection is not empty.
    pub fn copy(&self) -> (copied: Option<String>)
        requires
            self.buffer.well_formed(),
        ensures
            self.buffer.selection.start == self.buffer.selection.end ==> copied is None,
            self.buffer.selection.start != self.buffer.selection.end ==> (copied matches Some(t)
                && encode_utf8(t@) == encode_utf8(self.buffer.text@).subrange(
                self.buffer.selection.start as int,
                self.buffer.selection.end as int,
            )),
    {
        if self.buffer.selection.start != self.buffer.selection.end {
            Some(
                byte_slice(
                    self.buffer.text.as_str(),
                    self.buffer.selection.start,
                    self.buffer.selection.end,
                ),
            )
        } else {
            None
        }
    }

    /// Removes the selected text and hands it to the clipboard, when the
    /// selection is not empty.
    pub fn cut(&mut self) -> (cut: Option<(String, TextFieldEvent)>)
        requires
            old(self).buffer.well_formed(),
        ensures
            old(self).buffer.selection.start == old(self).buffer.selection.end ==> cut is None
                && *final(self) == *old(self),
            old(self).buffer.selection.start != old(self).buffer.selection.end ==> (cut matches Some(
                (t, event),
            ) && encode_utf8(t@) == encode_utf8(old(self).buffer.text@).subrange(
                old(self).buffer.selection.start as int,
                old(self).buffer.selection.end as int,
            ) && replaced(
                old(self).buffer,
                final(self).buffer,
                old(self).buffer.selection.start as int,
                old(self).buffer.selection.end as int,
                Seq::<char>::empty(),
                old(self).max_bytes,
            ) && edit_event(
                replace_outcome(
                    old(self).buffer.text@,
                    old(self).buffer.selection.start as int,
                    old(self).buffer.selection.end as int,
                    Seq::<char>::empty(),
                    old(self).max_bytes,
                ),
                final(self).buffer.text@,
                event,
            )),
    {
        if self.buffer.selection.start == self.buffer.selection.end {
            return None;
        }
        let copied = byte_slice(
            self.buffer.text.as_str(),
            self.buffer.selection.start,
            self.buffer.selection.end,
        );
        proof {
            reveal_strlit("");
        }
        let result = self.buffer.replace_selection("", self.max_bytes);
        let event = self.edit_outcome(result);
        Some((copied, event))
    }

    /// Inserts clipboard text over the selection, when the clipboard holds text.
    pub fn paste(&mut self, clipboard: Option<&str>) -> (event: Option<TextFieldEvent>)
        ensures
            clipboard is None ==> event is None && *final(self) == *old(self),
            clipboard matches Some(text) ==> (event matches Some(e) && replaced(
                old(self).buffer,
                final(self).buffer,
                old(self).buffer.selection.start as int,
                old(self).buffer.selection.end as int,
                text@,
                old(self).max_bytes,
            ) && edit_event(
                replace_outcome(
                    old(self).buffer.text@,
                    old(self).buffer.selection.start as int,
                    old(self).buffer.selection.end as int,
                    text@,
                    old(self).max_bytes,
                ),
                final(self).buffer.text@,
                e,
            )),
    {
        match clipboard {
            Some(text) => {
                let result = self.buffer.replace_selection(text, self.max_bytes);
                Some(self.edit_outcome(result))
            },
            None => None,
        }
    }

    /// The selection in UTF-16 positions and its direction.
    pub fn selected_text_range(&self) -> (selection: (Range<usize>, bool))
        ensures
            selection.0.start == utf16_prefix_len(
                self.buffer.text@,
                snap(self.buffer.text@, self.buffer.selection.start as int),
            ),
            selection.0.end == utf16_prefix_len(
                self.buffer.text@,
                snap(self.buffer.text@, self.buffer.selection.end as int),
            ),
            selection.1 == self.buffer.reversed,
    {
        let range = self.buffer.selection.start..self.buffer.selection.end;
        (self.buffer.range_to_utf16(range), self.buffer.reversed)
    }

    /// The marked (composition) range in UTF-16 positions.
    pub fn marked_text_range(&self) -> (marked: Option<Range<usize>>)
        ensures
            self.buffer.marked is None ==> marked is None,
            self.buffer.marked matches Some(m) ==> (marked matches Some(r) && r.start
                == utf16_prefix_len(self.buffer.text@, snap(self.buffer.text@, m.start as int))
                && r.end == utf16_prefix_len(
                self.buffer.text@,
                snap(self.buffer.text@, m.end as int),
            )),
    {
        match &self.buffer.marked {
            Some(range) => Some(self.buffer.range_to_utf16(range.start..range.end)),
            None => None,
        }
    }

    /// Ends composition without changing the text.
    pub fn unmark_text(&mut self)
        ensures
            final(self).buffer.marked is None,
            final(self).buffer.text == old(self).buffer.text,
            final(self).buffer.selection == old(self).buffer.selection,
            final(self).buffer.reversed == old(self).buffer.reversed,
    {
        self.buffer.marked = None;
    }

    /// The byte range an input-method edit applies to: the given UTF-16 range,
    /// else the marked range, else the selection.
    fn input_range(&self, range_utf16: Option<Range<usize>>) -> (range: Range<usize>)
        ensures
            range == input_range_spec(self.buffer, range_utf16),
    {
        match range_utf16 {
            Some(range) => self.buffer.range_from_utf16(range),
            None => match &self.buffer.marked {
                Some(marked) => marked.start..marked.end,
                None => self.buffer.selection.start..self.buffer.selection.end,
            },
        }
    }

    /// Replaces text on behalf of the platform input method.
    pub fn replace_text_in_range(&mut self, range_utf16: Option<Range<usize>>, text: &str) -> (event:
        TextFieldEvent)
        ensures
            ({
                let range = input_range_spec(old(self).buffer, range_utf16);
                &&& replaced(
                    old(self).buffer,
                    final(self).buffer,
                    range.start as int,
                    range.end as int,
                    text@,
                    old(self).max_bytes,
                )
                &&& edit_event(
                    replace_outcome(
                        old(self).buffer.text@,
                        range.start as int,
                        range.end as int,
                        text@,
                        old(self).max_bytes,
                    ),
                    final(self).buffer.text@,
                    event,
                )
            }),
    {
        let range = self.input_range(range_utf16);
        let result = self.buffer.replace(range, text, self.max_bytes);
        self.edit_outcome(result)
    }

    /// Replaces text for the input method and marks the inserted text as the
    /// composition, optionally selecting a UTF-16 range within it.
    pub fn replace_and_mark_text_in_range(
        &mut self,
        range_utf16: Option<Range<usize>>,
        text: &str,
        selected_utf16: Option<Range<usize>>,
    ) -> (event: TextFieldEvent)
        ensures
            ({
                let range = input_range_spec(old(self).buffer, range_utf16);
                let outcome = replace_outcome(
                    old(self).buffer.text@,
                    range.start as int,
                    range.end as int,
                    text@,
                    old(self).max_bytes,
                );
                &&& edit_event(outcome, final(self).buffer.text@, event)
                &&& outcome is Err ==> final(self).buffer == old(self).buffer
                &&& outcome matches Ok((s, e)) ==> {
                    &&& encode_utf8(final(self).buffer.text@) == encode_utf8(
                        old(self).buffer.text@,
                    ).subrange(0, s) + encode_utf8(single_line_spec(text@)) + encode_utf8(
                        old(self).buffer.text@,
                    ).subrange(
                        replace_end(old(self).buffer.text@, range.start as int, range.end as int),
                        byte_len(old(self).buffer.text@),
                    )
                    &&& s < e ==> (final(self).buffer.marked matches Some(m) && m.start == s
                        && m.end == e)
                    &&& s == e ==> final(self).buffer.marked is None
                    &&& !final(self).buffer.reversed
                    &&& selected_utf16 is None ==> final(self).buffer.selection.start == e
                        && final(self).buffer.selection.end == e
                    &&& selected_utf16 matches Some(sel) ==> final(self).buffer.selection.start
                        == s + offset_from_utf16_spec(single_line_spec(text@), sel.start as int)
                        && final(self).buffer.selection.end == s + offset_from_utf16_spec(
                        single_line_spec(text@),
                        sel.end as int,
                    )
                }
            }),
    {
        let range = self.input_range(range_utf16);
        let ghost before = self.buffer;
        let inserted = match self.buffer.replace(range, text, self.max_bytes) {
            Ok(inserted) => inserted,
            Err(rejection) => {
                return TextFieldEvent::Rejected(rejection);
            },
        };
        proof {
            lemma_single_line_bytes(text@);
            lemma_floor_boundary(before.text@, min_int(range.start as int, byte_len(before.text@)));
            lemma_floor_boundary(before.text@, min_int(range.end as int, byte_len(before.text@)));
            lemma_replace_chars(
                before.text@,
                replace_start(before.text@, range.start as int),
                replace_end(before.text@, range.start as int, range.end as int),
                single_line_spec(text@),
                self.buffer.text@,
            );
        }
        if inserted.start != inserted.end {
            self.buffer.marked = Some(inserted.start..inserted.end);
        }
        match selected_utf16 {
            Some(selected) => {
                let inserted_text = byte_slice(
                    self.buffer.text.as_str(),
                    inserted.start,
                    inserted.end,
                );
                proof {
                    encode_utf8_decode_utf8(inserted_text@);
                    encode_utf8_decode_utf8(single_line_spec(text@));
                    assert(inserted_text@ == single_line_spec(text@));
                    lemma_single_line_idempotent(text@);
                }
                let relative = TextFieldBuffer::new(inserted_text.as_str()).range_from_utf16(
                    selected,
                );
                proof {
                    lemma_offset_from_utf16_bounded(single_line_spec(text@), selected.start as int);
                    lemma_offset_from_utf16_bounded(single_line_spec(text@), selected.end as int);
                }
                self.buffer.selection = inserted.start + relative.start..inserted.start
                    + relative.end;
            },
            None => {},
        }
        TextFieldEvent::Changed(self.buffer.text.clone())
    }
}

/// The byte range an input-method edit applies to.
pub open spec fn input_range_spec(b: TextFieldBuffer, range_utf16: Option<Range<usize>>) -> Range<
    usize,
> {
    match range_utf16 {
        Some(r) => Range {
            start: offset_from_utf16_spec(b.text@, r.start as int) as usize,
            end: offset_from_utf16_spec(b.text@, r.end as int) as usize,
        },
        None => match b.marked {
            Some(m) => m,
            None => b.selection,
        },
    }
}

/// Clearing a field always succeeds, whatever its limit, and leaves it empty.
pub proof fn law_clearing_empties_the_field(before: TextFieldBuffer, after: TextFieldBuffer, max: usize)
    ensures
        replace_outcome(before.text@, 0, byte_len(before.text@), Seq::<char>::empty(), max) is Ok,
        replaced(before, after, 0, byte_len(before.text@), Seq::<char>::empty(), max) ==> after.text@
            == Seq::<char>::empty(),
{
    let cs = before.text@;
    let len = byte_len(cs);
    lemma_ends_are_boundaries(cs);
    lemma_floor_of_boundary(cs, len);
    assert(encode_utf8(Seq::<char>::empty()) =~= Seq::<u8>::empty()) by {
        assert(encode_utf8(Seq::<char>::empty()).len() == 0);
    }
    assert(single_line_spec(Seq::<char>::empty()) =~= Seq::<char>::empty());
    if replaced(before, after, 0, len, Seq::<char>::empty(), max) {
        assert(encode_utf8(after.text@) =~= Seq::<u8>::empty());
        encode_utf8_decode_utf8(after.text@);
        encode_utf8_decode_utf8(Seq::<char>::empty());
    }
}

} // verus!
