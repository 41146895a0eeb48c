//! Character-level view of UTF-8 text: byte offsets of characters, character
//! boundaries and UTF-16 code-unit counts, stated over `Seq<char>`.

use vstd::prelude::*;
use vstd::utf8::*;

verus! {

broadcast use vstd::utf8::group_utf8_lib;

/// Number of UTF-8 bytes of one character.
pub open spec fn char_width(c: char) -> int {
    encode_scalar(c as u32).len() as int
}

/// Number of UTF-8 bytes of a character sequence.
pub open spec fn byte_len(cs: Seq<char>) -> int {
    encode_utf8(cs).len() as int
}

/// Byte offset at which character `k` of `cs` starts (`byte_len(cs)` for `k == cs.len()`).
pub open spec fn byte_offset(cs: Seq<char>, k: int) -> int {
    encode_utf8(cs.take(k)).len() as int
}

/// `i` is a character boundary of the UTF-8 encoding of `cs`.
pub open spec fn is_boundary(cs: Seq<char>, i: int) -> bool {
    is_char_boundary(encode_utf8(cs), i)
}

/// Number of UTF-16 code units of one character.
pub open spec fn utf16_width(c: char) -> int {
    if (c as u32) >= 0x10000 {
        2
    } else {
        1
    }
}

/// Number of UTF-16 code units of a character sequence.
pub open spec fn utf16_len(cs: Seq<char>) -> int
    decreases cs.len(),
{
    if cs.len() == 0 {
        0
    } else {
        utf16_len(cs.drop_last()) + utf16_width(cs.last())
    }
}

/// Greatest character boundary at or below `o` (0 for negative `o`).
pub open spec fn floor_boundary_spec(cs: Seq<char>, o: int) -> int
    decreases o,
{
    if o <= 0 {
        0
    } else if is_boundary(cs, o) {
        o
    } else {
        floor_boundary_spec(cs, o - 1)
    }
}

/// Smallest character boundary at or above `k`, capped at the byte length.
pub open spec fn ceil_boundary_spec(cs: Seq<char>, k: int) -> int
    decreases byte_len(cs) - k,
{
    if k >= byte_len(cs) {
        byte_len(cs)
    } else if is_boundary(cs, k) {
        k
    } else {
        ceil_boundary_spec(cs, k + 1)
    }
}

pub proof fn lemma_scalar_width(c: char)
    ensures
        1 <= char_width(c) <= 4,
        char_width(c) == 1 <==> (c as u32) <= 0x7F,
        char_width(c) == 2 <==> 0x80 <= (c as u32) <= 0x7FF,
        char_width(c) == 3 <==> 0x800 <= (c as u32) <= 0xFFFF,
        char_width(c) == 4 <==> 0x10000 <= (c as u32),
{
    char_is_scalar(c);
}

pub proof fn lemma_encode_concat(a: Seq<char>, b: Seq<char>)
    ensures
        encode_utf8(a + b) == encode_utf8(a) + encode_utf8(b),
    decreases a.len(),
{
    if a.len() == 0 {
        assert(a + b =~= b);
        assert(encode_utf8(a) + encode_utf8(b) =~= encode_utf8(b));
    } else {
        assert((a + b).drop_first() =~= a.drop_first() + b);
        assert((a + b)[0] == a[0]);
        lemma_encode_concat(a.drop_first(), b);
        assert(encode_utf8(a + b) =~= encode_utf8(a) + encode_utf8(b));
    }
}

pub proof fn lemma_encode_single(c: char)
    ensures
        encode_utf8(seq![c]) == encode_scalar(c as u32),
{
    let e = Seq::<char>::empty();
    assert(seq![c].drop_first() =~= e);
    assert(encode_utf8(e) =~= Seq::<u8>::empty());
    assert(seq![c][0] == c);
    assert(encode_utf8(seq![c]) == encode_scalar(c as u32) + encode_utf8(e));
    assert(encode_utf8(seq![c]) =~= encode_scalar(c as u32));
}

pub proof fn lemma_byte_offset_step(cs: Seq<char>, k: int)
    requires
        0 <= k < cs.len(),
    ensures
        byte_offset(cs, k + 1) == byte_offset(cs, k) + char_width(cs[k]),
{
    assert(cs.take(k + 1) =~= cs.take(k) + seq![cs[k]]);
    lemma_encode_concat(cs.take(k), seq![cs[k]]);
    lemma_encode_single(cs[k]);
}

pub proof fn lemma_byte_offset_ends(cs: Seq<char>)
    ensures
        byte_offset(cs, 0) == 0,
        byte_offset(cs, cs.len() as int) == byte_len(cs),
{
    assert(cs.take(0) =~= Seq::<char>::empty());
    assert(cs.take(cs.len() as int) =~= cs);
}

pub proof fn lemma_byte_offset_strict(cs: Seq<char>, j: int, k: int)
    requires
        0 <= j < k <= cs.len(),
    ensures
        byte_offset(cs, j) + (k - j) <= byte_offset(cs, k),
    decreases k - j,
{
    lemma_byte_offset_step(cs, k - 1);
    lemma_scalar_width(cs[k - 1]);
    if j < k - 1 {
        lemma_byte_offset_strict(cs, j, k - 1);
    }
}

pub proof fn lemma_byte_offset_le(cs: Seq<char>, j: int, k: int)
    requires
        0 <= j <= k <= cs.len(),
    ensures
        byte_offset(cs, j) <= byte_offset(cs, k),
{
    if j < k {
        lemma_byte_offset_strict(cs, j, k);
    }
}

/// Boundaries of an encoding are exactly the byte offsets of its characters.
pub proof fn lemma_boundary_iff_offset(cs: Seq<char>, i: int)
    ensures
        is_boundary(cs, i) <==> exists|k: int| 0 <= k <= cs.len() && i == byte_offset(cs, k),
    decreases cs.len(),
{
    let e = encode_utf8(cs);
    encode_utf8_valid_utf8(cs);
    if cs.len() == 0 {
        assert(e =~= Seq::<u8>::empty());
        lemma_byte_offset_ends(cs);
        if is_boundary(cs, i) {
            assert(i == byte_offset(cs, 0));
        }
        if exists|k: int| 0 <= k <= cs.len() && i == byte_offset(cs, k) {
            let k = choose|k: int| 0 <= k <= cs.len() && i == byte_offset(cs, k);
            assert(k == 0);
        }
    } else {
        let rest = cs.drop_first();
        encode_utf8_first_scalar(cs);
        let w = encode_scalar(cs[0] as u32).len() as int;
        lemma_scalar_width(cs[0]);
        assert(pop_first_scalar(e) =~= encode_utf8(rest));
        lemma_boundary_iff_offset(rest, i - w);
        assert forall|k: int| 0 <= k < cs.len() implies byte_offset(cs, k + 1) == w + byte_offset(
            rest,
            k,
        ) by {
            assert(cs.take(k + 1) =~= seq![cs[0]] + rest.take(k));
            lemma_encode_concat(seq![cs[0]], rest.take(k));
            lemma_encode_single(cs[0]);
        }
        lemma_byte_offset_ends(cs);
        if i == 0 {
            assert(is_boundary(cs, i));
            assert(i == byte_offset(cs, 0));
        } else if i < 0 || e.len() < i {
            assert(!is_boundary(cs, i));
            if exists|k: int| 0 <= k <= cs.len() && i == byte_offset(cs, k) {
                let k = choose|k: int| 0 <= k <= cs.len() && i == byte_offset(cs, k);
                lemma_byte_offset_le(cs, k, cs.len() as int);
                lemma_byte_offset_le(cs, 0, k);
                assert(false);
            }
        } else {
            assert(is_boundary(cs, i) == is_boundary(rest, i - w));
            if is_boundary(cs, i) {
                let k = choose|k: int| 0 <= k <= rest.len() && i - w == byte_offset(rest, k);
                assert(i == byte_offset(cs, k + 1));
            }
            if exists|k: int| 0 <= k <= cs.len() && i == byte_offset(cs, k) {
                let k = choose|k: int| 0 <= k <= cs.len() && i == byte_offset(cs, k);
                assert(k != 0);
                assert(i - w == byte_offset(rest, k - 1));
            }
        }
    }
}

pub proof fn lemma_offset_is_boundary(cs: Seq<char>, k: int)
    requires
        0 <= k <= cs.len(),
    ensures
        is_boundary(cs, byte_offset(cs, k)),
{
    lemma_boundary_iff_offset(cs, byte_offset(cs, k));
}

pub proof fn lemma_boundary_index(cs: Seq<char>, i: int) -> (k: int)
    requires
        is_boundary(cs, i),
    ensures
        0 <= k <= cs.len(),
        i == byte_offset(cs, k),
{
    lemma_boundary_iff_offset(cs, i);
    choose|k: int| 0 <= k <= cs.len() && i == byte_offset(cs, k)
}

pub proof fn lemma_ends_are_boundaries(cs: Seq<char>)
    ensures
        is_boundary(cs, 0),
        is_boundary(cs, byte_len(cs)),
{
    lemma_byte_offset_ends(cs);
    lemma_offset_is_boundary(cs, 0);
    lemma_offset_is_boundary(cs, cs.len() as int);
}

pub proof fn lemma_floor_boundary(cs: Seq<char>, o: int)
    ensures
        o >= 0 ==> floor_boundary_spec(cs, o) <= o,
        0 <= floor_boundary_spec(cs, o),
        is_boundary(cs, floor_boundary_spec(cs, o)),
        forall|j: int| floor_boundary_spec(cs, o) < j <= o ==> !is_boundary(cs, j),
    decreases o,
{
    lemma_ends_are_boundaries(cs);
    if o <= 0 {
    } else if is_boundary(cs, o) {
    } else {
        lemma_floor_boundary(cs, o - 1);
    }
}

pub proof fn lemma_floor_of_boundary(cs: Seq<char>, o: int)
    requires
        is_boundary(cs, o),
    ensures
        floor_boundary_spec(cs, o) == o,
{
    lemma_boundary_iff_offset(cs, o);
    let k = choose|k: int| 0 <= k <= cs.len() && o == byte_offset(cs, k);
    lemma_byte_offset_le(cs, 0, k);
    lemma_byte_offset_ends(cs);
}

pub proof fn lemma_ceil_boundary(cs: Seq<char>, k: int)
    requires
        0 <= k,
    ensures
        is_boundary(cs, ceil_boundary_spec(cs, k)),
        k <= byte_len(cs) ==> k <= ceil_boundary_spec(cs, k),
        ceil_boundary_spec(cs, k) <= byte_len(cs),
        forall|j: int| k <= j < ceil_boundary_spec(cs, k) ==> !is_boundary(cs, j),
    decreases byte_len(cs) - k,
{
    lemma_ends_are_boundaries(cs);
    if k >= byte_len(cs) {
    } else if is_boundary(cs, k) {
    } else {
        lemma_ceil_boundary(cs, k + 1);
    }
}

/// Snapping any offset inside character `j` (or at its start) yields its start.
pub proof fn lemma_floor_within(cs: Seq<char>, j: int, x: int)
    requires
        0 <= j < cs.len(),
        byte_offset(cs, j) <= x < byte_offset(cs, j + 1),
    ensures
        floor_boundary_spec(cs, x) == byte_offset(cs, j),
{
    lemma_floor_boundary(cs, x);
    lemma_offset_is_boundary(cs, j);
    lemma_byte_offset_le(cs, 0, j);
    lemma_byte_offset_ends(cs);
    let f = floor_boundary_spec(cs, x);
    let m = lemma_boundary_index(cs, f);
    if m > j {
        lemma_byte_offset_le(cs, j + 1, m);
    }
    if m < j {
        lemma_byte_offset_strict(cs, m, j);
    }
}

/// The first boundary at or after any offset inside character `j` is its end.
pub proof fn lemma_ceil_within(cs: Seq<char>, j: int, x: int)
    requires
        0 <= j < cs.len(),
        byte_offset(cs, j) < x <= byte_offset(cs, j + 1),
    ensures
        ceil_boundary_spec(cs, x) == byte_offset(cs, j + 1),
{
    lemma_byte_offset_le(cs, j + 1, cs.len() as int);
    lemma_byte_offset_ends(cs);
    lemma_ceil_boundary(cs, x);
    lemma_offset_is_boundary(cs, j + 1);
    let c = ceil_boundary_spec(cs, x);
    let m = lemma_boundary_index(cs, c);
    if m < j + 1 {
        lemma_byte_offset_le(cs, m, j);
    }
    if m > j + 1 {
        lemma_byte_offset_strict(cs, j + 1, m);
    }
}

/// Length of `text` in UTF-8 bytes.
pub fn byte_length(text: &str) -> (len: usize)
    ensures
        len == byte_len(text@),
{
    text.as_bytes().len()
}

/// Collects the characters of a string slice.
pub fn chars_vec(text: &str) -> (chars: Vec<char>)
    ensures
        chars@ == text@,
{
    let mut chars: Vec<char> = Vec::new();
    for c in iter: text.chars()
        invariant
            chars@ == iter.seq().take(iter.index() as int),
            iter.seq() == text@,
    {
        chars.push(c);
    }
    chars
}

/// The Unicode `White_Space` property, as `char::is_whitespace` tests it.
pub open spec fn is_whitespace_char(c: char) -> bool {
    let v = c as u32;
    ||| 0x09 <= v <= 0x0D
    ||| v == 0x20
    ||| v == 0x85
    ||| v == 0xA0
    ||| v == 0x1680
    ||| 0x2000 <= v <= 0x200A
    ||| v == 0x2028
    ||| v == 0x2029
    ||| v == 0x202F
    ||| v == 0x205F
    ||| v == 0x3000
}

/// Whether `c` is Unicode white space.
pub fn is_whitespace(c: char) -> (white: bool)
    ensures
        white == is_whitespace_char(c),
{
    let v = c as u32;
    (0x09 <= v && v <= 0x0D) || v == 0x20 || v == 0x85 || v == 0xA0 || v == 0x1680 || (0x2000 <= v
        && v <= 0x200A) || v == 0x2028 || v == 0x2029 || v == 0x202F || v == 0x205F || v == 0x3000
}

} // verus!
