//! Decimal rendering of integers for user-facing messages.

use vstd::prelude::*;

verus! {

/// The ASCII digit for `d < 10`.
pub open spec fn digit_char(d: nat) -> char {
    (48 + d) as char
}

/// Shortest decimal representation of `n`, as `Display` writes it for unsigned integers.
pub open spec fn decimal_spec(n: nat) -> Seq<char>
    decreases n,
{
    if n < 10 {
        seq![digit_char(n)]
    } else {
        decimal_spec(n / 10).push(digit_char(n % 10))
    }
}

/// Appends `c` to `text` (`String::push`).
#[verifier::external_body]
pub(crate) fn push_char(text: &mut String, c: char)
    ensures
        final(text)@ == old(text)@.push(c),
{
    text.push(c);
}

/// The ASCII digit of `d < 10`.
fn digit(d: u64) -> (c: char)
    requires
        d < 10,
    ensures
        c == digit_char(d as nat),
{
    let code: u8 = d as u8 + 48;
    code as char
}

/// Appends `n` in decimal to `text`.
pub fn append_decimal(text: &mut String, n: u64)
    ensures
        final(text)@ == old(text)@ + decimal_spec(n as nat),
    decreases n,
{
    if n >= 10 {
        append_decimal(text, n / 10);
    }
    push_char(text, digit(n % 10));
    assert(text@ =~= old(text)@ + decimal_spec(n as nat));
}

/// `n` in decimal (`usize`'s `Display`).
pub(crate) fn decimal(n: usize) -> (text: String)
    ensures
        text@ == decimal_spec(n as nat),
{
    let mut text = String::new();
    append_decimal(&mut text, n as u64);
    proof {
        assert(text@ =~= decimal_spec(n as nat));
    }
    text
}

} // verus!

verus! {

/// Whether two strings hold the same characters.
pub fn str_eq(a: &str, b: &str) -> (equal: bool)
    ensures
        equal == (a@ == b@),
{
    let left = crate::utf8_text::chars_vec(a);
    let right = crate::utf8_text::chars_vec(b);
    if left.len() != right.len() {
        return false;
    }
    let mut index: usize = 0;
    while index < left.len()
        invariant
            left@ == a@,
            right@ == b@,
            left@.len() == right@.len(),
            0 <= index <= left@.len(),
            forall|i: int| 0 <= i < index ==> left@[i] == right@[i],
        decreases left@.len() - index,
    {
        if left[index] != right[index] {
            return false;
        }
        index = index + 1;
    }
    proof {
        assert(a@ =~= b@);
    }
    true
}

/// Whether `text` begins with `prefix`.
pub fn starts_with(text: &str, prefix: &str) -> (starts: bool)
    ensures
        starts == (prefix@.len() <= text@.len() && text@.take(prefix@.len() as int) == prefix@),
{
    let chars = crate::utf8_text::chars_vec(text);
    let head = crate::utf8_text::chars_vec(prefix);
    if head.len() > chars.len() {
        return false;
    }
    let mut index: usize = 0;
    while index < head.len()
        invariant
            chars@ == text@,
            head@ == prefix@,
            head@.len() <= chars@.len(),
            0 <= index <= head@.len(),
            forall|i: int| 0 <= i < index ==> chars@[i] == head@[i],
        decreases head@.len() - index,
    {
        if chars[index] != head[index] {
            proof {
                assert(text@.take(prefix@.len() as int)[index as int] != prefix@[index as int]);
            }
            return false;
        }
        index = index + 1;
    }
    proof {
        assert(text@.take(prefix@.len() as int) =~= prefix@);
    }
    true
}

/// `before`, then `n` in decimal, then `after`.
pub fn with_number(before: &str, n: usize, after: &str) -> (text: String)
    ensures
        text@ == before@ + decimal_spec(n as nat) + after@,
{
    let mut text = before.to_owned();
    let number = decimal(n);
    text.append(number.as_str());
    text.append(after);
    text
}

/// `a`, `m` in decimal, `b`, `n` in decimal, then `c`.
pub fn with_two_numbers(a: &str, m: usize, b: &str, n: usize, c: &str) -> (text: String)
    ensures
        text@ == a@ + decimal_spec(m as nat) + b@ + decimal_spec(n as nat) + c@,
{
    let mut text = with_number(a, m, b);
    let number = decimal(n);
    text.append(number.as_str());
    text.append(c);
    text
}

} // verus!
