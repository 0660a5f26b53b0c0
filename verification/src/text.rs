//! Text as characters: from `str` to a vector of characters and back to
//! `String`.

use vstd::prelude::*;

verus! {

/// `String::push`: the text grows by the one character.
#[verifier::external_body]
fn push_char(text: &mut String, c: char)
    ensures
        final(text)@ == old(text)@.push(c),
{
    text.push(c);
}

/// `char::from_u32`: the character with the given code, where the code is a
/// Unicode scalar value, that is, no surrogate and at most `0x10FFFF`.
#[verifier::external_body]
pub(crate) fn scalar_from(code: u32) -> (c: Option<char>)
    ensures
        c == if code <= 0xD7FF || 0xE000 <= code <= 0x10FFFF {
            Some(code as char)
        } else {
            None::<char>
        },
{
    char::from_u32(code)
}

/// `==` on `str`: whether the two hold the same characters.
#[verifier::external_body]
pub(crate) fn same_text(left: &str, right: &str) -> (same: bool)
    ensures
        same == (left@ == right@),
{
    left == right
}

/// The characters of `text`, in order.
pub fn to_chars(text: &str) -> (chars: Vec<char>)
    ensures
        chars@ == text@,
{
    let mut chars: Vec<char> = Vec::new();
    for c in it: text.chars()
        invariant
            chars@ == it.seq().take(it.index() as int),
            it.seq() == text@,
    {
        chars.push(c);
    }
    chars
}

/// The characters `from..to` of `chars`, as a `String`.
pub fn text_of(chars: &Vec<char>, from: usize, to: usize) -> (text: String)
    requires
        from <= to <= chars.len(),
    ensures
        text@ == chars@.subrange(from as int, to as int),
{
    let mut text = String::new();
    let mut pos: usize = from;
    while pos < to
        invariant
            from <= pos <= to <= chars.len(),
            text@ == chars@.subrange(from as int, pos as int),
        decreases to - pos,
    {
        push_char(&mut text, chars[pos]);
        pos = pos + 1;
    }
    text
}

} // verus!
