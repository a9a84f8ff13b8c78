//! Measuring and padding text.
//!
//! Lengths are counted in bytes of UTF-8, not in characters: a column is as
//! wide as the longest of its cells is long in bytes, and cells are padded
//! to that many bytes.

use vstd::prelude::*;
use vstd::utf8::encode_utf8;
use vstd::utf8::is_ascii_chars;
use vstd::utf8::is_ascii_chars_encode_utf8;

verus! {

/// The length of a text as the table measures it: the number of bytes in
/// its UTF-8 form.
pub open spec fn length(text: Seq<char>) -> nat {
    encode_utf8(text).len()
}

/// `count` copies of `fill` in a row.
pub open spec fn run(fill: char, count: nat) -> Seq<char> {
    Seq::new(count, |i: int| fill)
}

/// `text` followed by as many spaces as it takes to reach `width`; `text`
/// itself where it is already that long or longer.
pub open spec fn padded(text: Seq<char>, width: nat) -> Seq<char> {
    if length(text) <= width {
        text + run(' ', (width - length(text)) as nat)
    } else {
        text
    }
}

/// Appends `count` copies of the one-character text `fill` to `out`.
pub(crate) fn push_run(out: &mut String, fill: &str, count: usize)
    requires
        fill@.len() == 1,
    ensures
        final(out)@ == old(out)@ + run(fill@[0], count as nat),
{
    let mut done: usize = 0;
    while done < count
        invariant
            done <= count,
            fill@.len() == 1,
            out@ == old(out)@ + run(fill@[0], done as nat),
        decreases count - done,
    {
        out.append(fill);
        done = done + 1;
    }
}

/// The length of `text`, in bytes.
pub fn measure(text: &str) -> (len: usize)
    ensures
        len == length(text@),
{
    text.as_bytes().len()
}

/// Pads `text` with trailing spaces to `width` bytes.
pub fn pad(text: &str, width: usize) -> (cell: String)
    ensures
        cell@ == padded(text@, width as nat),
{
    let mut cell = String::from_str(text);
    let len: usize = measure(text);
    if len < width {
        proof {
            reveal_strlit(" ");
        }
        push_run(&mut cell, " ", width - len);
    }
    cell
}

/// The UTF-8 form of two texts in a row is the form of the first followed by
/// the form of the second.
proof fn encode_add(front: Seq<char>, back: Seq<char>)
    ensures
        encode_utf8(front + back) == encode_utf8(front) + encode_utf8(back),
    decreases front.len(),
{
    if front.len() == 0 {
        assert(front + back =~= back);
        assert(encode_utf8(front) + encode_utf8(back) =~= encode_utf8(back));
    } else {
        assert((front + back).drop_first() =~= front.drop_first() + back);
        encode_add(front.drop_first(), back);
        assert(encode_utf8(front + back) =~= encode_utf8(front) + encode_utf8(back));
    }
}

/// Lengths add up.
pub proof fn length_add(front: Seq<char>, back: Seq<char>)
    ensures
        length(front + back) == length(front) + length(back),
{
    encode_add(front, back);
}

/// A text is at least as long as it has characters.
pub proof fn length_covers_chars(text: Seq<char>)
    ensures
        text.len() <= length(text),
    decreases text.len(),
{
    if text.len() > 0 {
        length_covers_chars(text.drop_first());
    }
}

/// A text of ASCII characters is as long as it has characters.
pub proof fn length_of_ascii(text: Seq<char>)
    requires
        is_ascii_chars(text),
    ensures
        length(text) == text.len(),
{
    is_ascii_chars_encode_utf8(text);
}

/// A text padded to a width that it fits in is exactly that long; one that
/// does not fit keeps its length.
pub proof fn padded_length(text: Seq<char>, width: nat)
    ensures
        length(padded(text, width)) == if length(text) <= width { width } else { length(text) },
{
    if length(text) <= width {
        length_add(text, run(' ', (width - length(text)) as nat));
        length_of_ascii(run(' ', (width - length(text)) as nat));
    }
}

} // verus!
