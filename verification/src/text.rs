//! Text helpers: conversions between strings and character vectors, and
//! decimal rendering of unsigned integers.

use vstd::prelude::*;
use vstd::string::StringExecFns;

verus! {

/// Appends `c` to `s`.
///
/// Stands for `String::push`, of which it claims that the characters of the
/// string afterwards are those before followed by `c`.
#[verifier::external_body]
pub(crate) fn push_char(s: &mut String, c: char)
    ensures
        final(s)@ == old(s)@.push(c),
{
    s.push(c)
}

/// Whether `a` and `b` hold the same characters.
pub fn same_text(a: &str, b: &str) -> (r: bool)
    ensures
        r == (a@ == b@),
{
    a.to_owned() == b.to_owned()
}

/// The characters of `s`, in order.
pub fn chars_of(s: &str) -> (v: Vec<char>)
    ensures
        v@ == s@,
{
    let mut v: Vec<char> = Vec::new();
    for c in it: s.chars()
        invariant
            it.seq() == s@,
            v@ == s@.take(it.index() as int),
    {
        v.push(c);
        assert(s@.take(it.index() + 1) =~= s@.take(it.index() as int).push(c));
    }
    assert(s@.take(s@.len() as int) =~= s@);
    v
}

/// The string made of `chars[from..to]`.
pub fn text_of(chars: &Vec<char>, from: usize, to: usize) -> (s: String)
    requires
        from <= to <= chars@.len(),
    ensures
        s@ == chars@.subrange(from as int, to as int),
{
    let mut s = String::new();
    let mut i: usize = from;
    while i < to
        invariant
            from <= i <= to <= chars@.len(),
            s@ == chars@.subrange(from as int, i as int),
        decreases to - i,
    {
        push_char(&mut s, chars[i]);
        i += 1;
        assert(chars@.subrange(from as int, i as int) =~= chars@.subrange(from as int, i - 1).push(
            chars@[i - 1],
        ));
    }
    s
}

/// The character of the decimal digit `d`.
pub open spec fn digit(d: nat) -> char {
    if d == 0 {
        '0'
    } else if d == 1 {
        '1'
    } else if d == 2 {
        '2'
    } else if d == 3 {
        '3'
    } else if d == 4 {
        '4'
    } else if d == 5 {
        '5'
    } else if d == 6 {
        '6'
    } else if d == 7 {
        '7'
    } else if d == 8 {
        '8'
    } else {
        '9'
    }
}

/// The decimal form of `n`: no sign, no leading zero but for zero itself.
pub open spec fn decimal(n: nat) -> Seq<char>
    decreases n,
{
    if n < 10 {
        seq![digit(n)]
    } else {
        decimal(n / 10).push(digit(n % 10))
    }
}

fn digit_of(d: usize) -> (c: char)
    requires
        d < 10,
    ensures
        c == digit(d as nat),
{
    if d == 0 {
        '0'
    } else if d == 1 {
        '1'
    } else if d == 2 {
        '2'
    } else if d == 3 {
        '3'
    } else if d == 4 {
        '4'
    } else if d == 5 {
        '5'
    } else if d == 6 {
        '6'
    } else if d == 7 {
        '7'
    } else if d == 8 {
        '8'
    } else {
        '9'
    }
}

/// The decimal form of `n`.
pub fn decimal_text(n: usize) -> (s: String)
    ensures
        s@ == decimal(n as nat),
    decreases n,
{
    if n < 10 {
        let mut s = String::new();
        push_char(&mut s, digit_of(n));
        assert(s@ =~= seq![digit(n as nat)]);
        s
    } else {
        let mut s = decimal_text(n / 10);
        push_char(&mut s, digit_of(n % 10));
        s
    }
}

/// The text `s` without its first `bounds_len` and its last `bounds_len`
/// characters.
pub fn trim_bounds(s: &str, bounds_len: usize) -> (r: String)
    requires
        2 * bounds_len <= s@.len(),
    ensures
        r@ == s@.subrange(bounds_len as int, s@.len() - bounds_len),
{
    let chars = chars_of(s);
    text_of(&chars, bounds_len, chars.len() - bounds_len)
}


/// `count` times the character `fill`.
pub open spec fn filling(count: int, fill: char) -> Seq<char> {
    Seq::new(
        if count > 0 {
            count as nat
        } else {
            0
        },
        |i: int| fill,
    )
}

/// `text`, put to the right in a field of `width` characters. A text that
/// is wider than the field stays as it is.
pub open spec fn right_aligned(text: Seq<char>, width: nat, fill: char) -> Seq<char> {
    filling(width - text.len(), fill) + text
}

/// `text`, put to the left in a field of `width` characters.
pub open spec fn left_aligned(text: Seq<char>, width: nat, fill: char) -> Seq<char> {
    text + filling(width - text.len(), fill)
}

fn fill_up(s: &mut String, count: usize, fill: char)
    ensures
        final(s)@ == old(s)@ + filling(count as int, fill),
{
    let mut i: usize = 0;
    while i < count
        invariant
            i <= count,
            s@ == old(s)@ + filling(i as int, fill),
        decreases count - i,
    {
        push_char(s, fill);
        i += 1;
        assert(old(s)@ + filling(i as int, fill) =~= (old(s)@ + filling(i - 1, fill)).push(fill));
    }
}

/// `text`, put to the right in a field of `width` characters.
pub fn align_right(text: &str, width: usize, fill: char) -> (s: String)
    ensures
        s@ == right_aligned(text@, width as nat, fill),
{
    let len = chars_of(text).len();
    let mut s = String::new();
    if len < width {
        fill_up(&mut s, width - len, fill);
    }
    s.append(text);
    assert(s@ =~= right_aligned(text@, width as nat, fill));
    s
}

/// `text`, put to the left in a field of `width` characters.
pub fn align_left(text: &str, width: usize, fill: char) -> (s: String)
    ensures
        s@ == left_aligned(text@, width as nat, fill),
{
    let len = chars_of(text).len();
    let mut s = text.to_owned();
    if len < width {
        fill_up(&mut s, width - len, fill);
    }
    assert(s@ =~= left_aligned(text@, width as nat, fill));
    s
}

} // verus!
