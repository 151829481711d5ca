//! Text as a sequence of characters: whitespace, trimming and comparison.

use vstd::prelude::*;
use vstd::string::StringExecFns;

verus! {

/// The characters of a string, in order.
pub fn chars_of(s: &str) -> (chars: Vec<char>)
    ensures
        chars@ == s@,
{
    broadcast use vstd::string::group_string_axioms;

    let mut chars: Vec<char> = Vec::new();
    for c in it: s.chars()
        invariant
            it.seq() == s@,
            chars@ == s@.take(it.index()),
    {
        chars.push(c);
        assert(s@.take(it.index() + 1) =~= s@.take(it.index()).push(c));
    }
    assert(s@.take(s@.len() as int) =~= s@);
    chars
}

/// Whether `name` is exactly the characters `lo..hi` of `text`.
pub fn matches_range(name: &str, text: &Vec<char>, lo: usize, hi: usize) -> (same: bool)
    requires
        lo <= hi <= text.len(),
    ensures
        same == (name@ == text@.subrange(lo as int, hi as int)),
{
    let name_chars = chars_of(name);
    let ghost range = text@.subrange(lo as int, hi as int);
    if name_chars.len() != hi - lo {
        assert(name@.len() != range.len());
        return false;
    }
    let mut i: usize = 0;
    while i < name_chars.len()
        invariant
            lo <= hi <= text.len(),
            name_chars.len() == hi - lo,
            name_chars@ == name@,
            range == text@.subrange(lo as int, hi as int),
            i <= name_chars.len(),
            forall|j: int| 0 <= j < i ==> name_chars@[j] == text@[lo + j],
        decreases name_chars.len() - i,
    {
        if name_chars[i] != text[lo + i] {
            assert(name@[i as int] != range[i as int]);
            return false;
        }
        i += 1;
    }
    assert(name@ =~= range);
    true
}

/// Whether a character is white space, as Unicode classes it.
pub open spec fn is_space(c: char) -> bool {
    let n = c as u32;
    ||| 0x09 <= n <= 0x0D
    ||| n == 0x20
    ||| n == 0x85
    ||| n == 0xA0
    ||| n == 0x1680
    ||| 0x2000 <= n <= 0x200A
    ||| n == 0x2028
    ||| n == 0x2029
    ||| n == 0x202F
    ||| n == 0x205F
    ||| n == 0x3000
}

/// Whether a character is white space.
pub fn is_space_char(c: char) -> (space: bool)
    ensures
        space == is_space(c),
{
    let n: u32 = c as u32;
    (0x09 <= n && n <= 0x0D) || n == 0x20 || n == 0x85 || n == 0xA0 || n == 0x1680 || (0x2000 <= n
        && n <= 0x200A) || n == 0x2028 || n == 0x2029 || n == 0x202F || n == 0x205F || n == 0x3000
}

/// The text without the white space at its start.
pub open spec fn trim_start(s: Seq<char>) -> Seq<char>
    decreases s.len(),
{
    if s.len() > 0 && is_space(s[0]) {
        trim_start(s.drop_first())
    } else {
        s
    }
}

/// The text without the white space at its end.
pub open spec fn trim_end(s: Seq<char>) -> Seq<char>
    decreases s.len(),
{
    if s.len() > 0 && is_space(s.last()) {
        trim_end(s.drop_last())
    } else {
        s
    }
}

/// The text without the white space at its start and at its end.
pub open spec fn trim(s: Seq<char>) -> Seq<char> {
    trim_end(trim_start(s))
}

/// The position of the first `c` in the text, or the length of the text
/// where it holds none.
pub open spec fn index_of(s: Seq<char>, c: char) -> nat
    decreases s.len(),
{
    if s.len() == 0 || s[0] == c {
        0
    } else {
        1 + index_of(s.drop_first(), c)
    }
}

/// Trims the characters `lo..hi` of `text`: the bounds of what is left.
pub fn trim_range(text: &Vec<char>, lo: usize, hi: usize) -> (bounds: (usize, usize))
    requires
        lo <= hi <= text.len(),
    ensures
        lo <= bounds.0 <= bounds.1 <= hi,
        text@.subrange(bounds.0 as int, bounds.1 as int) == trim(
            text@.subrange(lo as int, hi as int),
        ),
{
    let ghost whole = text@.subrange(lo as int, hi as int);
    let mut start: usize = lo;
    while start < hi && is_space_char(text[start])
        invariant
            lo <= start <= hi <= text.len(),
            trim_start(whole) == trim_start(text@.subrange(start as int, hi as int)),
        decreases hi - start,
    {
        assert(text@.subrange(start as int, hi as int).drop_first() =~= text@.subrange(
            start + 1,
            hi as int,
        ));
        start += 1;
    }
    let ghost front = text@.subrange(start as int, hi as int);
    assert(trim_start(whole) == front);
    let mut end: usize = hi;
    while end > start && is_space_char(text[end - 1])
        invariant
            start <= end <= hi <= text.len(),
            trim_end(front) == trim_end(text@.subrange(start as int, end as int)),
        decreases end - start,
    {
        assert(text@.subrange(start as int, end as int).drop_last() =~= text@.subrange(
            start as int,
            end - 1,
        ));
        end -= 1;
    }
    (start, end)
}

/// Finds the first `c` among the characters `lo..hi` of `text`: its
/// position, or `hi` where there is none.
pub fn find_char(text: &Vec<char>, lo: usize, hi: usize, c: char) -> (pos: usize)
    requires
        lo <= hi <= text.len(),
    ensures
        lo <= pos <= hi,
        pos - lo == index_of(text@.subrange(lo as int, hi as int), c),
{
    let mut pos: usize = lo;
    while pos < hi && text[pos] != c
        invariant
            lo <= pos <= hi <= text.len(),
            index_of(text@.subrange(lo as int, hi as int), c) == (pos - lo) + index_of(
                text@.subrange(pos as int, hi as int),
                c,
            ),
        decreases hi - pos,
    {
        assert(text@.subrange(pos as int, hi as int).drop_first() =~= text@.subrange(
            pos + 1,
            hi as int,
        ));
        pos += 1;
    }
    pos
}

/// The character of a decimal digit.
pub open spec fn digit(d: nat) -> char {
    if d == 0 {
        '0'
    } else if d == 1 {
        '1'
    } else if d == 2 {
        '2'
    } else if d == 3 {
        '3'
    } else if d == 4 {
        '4'
    } else if d == 5 {
        '5'
    } else if d == 6 {
        '6'
    } else if d == 7 {
        '7'
    } else if d == 8 {
        '8'
    } else {
        '9'
    }
}

/// A number in decimal digits, without leading zeros.
pub open spec fn decimal(n: nat) -> Seq<char>
    decreases n,
{
    if n < 10 {
        seq![digit(n)]
    } else {
        decimal(n / 10).push(digit(n % 10))
    }
}

/// The text of a decimal digit.
fn digit_str(d: usize) -> (s: &'static str)
    requires
        d < 10,
    ensures
        s@ == seq![digit(d as nat)],
{
    proof {
        reveal_strlit("0");
        reveal_strlit("1");
        reveal_strlit("2");
        reveal_strlit("3");
        reveal_strlit("4");
        reveal_strlit("5");
        reveal_strlit("6");
        reveal_strlit("7");
        reveal_strlit("8");
        reveal_strlit("9");
    }
    let s = if d == 0 {
        "0"
    } else if d == 1 {
        "1"
    } else if d == 2 {
        "2"
    } else if d == 3 {
        "3"
    } else if d == 4 {
        "4"
    } else if d == 5 {
        "5"
    } else if d == 6 {
        "6"
    } else if d == 7 {
        "7"
    } else if d == 8 {
        "8"
    } else {
        "9"
    };
    assert(s@ =~= seq![digit(d as nat)]);
    s
}

/// Writes a number in decimal digits.
pub fn to_decimal(n: usize) -> (s: String)
    ensures
        s@ == decimal(n as nat),
    decreases n,
{
    if n < 10 {
        String::from_str(digit_str(n))
    } else {
        let mut s = to_decimal(n / 10);
        s.append(digit_str(n % 10));
        assert(s@ =~= decimal((n / 10) as nat).push(digit((n % 10) as nat)));
        s
    }
}

} // verus!
