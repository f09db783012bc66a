//! Work on text as vectors of characters: upper case, white space, the
//! pieces between delimiters, and decimal numbers.

use vstd::prelude::*;

verus! {

/// The code point of a character.
pub fn code_of(c: char) -> (code: u32)
    ensures
        code as int == c as int,
{
    c as u32
}

/// The characters of a string slice, in order.
pub fn chars_of(s: &str) -> (chars: Vec<char>)
    ensures
        chars@ == s@,
{
    let n: usize = s.unicode_len();
    let mut chars: Vec<char> = Vec::new();
    let mut i: usize = 0;
    while i < n
        invariant
            n == s@.len(),
            i <= n,
            chars@ == s@.subrange(0, i as int),
        decreases n - i,
    {
        let c = s.get_char(i);
        chars.push(c);
        proof {
            assert(chars@ =~= s@.subrange(0, i + 1));
        }
        i = i + 1;
    }
    proof {
        assert(s@.subrange(0, n as int) =~= s@);
    }
    chars
}

/// `String::push` appends one character to the end of the string.
#[verifier::external_body]
fn push_char(text: &mut String, c: char)
    ensures
        final(text)@ == old(text)@.push(c),
{
    text.push(c);
}

/// The characters `chars[from..to]`, as a vector of their own.
pub fn slice_of(chars: &Vec<char>, from: usize, to: usize) -> (part: Vec<char>)
    requires
        from <= to <= chars@.len(),
    ensures
        part@ == chars@.subrange(from as int, to as int),
{
    let mut part: Vec<char> = Vec::new();
    let mut i: usize = from;
    while i < to
        invariant
            from <= i <= to <= chars@.len(),
            part@ == chars@.subrange(from as int, i as int),
        decreases to - i,
    {
        part.push(chars[i]);
        proof {
            assert(part@ =~= chars@.subrange(from as int, i + 1));
        }
        i = i + 1;
    }
    part
}

/// The string made of the characters `chars[from..to]`.
pub fn string_of(chars: &Vec<char>, from: usize, to: usize) -> (text: String)
    requires
        from <= to <= chars@.len(),
    ensures
        text@ == chars@.subrange(from as int, to as int),
{
    let mut text = String::new();
    let mut i: usize = from;
    while i < to
        invariant
            from <= i <= to <= chars@.len(),
            text@ == chars@.subrange(from as int, i as int),
        decreases to - i,
    {
        push_char(&mut text, chars[i]);
        proof {
            assert(text@ =~= chars@.subrange(from as int, i + 1));
        }
        i = i + 1;
    }
    text
}

/// Whether the characters are exactly those of `pattern`.
pub fn same_text(chars: &Vec<char>, pattern: &str) -> (same: bool)
    ensures
        same == (chars@ == pattern@),
{
    let n: usize = pattern.unicode_len();
    if chars.len() != n {
        return false;
    }
    let mut i: usize = 0;
    while i < n
        invariant
            n == pattern@.len(),
            n == chars@.len(),
            i <= n,
            chars@.subrange(0, i as int) == pattern@.subrange(0, i as int),
        decreases n - i,
    {
        if chars[i] != pattern.get_char(i) {
            return false;
        }
        proof {
            assert(chars@.subrange(0, i + 1) =~= chars@.subrange(0, i as int).push(chars@[i as int]));
            assert(pattern@.subrange(0, i + 1) =~= pattern@.subrange(0, i as int).push(
                pattern@[i as int],
            ));
        }
        i = i + 1;
    }
    proof {
        assert(chars@ =~= chars@.subrange(0, n as int));
        assert(pattern@ =~= pattern@.subrange(0, n as int));
    }
    true
}

/// The upper-case form of an ASCII letter; any other character is itself.
pub open spec fn ascii_upper_char(c: char) -> char {
    if 'a' <= c <= 'z' {
        ((c as int - 32) as u8) as char
    } else {
        c
    }
}

/// An ASCII text with each small letter replaced by its capital.
pub open spec fn ascii_upper(s: Seq<char>) -> Seq<char> {
    Seq::new(s.len(), |i: int| ascii_upper_char(s[i]))
}

/// What `str::to_uppercase` returns for the text `s`.
pub uninterp spec fn uppercase_of(s: Seq<char>) -> Seq<char>;

/// `str::to_uppercase` returns the upper-case equivalent of the text as a new
/// string. The result is a function of the text alone; nothing more is claimed
/// of it here.
#[verifier::external_body]
fn unicode_upper(s: &str) -> (upper: String)
    ensures
        upper@ == uppercase_of(s@),
{
    s.to_uppercase()
}

/// The text that the name tables are matched against: an ASCII text with its
/// letters capitalised, any other text as the standard library upper-cases it.
pub open spec fn upper_form(s: Seq<char>) -> Seq<char> {
    if vstd::utf8::is_ascii_chars(s) {
        ascii_upper(s)
    } else {
        uppercase_of(s)
    }
}

/// Whether every character is an ASCII character.
pub fn all_ascii(chars: &Vec<char>) -> (ascii: bool)
    ensures
        ascii == vstd::utf8::is_ascii_chars(chars@),
{
    let mut i: usize = 0;
    while i < chars.len()
        invariant
            i <= chars@.len(),
            forall|j: int| 0 <= j < i ==> '\0' <= #[trigger] chars@[j] <= '\u{7f}',
        decreases chars@.len() - i,
    {
        let code: u32 = code_of(chars[i]);
        if code > 0x7f {
            return false;
        }
        i = i + 1;
    }
    true
}

/// The upper-case form of a text.
pub fn to_upper(chars: &Vec<char>) -> (upper: Vec<char>)
    ensures
        upper@ == upper_form(chars@),
{
    if all_ascii(chars) {
        let mut upper: Vec<char> = Vec::new();
        let mut i: usize = 0;
        while i < chars.len()
            invariant
                i <= chars@.len(),
                vstd::utf8::is_ascii_chars(chars@),
                upper@.len() == i,
                forall|j: int| 0 <= j < i ==> #[trigger] upper@[j] == ascii_upper_char(chars@[j]),
            decreases chars@.len() - i,
        {
            let c = chars[i];
            let code: u32 = code_of(c);
            if 0x61 <= code && code <= 0x7a {
                let b: u8 = (code - 32) as u8;
                upper.push(b as char);
            } else {
                upper.push(c);
            }
            i = i + 1;
        }
        proof {
            assert(upper@ =~= ascii_upper(chars@));
        }
        upper
    } else {
        let text = string_of(chars, 0, chars.len());
        proof {
            assert(chars@.subrange(0, chars@.len() as int) =~= chars@);
        }
        let upper = unicode_upper(text.as_str());
        chars_of(upper.as_str())
    }
}

/// Whether a character is white space: one of the characters with the
/// Unicode property White_Space.
pub open spec fn is_space(c: char) -> bool {
    let code = c as int;
    ||| 0x09 <= code <= 0x0d
    ||| code == 0x20
    ||| code == 0x85
    ||| code == 0xa0
    ||| code == 0x1680
    ||| 0x2000 <= code <= 0x200a
    ||| code == 0x2028
    ||| code == 0x2029
    ||| code == 0x202f
    ||| code == 0x205f
    ||| code == 0x3000
}

/// Whether a character is white space.
pub fn is_whitespace(c: char) -> (space: bool)
    ensures
        space == is_space(c),
{
    let code: u32 = code_of(c);
    (0x09 <= code && code <= 0x0d) || code == 0x20 || code == 0x85 || code == 0xa0 || code
        == 0x1680 || (0x2000 <= code && code <= 0x200a) || code == 0x2028 || code == 0x2029
        || code == 0x202f || code == 0x205f || code == 0x3000
}

/// The number of white-space characters that `s` starts with.
pub open spec fn leading_spaces(s: Seq<char>) -> int
    decreases s.len(),
{
    if s.len() == 0 || !is_space(s[0]) {
        0
    } else {
        1 + leading_spaces(s.drop_first())
    }
}

/// The number of white-space characters that `s` ends with.
pub open spec fn trailing_spaces(s: Seq<char>) -> int
    decreases s.len(),
{
    if s.len() == 0 || !is_space(s.last()) {
        0
    } else {
        1 + trailing_spaces(s.drop_last())
    }
}

/// The text without the white space that it starts and ends with.
pub open spec fn trimmed(s: Seq<char>) -> Seq<char> {
    let from = leading_spaces(s);
    let rest = s.subrange(from, s.len() as int);
    rest.subrange(0, rest.len() - trailing_spaces(rest))
}

/// The bounds of the trimmed part of `chars[from..to]`: the part without
/// the white space that it starts and ends with.
pub fn trim_bounds(chars: &Vec<char>, from: usize, to: usize) -> (bounds: (usize, usize))
    requires
        from <= to <= chars@.len(),
    ensures
        from <= bounds.0 <= bounds.1 <= to,
        chars@.subrange(bounds.0 as int, bounds.1 as int) == trimmed(
            chars@.subrange(from as int, to as int),
        ),
{
    let ghost part = chars@.subrange(from as int, to as int);
    let mut lo: usize = from;
    while lo < to && is_whitespace(chars[lo])
        invariant
            from <= lo <= to <= chars@.len(),
            leading_spaces(part) == (lo - from) + leading_spaces(
                chars@.subrange(lo as int, to as int),
            ),
        decreases to - lo,
    {
        proof {
            let here = chars@.subrange(lo as int, to as int);
            assert(here.drop_first() =~= chars@.subrange(lo + 1, to as int));
        }
        lo = lo + 1;
    }
    let ghost rest = chars@.subrange(lo as int, to as int);
    proof {
        assert(leading_spaces(rest) == 0);
        assert(part.subrange(lo - from, part.len() as int) =~= rest);
    }
    let mut hi: usize = to;
    while hi > lo && is_whitespace(chars[hi - 1])
        invariant
            lo <= hi <= to <= chars@.len(),
            trailing_spaces(rest) == (to - hi) + trailing_spaces(
                chars@.subrange(lo as int, hi as int),
            ),
        decreases hi - lo,
    {
        proof {
            let here = chars@.subrange(lo as int, hi as int);
            assert(here.drop_last() =~= chars@.subrange(lo as int, hi - 1));
        }
        hi = hi - 1;
    }
    proof {
        assert(trailing_spaces(chars@.subrange(lo as int, hi as int)) == 0);
        assert(rest.subrange(0, rest.len() - trailing_spaces(rest)) =~= chars@.subrange(
            lo as int,
            hi as int,
        ));
    }
    (lo, hi)
}

/// The length of the piece that `s` starts with: the number of characters
/// before the first `delim`, or all of them where `s` holds none.
pub open spec fn piece_len(s: Seq<char>, delim: char) -> int
    decreases s.len(),
{
    if s.len() == 0 || s[0] == delim {
        0
    } else {
        1 + piece_len(s.drop_first(), delim)
    }
}

/// The end of the piece that starts at `from`: the position of the next
/// `delim`, or the end of `chars[..to]`.
pub fn piece_end(chars: &Vec<char>, from: usize, to: usize, delim: char) -> (end: usize)
    requires
        from <= to <= chars@.len(),
    ensures
        from <= end <= to,
        end - from == piece_len(chars@.subrange(from as int, to as int), delim),
{
    let mut end: usize = from;
    while end < to && chars[end] != delim
        invariant
            from <= end <= to <= chars@.len(),
            piece_len(chars@.subrange(from as int, to as int), delim) == (end - from) + piece_len(
                chars@.subrange(end as int, to as int),
                delim,
            ),
        decreases to - end,
    {
        proof {
            let here = chars@.subrange(end as int, to as int);
            assert(here.drop_first() =~= chars@.subrange(end + 1, to as int));
        }
        end = end + 1;
    }
    end
}

/// The decimal digit for a number below ten.
pub open spec fn digit_char(d: int) -> char {
    (d + 0x30) as char
}

/// The decimal form of a number.
pub open spec fn decimal(n: nat) -> Seq<char>
    decreases n,
{
    if n < 10 {
        seq![digit_char(n as int)]
    } else {
        decimal(n / 10).push(digit_char(n as int % 10))
    }
}

/// The decimal form of a number.
pub fn decimal_of(n: u128) -> (digits: Vec<char>)
    ensures
        digits@ == decimal(n as nat),
{
    let mut backwards: Vec<char> = Vec::new();
    let mut left: u128 = n;
    while left >= 10
        invariant
            decimal(n as nat) == decimal(left as nat) + backwards@.reverse(),
        decreases left,
    {
        let d: u8 = (left % 10) as u8;
        let ghost before = backwards@;
        backwards.push((d + 0x30) as char);
        proof {
            assert(decimal(left as nat) == decimal(left as nat / 10).push(
                digit_char(left as int % 10),
            ));
            assert(backwards@.reverse() =~= seq![digit_char(left as int % 10)]
                + before.reverse());
            assert(decimal(left as nat) + before.reverse() =~= decimal(left as nat / 10)
                + backwards@.reverse());
        }
        left = left / 10;
    }
    let d: u8 = left as u8;
    let mut digits: Vec<char> = Vec::new();
    digits.push((d + 0x30) as char);
    let mut i: usize = backwards.len();
    while i > 0
        invariant
            i <= backwards@.len(),
            digits@ == decimal(left as nat) + backwards@.reverse().subrange(
                0,
                backwards@.len() - i,
            ),
        decreases i,
    {
        i = i - 1;
        digits.push(backwards[i]);
        proof {
            assert(digits@ =~= decimal(left as nat) + backwards@.reverse().subrange(
                0,
                backwards@.len() - i,
            ));
        }
    }
    proof {
        assert(backwards@.reverse().subrange(0, backwards@.len() as int)
            =~= backwards@.reverse());
    }
    digits
}

/// Appends the characters to the vector.
pub fn append_chars(to: &mut Vec<char>, chars: &Vec<char>)
    ensures
        final(to)@ == old(to)@ + chars@,
{
    let mut i: usize = 0;
    while i < chars.len()
        invariant
            i <= chars@.len(),
            to@ == old(to)@ + chars@.subrange(0, i as int),
        decreases chars@.len() - i,
    {
        to.push(chars[i]);
        proof {
            assert(to@ =~= old(to)@ + chars@.subrange(0, i + 1));
        }
        i = i + 1;
    }
    proof {
        assert(chars@.subrange(0, chars@.len() as int) =~= chars@);
    }
}

} // verus!
