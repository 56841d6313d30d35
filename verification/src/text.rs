//! Small operations on text that the renderers share.

use vstd::prelude::*;

verus! {

/// The character of the decimal digit `d`.
pub open spec fn digit_char(d: nat) -> char {
    if d == 0 {
        '0'
    } else if d == 1 {
        '1'
    } else if d == 2 {
        '2'
    } else if d == 3 {
        '3'
    } else if d == 4 {
        '4'
    } else if d == 5 {
        '5'
    } else if d == 6 {
        '6'
    } else if d == 7 {
        '7'
    } else if d == 8 {
        '8'
    } else {
        '9'
    }
}

/// The decimal numeral of `n`, without sign or leading zeros.
pub open spec fn decimal_text(n: nat) -> Seq<char>
    decreases n,
{
    if n < 10 {
        seq![digit_char(n)]
    } else {
        decimal_text(n / 10).push(digit_char(n % 10))
    }
}

/// The index of the first character at or after `from` that is not a space,
/// or the length of `s` if there is none.
pub open spec fn skip_spaces(s: Seq<char>, from: int) -> int
    decreases s.len() - from,
{
    if 0 <= from < s.len() && s[from] == ' ' {
        skip_spaces(s, from + 1)
    } else {
        from
    }
}

/// The end of `s` once the spaces that stand directly before `to` are dropped,
/// never going below `floor`.
pub open spec fn drop_spaces(s: Seq<char>, floor: int, to: int) -> int
    decreases to,
{
    if 0 <= floor < to <= s.len() && s[to - 1] == ' ' {
        drop_spaces(s, floor, to - 1)
    } else {
        to
    }
}

/// `s` without the spaces at its two ends.
pub open spec fn trim_spaces(s: Seq<char>) -> Seq<char> {
    let from = skip_spaces(s, 0);
    s.subrange(from, drop_spaces(s, from, s.len() as int))
}

/// `s` followed by a space, unless `s` is empty.
pub open spec fn with_trailing_space(s: Seq<char>) -> Seq<char> {
    if s.len() == 0 {
        s
    } else {
        s + " "@
    }
}

fn digit_str(d: u32) -> (s: &'static str)
    requires
        d < 10,
    ensures
        s@ == seq![digit_char(d as nat)],
{
    proof {
        reveal_strlit("0");
        reveal_strlit("1");
        reveal_strlit("2");
        reveal_strlit("3");
        reveal_strlit("4");
        reveal_strlit("5");
        reveal_strlit("6");
        reveal_strlit("7");
        reveal_strlit("8");
        reveal_strlit("9");
    }
    let s = if d == 0 {
        "0"
    } else if d == 1 {
        "1"
    } else if d == 2 {
        "2"
    } else if d == 3 {
        "3"
    } else if d == 4 {
        "4"
    } else if d == 5 {
        "5"
    } else if d == 6 {
        "6"
    } else if d == 7 {
        "7"
    } else if d == 8 {
        "8"
    } else {
        "9"
    };
    assert(s@ =~= seq![digit_char(d as nat)]);
    s
}

/// Renders `n` in decimal.
pub fn decimal(n: u32) -> (s: String)
    ensures
        s@ == decimal_text(n as nat),
    decreases n,
{
    if n < 10 {
        String::from_str(digit_str(n))
    } else {
        let mut s = decimal(n / 10);
        s.append(digit_str(n % 10));
        assert(s@ =~= decimal_text(n as nat));
        s
    }
}

/// Removes the spaces at the two ends of `s`.
pub fn trim(s: &str) -> (trimmed: String)
    ensures
        trimmed@ == trim_spaces(s@),
{
    let len = s.unicode_len();
    let mut from: usize = 0;
    while from < len && s.get_char(from) == ' '
        invariant
            len == s@.len(),
            from <= len,
            skip_spaces(s@, 0) == skip_spaces(s@, from as int),
        decreases len - from,
    {
        from = from + 1;
    }
    let mut to: usize = len;
    while from < to && s.get_char(to - 1) == ' '
        invariant
            len == s@.len(),
            from <= to <= len,
            drop_spaces(s@, from as int, len as int) == drop_spaces(s@, from as int, to as int),
        decreases to,
    {
        to = to - 1;
    }
    String::from_str(s.substring_char(from, to))
}

/// Whether `s` begins with `c`.
pub fn starts_with_char(s: &str, c: char) -> (found: bool)
    ensures
        found == (s@.len() > 0 && s@[0] == c),
{
    if s.unicode_len() == 0 {
        false
    } else {
        s.get_char(0) == c
    }
}

/// The last character of `s`, if it has one.
pub fn last_char(s: &str) -> (last: Option<char>)
    ensures
        last == if s@.len() == 0 {
            None
        } else {
            Some(s@.last())
        },
{
    let len = s.unicode_len();
    if len == 0 {
        None
    } else {
        Some(s.get_char(len - 1))
    }
}

/// Appends a space to `name`, unless it is empty.
pub fn fix_return(name: String) -> (fixed: String)
    ensures
        fixed@ == with_trailing_space(name@),
{
    let mut name = name;
    if name.as_str().unicode_len() != 0 {
        name.append(" ");
    }
    name
}

} // verus!
