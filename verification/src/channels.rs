//! The written form of the channel allow-list: channel identifiers
//! separated by commas, each with optional white space around it.
//!
//! Reading is lenient. A piece that is not a number, or does not fit in
//! 64 bits, is skipped; the pieces that are numbers are kept in order.

use vstd::prelude::*;

verus! {

/// White space, as Unicode defines it.
pub open spec fn is_space(c: char) -> bool {
    c == ' ' || c == '\t' || c == '\n' || c == '\u{b}' || c == '\u{c}' || c == '\r' || c
        == '\u{85}' || c == '\u{a0}' || c == '\u{1680}' || c == '\u{2000}' || c == '\u{2001}' || c
        == '\u{2002}' || c == '\u{2003}' || c == '\u{2004}' || c == '\u{2005}' || c == '\u{2006}'
        || c == '\u{2007}' || c == '\u{2008}' || c == '\u{2009}' || c == '\u{200a}' || c
        == '\u{2028}' || c == '\u{2029}' || c == '\u{202f}' || c == '\u{205f}' || c == '\u{3000}'
}

/// The value of a decimal digit.
pub open spec fn digit_of(c: char) -> Option<int> {
    if c == '0' {
        Some(0int)
    } else if c == '1' {
        Some(1int)
    } else if c == '2' {
        Some(2int)
    } else if c == '3' {
        Some(3int)
    } else if c == '4' {
        Some(4int)
    } else if c == '5' {
        Some(5int)
    } else if c == '6' {
        Some(6int)
    } else if c == '7' {
        Some(7int)
    } else if c == '8' {
        Some(8int)
    } else if c == '9' {
        Some(9int)
    } else {
        None
    }
}

/// The number of white-space characters at the start of a text.
pub open spec fn leading_spaces(s: Seq<char>) -> int
    decreases s.len(),
{
    if s.len() > 0 && is_space(s.first()) {
        1 + leading_spaces(s.drop_first())
    } else {
        0
    }
}

/// The number of white-space characters at the end of a text.
pub open spec fn trailing_spaces(s: Seq<char>) -> int
    decreases s.len(),
{
    if s.len() > 0 && is_space(s.last()) {
        1 + trailing_spaces(s.drop_last())
    } else {
        0
    }
}

/// A text without the white space at its two ends.
pub open spec fn trimmed(s: Seq<char>) -> Seq<char> {
    let rest = s.skip(leading_spaces(s));
    rest.take(rest.len() - trailing_spaces(rest))
}

/// The number that a run of decimal digits writes; `None` where a
/// character is no digit. The empty run writes zero.
pub open spec fn value_of(digits: Seq<char>) -> Option<int>
    decreases digits.len(),
{
    if digits.len() == 0 {
        Some(0int)
    } else {
        match (value_of(digits.drop_last()), digit_of(digits.last())) {
            (Some(v), Some(d)) => Some(v * 10 + d),
            _ => None,
        }
    }
}

/// The identifier that a run of digits writes: it has at least one digit,
/// and its value fits in 64 bits.
pub open spec fn number(digits: Seq<char>) -> Option<u64> {
    match value_of(digits) {
        Some(v) => if digits.len() > 0 && v <= u64::MAX {
            Some(v as u64)
        } else {
            None
        },
        None => None,
    }
}

/// The identifier that a text writes: an optional plus sign, then a run
/// of digits.
pub open spec fn numeral(t: Seq<char>) -> Option<u64> {
    if t.len() > 0 && t[0] == '+' {
        number(t.drop_first())
    } else {
        number(t)
    }
}

/// The identifier that one piece of the list writes, white space aside.
pub open spec fn parse_id(piece: Seq<char>) -> Option<u64> {
    numeral(trimmed(piece))
}

/// The place of the last comma in a text, or -1 where it has none.
pub open spec fn last_comma(s: Seq<char>) -> int
    decreases s.len(),
{
    if s.len() == 0 {
        -1
    } else if s.last() == ',' {
        s.len() - 1
    } else {
        last_comma(s.drop_last())
    }
}

/// The identifiers that a list writes: those of its pieces that write one,
/// in order. The pieces are what lies between the commas.
pub open spec fn channel_ids(s: Seq<char>) -> Seq<u64>
    decreases s.len(),
{
    let k = last_comma(s);
    let before = if 0 <= k < s.len() {
        channel_ids(s.take(k))
    } else {
        Seq::empty()
    };
    match parse_id(s.skip(k + 1)) {
        Some(id) => before.push(id),
        None => before,
    }
}

/// The white space at the start of a text ends at the first character
/// that is none.
pub proof fn lemma_leading_spaces(s: Seq<char>, n: int)
    requires
        0 <= n <= s.len(),
        forall|j: int| 0 <= j < n ==> is_space(#[trigger] s[j]),
        n < s.len() ==> !is_space(s[n]),
    ensures
        leading_spaces(s) == n,
    decreases n,
{
    if n > 0 {
        let rest = s.drop_first();
        assert forall|j: int| 0 <= j < n - 1 implies is_space(#[trigger] rest[j]) by {
            assert(rest[j] == s[j + 1]);
        }
        lemma_leading_spaces(rest, n - 1);
    }
}

/// The white space at the end of a text starts after the last character
/// that is none.
pub proof fn lemma_trailing_spaces(s: Seq<char>, n: int)
    requires
        0 <= n <= s.len(),
        forall|j: int| s.len() - n <= j < s.len() ==> is_space(#[trigger] s[j]),
        n < s.len() ==> !is_space(s[s.len() - n - 1]),
    ensures
        trailing_spaces(s) == n,
    decreases n,
{
    if n > 0 {
        let rest = s.drop_last();
        assert forall|j: int| rest.len() - (n - 1) <= j < rest.len() implies is_space(
            #[trigger] rest[j],
        ) by {
            assert(rest[j] == s[j]);
        }
        lemma_trailing_spaces(rest, n - 1);
    }
}

/// A longer run of digits writes no smaller number, and a run with a
/// character that is no digit writes none however it goes on.
pub proof fn lemma_value_grows(digits: Seq<char>, k: int)
    requires
        0 <= k <= digits.len(),
    ensures
        match value_of(digits.take(k)) {
            Some(v) => v >= 0 && (value_of(digits) matches Some(w) ==> w >= v),
            None => value_of(digits) is None,
        },
    decreases digits.len() - k,
{
    if k < digits.len() {
        lemma_value_grows(digits, k + 1);
        assert(digits.take(k + 1).drop_last() =~= digits.take(k));
        lemma_value_is_natural(digits.take(k));
    } else {
        assert(digits.take(k) =~= digits);
        lemma_value_is_natural(digits);
    }
}

/// The number that a run of digits writes is not negative.
pub proof fn lemma_value_is_natural(digits: Seq<char>)
    ensures
        value_of(digits) matches Some(v) ==> v >= 0,
    decreases digits.len(),
{
    if digits.len() > 0 {
        lemma_value_is_natural(digits.drop_last());
    }
}

/// Whether a character is white space.
fn space(c: char) -> (r: bool)
    ensures
        r == is_space(c),
{
    c == ' ' || c == '\t' || c == '\n' || c == '\u{b}' || c == '\u{c}' || c == '\r' || c
        == '\u{85}' || c == '\u{a0}' || c == '\u{1680}' || c == '\u{2000}' || c == '\u{2001}' || c
        == '\u{2002}' || c == '\u{2003}' || c == '\u{2004}' || c == '\u{2005}' || c == '\u{2006}'
        || c == '\u{2007}' || c == '\u{2008}' || c == '\u{2009}' || c == '\u{200a}' || c
        == '\u{2028}' || c == '\u{2029}' || c == '\u{202f}' || c == '\u{205f}' || c == '\u{3000}'
}

/// The value of a character as a decimal digit.
fn digit(c: char) -> (r: Option<u64>)
    ensures
        match r {
            Some(d) => digit_of(c) == Some(d as int) && d <= 9,
            None => digit_of(c) is None,
        },
{
    if c == '0' {
        Some(0)
    } else if c == '1' {
        Some(1)
    } else if c == '2' {
        Some(2)
    } else if c == '3' {
        Some(3)
    } else if c == '4' {
        Some(4)
    } else if c == '5' {
        Some(5)
    } else if c == '6' {
        Some(6)
    } else if c == '7' {
        Some(7)
    } else if c == '8' {
        Some(8)
    } else if c == '9' {
        Some(9)
    } else {
        None
    }
}

/// Reads the number that the characters from `start` to `end` write.
fn read_numeral(chars: &Vec<char>, start: usize, end: usize) -> (r: Option<u64>)
    requires
        start <= end <= chars@.len(),
    ensures
        r == numeral(chars@.subrange(start as int, end as int)),
{
    let ghost t = chars@.subrange(start as int, end as int);
    let mut from = start;
    if start < end && chars[start] == '+' {
        assert(t[0] == chars@[start as int]);
        from = start + 1;
    } else if start < end {
        assert(t[0] == chars@[start as int]);
    }
    let ghost digits = chars@.subrange(from as int, end as int);
    proof {
        if from > start {
            assert(digits =~= t.drop_first());
        } else {
            assert(digits =~= t);
        }
    }
    if from == end {
        return None;
    }
    let mut value: u64 = 0;
    let mut i = from;
    assert(digits.take(0) =~= Seq::<char>::empty());
    while i < end
        invariant
            start <= from <= i <= end <= chars@.len(),
            from < end,
            digits == chars@.subrange(from as int, end as int),
            numeral(chars@.subrange(start as int, end as int)) == number(digits),
            value_of(digits.take(i - from)) == Some(value as int),
        decreases end - i,
    {
        proof {
            assert(digits.take(i - from + 1).drop_last() =~= digits.take(i - from));
            assert(digits.take(i - from + 1).last() == chars@[i as int]);
            lemma_value_grows(digits, i - from + 1);
        }
        let d = match digit(chars[i]) {
            Some(d) => d,
            None => {
                return None;
            },
        };
        if value > (u64::MAX - d) / 10 {
            return None;
        }
        value = value * 10 + d;
        i = i + 1;
    }
    assert(digits.take(i - from) =~= digits);
    Some(value)
}

/// Reads the identifier that the characters from `start` to `end` write,
/// white space aside.
fn read_piece(chars: &Vec<char>, start: usize, end: usize) -> (r: Option<u64>)
    requires
        start <= end <= chars@.len(),
    ensures
        r == parse_id(chars@.subrange(start as int, end as int)),
{
    let ghost piece = chars@.subrange(start as int, end as int);
    let mut lo = start;
    while lo < end && space(chars[lo])
        invariant
            start <= lo <= end <= chars@.len(),
            forall|j: int| start <= j < lo ==> is_space(#[trigger] chars@[j]),
        decreases end - lo,
    {
        lo = lo + 1;
    }
    let mut hi = end;
    while hi > lo && space(chars[hi - 1])
        invariant
            lo <= hi <= end <= chars@.len(),
            forall|j: int| hi <= j < end ==> is_space(#[trigger] chars@[j]),
        decreases hi - lo,
    {
        hi = hi - 1;
    }
    proof {
        assert forall|j: int| 0 <= j < lo - start implies is_space(#[trigger] piece[j]) by {
            assert(piece[j] == chars@[start + j]);
        }
        if lo < end {
            assert(piece[lo - start] == chars@[lo as int]);
        }
        lemma_leading_spaces(piece, lo - start);
        let rest = piece.skip(lo - start);
        assert(rest =~= chars@.subrange(lo as int, end as int));
        assert forall|j: int| rest.len() - (end - hi) <= j < rest.len() implies is_space(
            #[trigger] rest[j],
        ) by {
            assert(rest[j] == chars@[lo + j]);
        }
        if end - hi < rest.len() {
            assert(rest[rest.len() - (end - hi) - 1] == chars@[hi - 1]);
        }
        lemma_trailing_spaces(rest, end - hi);
        assert(trimmed(piece) =~= chars@.subrange(lo as int, hi as int));
    }
    read_numeral(chars, lo, hi)
}

/// The characters of a text.
fn chars_of(text: &str) -> (r: Vec<char>)
    ensures
        r@ == text@,
{
    let n = text.unicode_len();
    let mut r: Vec<char> = Vec::new();
    let mut i: usize = 0;
    while i < n
        invariant
            0 <= i <= n,
            n == text@.len(),
            r@ == text@.take(i as int),
        decreases n - i,
    {
        r.push(text.get_char(i));
        assert(r@ =~= text@.take(i + 1));
        i = i + 1;
    }
    assert(text@.take(n as int) =~= text@);
    r
}

/// Reads a list of channel identifiers: the numbers among the pieces
/// between the commas, in order. White space around a number is allowed,
/// and so is a plus sign before it; every other piece is skipped.
pub fn parse_channel_ids(text: &str) -> (r: Vec<u64>)
    ensures
        r@ == channel_ids(text@),
{
    let chars = chars_of(text);
    let ghost s = chars@;
    let n = chars.len();
    let mut out: Vec<u64> = Vec::new();
    let mut start: usize = 0;
    let mut i: usize = 0;
    assert(s.take(0) =~= Seq::<char>::empty());
    while i < n
        invariant
            0 <= start <= i <= n,
            n == s.len(),
            s == chars@,
            last_comma(s.take(i as int)) == start - 1,
            start == 0 ==> out@ == Seq::<u64>::empty(),
            start > 0 ==> out@ == channel_ids(s.take(start - 1)),
        decreases n - i,
    {
        proof {
            assert(s.take(i + 1).drop_last() =~= s.take(i as int));
            assert(s.take(i + 1).last() == s[i as int]);
        }
        if chars[i] == ',' {
            let found = read_piece(&chars, start, i);
            proof {
                let head = s.take(i as int);
                assert(head.skip(start as int) =~= s.subrange(start as int, i as int));
                if start > 0 {
                    assert(head.take(start - 1) =~= s.take(start - 1));
                }
            }
            match found {
                Some(id) => out.push(id),
                None => {},
            }
            start = i + 1;
        }
        i = i + 1;
    }
    let found = read_piece(&chars, start, n);
    proof {
        assert(s.take(n as int) =~= s);
        assert(s.skip(start as int) =~= s.subrange(start as int, n as int));
    }
    match found {
        Some(id) => out.push(id),
        None => {},
    }
    out
}

} // verus!
