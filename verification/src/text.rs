//! Text as sequences of characters: white space and trimming, prefixes,
//! search, and decimal numbers.

use vstd::prelude::*;

verus! {

/// Whether `c` is white space: one of the code points with the Unicode
/// property `White_Space`.
pub open spec fn is_whitespace(c: char) -> bool {
    let u = c as u32;
    ||| 0x09 <= u <= 0x0D
    ||| u == 0x20
    ||| u == 0x85
    ||| u == 0xA0
    ||| u == 0x1680
    ||| 0x2000 <= u <= 0x200A
    ||| u == 0x2028
    ||| u == 0x2029
    ||| u == 0x202F
    ||| u == 0x205F
    ||| u == 0x3000
}

/// `s` without the white space that it begins with.
pub open spec fn trim_start(s: Seq<char>) -> Seq<char>
    decreases s.len(),
{
    if s.len() > 0 && is_whitespace(s.first()) {
        trim_start(s.drop_first())
    } else {
        s
    }
}

/// `s` without the white space that it ends with.
pub open spec fn trim_end(s: Seq<char>) -> Seq<char>
    decreases s.len(),
{
    if s.len() > 0 && is_whitespace(s.last()) {
        trim_end(s.drop_last())
    } else {
        s
    }
}

/// `s` without the white space at its two ends.
pub open spec fn trim(s: Seq<char>) -> Seq<char> {
    trim_end(trim_start(s))
}

/// Whether `text` begins with `prefix`.
pub open spec fn starts_with(text: Seq<char>, prefix: Seq<char>) -> bool {
    prefix.len() <= text.len() && text.take(prefix.len() as int) == prefix
}

/// Whether `needle` stands at position `at` of `text`.
pub open spec fn occurs_at(text: Seq<char>, needle: Seq<char>, at: int) -> bool {
    0 <= at && at + needle.len() <= text.len() && text.subrange(at, at + needle.len()) == needle
}

/// Whether `needle` stands somewhere in `text`.
pub open spec fn contains(text: Seq<char>, needle: Seq<char>) -> bool {
    exists|at: int| occurs_at(text, needle, at)
}

/// Whether `c` is one of the decimal digits `0` to `9`.
pub open spec fn is_digit(c: char) -> bool {
    0x30 <= c as u32 <= 0x39
}

/// Whether `s` is made of decimal digits only.
pub open spec fn all_digits(s: Seq<char>) -> bool {
    forall|i: int| 0 <= i < s.len() ==> is_digit(#[trigger] s[i])
}

/// The number that the digits `s` write in base ten.
pub open spec fn digits_value(s: Seq<char>) -> nat
    decreases s.len(),
{
    if s.len() == 0 {
        0
    } else {
        digits_value(s.drop_last()) * 10 + (s.last() as u32 - 0x30) as nat
    }
}

/// The number that `s` writes: one or more decimal digits, which a single `+`
/// may precede. `None` for any other text: the empty one, one with a blank, a
/// `-` or a letter in it.
pub open spec fn decimal(s: Seq<char>) -> Option<nat> {
    let digits = if s.len() > 0 && s.first() == '+' {
        s.drop_first()
    } else {
        s
    };
    if digits.len() > 0 && all_digits(digits) {
        Some(digits_value(digits))
    } else {
        None
    }
}

/// The number that `s` writes, where it writes one that is at most `limit`.
pub open spec fn decimal_up_to(s: Seq<char>, limit: nat) -> Option<nat> {
    match decimal(s) {
        Some(n) => if n <= limit {
            Some(n)
        } else {
            None
        },
        None => None,
    }
}

/// The character that writes the digit `d`.
pub open spec fn digit_char(d: nat) -> char
    recommends
        d < 10,
{
    (0x30 + d) as u8 as char
}

/// `n` written in decimal: its digits, the highest first, and no other
/// character.
pub open spec fn digits_of(n: nat) -> Seq<char>
    decreases n,
{
    if n < 10 {
        seq![digit_char(n)]
    } else {
        digits_of(n / 10).push(digit_char(n % 10))
    }
}

/// The white space at the start of `s` is a prefix: trimming the start leaves
/// what follows the first character that is no white space.
proof fn lemma_trim_start(s: Seq<char>, lead: int)
    requires
        0 <= lead <= s.len(),
        forall|i: int| 0 <= i < lead ==> is_whitespace(#[trigger] s[i]),
        lead < s.len() ==> !is_whitespace(s[lead]),
    ensures
        trim_start(s) == s.skip(lead),
    decreases lead,
{
    if lead > 0 {
        let rest = s.drop_first();
        assert forall|i: int| 0 <= i < lead - 1 implies is_whitespace(#[trigger] rest[i]) by {}
        lemma_trim_start(rest, lead - 1);
    }
}

/// The white space at the end of `s` is a suffix: trimming the end leaves what
/// precedes it.
proof fn lemma_trim_end(s: Seq<char>, end: int)
    requires
        0 <= end <= s.len(),
        forall|i: int| end <= i < s.len() ==> is_whitespace(#[trigger] s[i]),
        end > 0 ==> !is_whitespace(s[end - 1]),
    ensures
        trim_end(s) == s.take(end),
    decreases s.len() - end,
{
    if end < s.len() {
        lemma_trim_end(s.drop_last(), end);
    }
}

/// The characters of `text`, one by one.
pub fn chars_of(text: &str) -> (chars: Vec<char>)
    ensures
        chars@ == text@,
{
    let mut chars: Vec<char> = Vec::new();
    for c in it: text.chars()
        invariant
            it.seq() == text@,
            chars@ == text@.take(it.index()),
    {
        chars.push(c);
    }
    chars
}

/// Whether `c` is white space.
pub fn char_is_whitespace(c: char) -> (b: bool)
    ensures
        b == is_whitespace(c),
{
    let u: u32 = c as u32;
    (0x09 <= u && u <= 0x0D) || u == 0x20 || u == 0x85 || u == 0xA0 || u == 0x1680 || (0x2000 <= u
        && u <= 0x200A) || u == 0x2028 || u == 0x2029 || u == 0x202F || u == 0x205F || u == 0x3000
}

/// Where the trimmed text stands in `text`: from the first bound up to, but
/// without, the second.
pub fn trim_bounds(text: &[char]) -> (bounds: (usize, usize))
    ensures
        bounds.0 <= bounds.1 <= text@.len(),
        text@.subrange(bounds.0 as int, bounds.1 as int) == trim(text@),
{
    let mut start: usize = 0;
    while start < text.len() && char_is_whitespace(text[start])
        invariant
            start <= text.len(),
            forall|i: int| 0 <= i < start ==> is_whitespace(#[trigger] text@[i]),
        decreases text.len() - start,
    {
        start += 1;
    }
    let mut end: usize = text.len();
    while end > start && char_is_whitespace(text[end - 1])
        invariant
            start <= end <= text.len(),
            forall|i: int| end <= i < text.len() ==> is_whitespace(#[trigger] text@[i]),
        decreases end,
    {
        end -= 1;
    }
    proof {
        let s = text@;
        lemma_trim_start(s, start as int);
        let rest = s.skip(start as int);
        assert forall|i: int| end - start <= i < rest.len() implies is_whitespace(
            #[trigger] rest[i],
        ) by {}
        lemma_trim_end(rest, end - start);
    }
    (start, end)
}

/// Whether `needle` stands at position `at` of `text`.
pub fn stands_at(text: &[char], needle: &[char], at: usize) -> (b: bool)
    ensures
        b == occurs_at(text@, needle@, at as int),
{
    if at > text.len() || needle.len() > text.len() - at {
        return false;
    }
    let mut k: usize = 0;
    while k < needle.len()
        invariant
            k <= needle.len(),
            at + needle.len() <= text.len(),
            forall|j: int| 0 <= j < k ==> text@[at + j] == #[trigger] needle@[j],
        decreases needle.len() - k,
    {
        if text[at + k] != needle[k] {
            return false;
        }
        k += 1;
    }
    proof {
        assert(text@.subrange(at as int, at + needle.len()) =~= needle@);
    }
    true
}

/// Whether `needle` stands somewhere in `text`.
pub fn find(text: &[char], needle: &[char]) -> (found: bool)
    ensures
        found == contains(text@, needle@),
{
    if needle.len() > text.len() {
        return false;
    }
    let last: usize = text.len() - needle.len();
    let mut at: usize = 0;
    while at < last
        invariant
            last == text.len() - needle.len(),
            at <= last,
            forall|i: int| 0 <= i < at ==> !occurs_at(text@, needle@, i),
        decreases last - at,
    {
        if stands_at(text, needle, at) {
            return true;
        }
        at += 1;
    }
    stands_at(text, needle, last)
}

/// Reads `text` as a decimal number that is at most `limit`.
pub fn parse_decimal(text: &str, limit: u64) -> (number: Option<u64>)
    ensures
        match number {
            Some(n) => decimal_up_to(text@, limit as nat) == Some(n as nat),
            None => decimal_up_to(text@, limit as nat) is None,
        },
{
    let chars = chars_of(text);
    let first: usize = if chars.len() > 0 && chars[0] == '+' {
        1
    } else {
        0
    };
    if chars.len() == first {
        return None;
    }
    let ghost digits = chars@.skip(first as int);
    let mut value: u64 = 0;
    let mut exceeded = false;
    let mut i: usize = first;
    while i < chars.len()
        invariant
            first <= i <= chars.len(),
            digits == chars@.skip(first as int),
            digits.len() > 0,
            digits == if text@.len() > 0 && text@.first() == '+' {
                text@.drop_first()
            } else {
                text@
            },
            all_digits(digits.take(i - first)),
            exceeded ==> digits_value(digits.take(i - first)) > limit,
            !exceeded ==> value == digits_value(digits.take(i - first)) && value <= limit,
        decreases chars.len() - i,
    {
        let c: u32 = chars[i] as u32;
        if c < 0x30 || c > 0x39 {
            proof {
                assert(digits[i - first] == chars@[i as int]);
            }
            return None;
        }
        let d: u64 = (c - 0x30) as u64;
        proof {
            let before = digits.take(i - first);
            let now = digits.take(i - first + 1);
            assert(now.drop_last() =~= before);
            assert forall|k: int| 0 <= k < now.len() implies is_digit(#[trigger] now[k]) by {}
        }
        if !exceeded {
            if d > limit || value > (limit - d) / 10 {
                exceeded = true;
            } else {
                value = value * 10 + d;
            }
        }
        i += 1;
    }
    proof {
        assert(digits.take(chars.len() - first) =~= digits);
    }
    if exceeded {
        None
    } else {
        Some(value)
    }
}

/// The text of one digit.
fn digit_text(d: u64) -> (text: &'static str)
    requires
        d < 10,
    ensures
        text@ == seq![digit_char(d as nat)],
{
    proof {
        reveal_strlit("0");
        reveal_strlit("1");
        reveal_strlit("2");
        reveal_strlit("3");
        reveal_strlit("4");
        reveal_strlit("5");
        reveal_strlit("6");
        reveal_strlit("7");
        reveal_strlit("8");
        reveal_strlit("9");
    }
    let text = if d == 0 {
        "0"
    } else if d == 1 {
        "1"
    } else if d == 2 {
        "2"
    } else if d == 3 {
        "3"
    } else if d == 4 {
        "4"
    } else if d == 5 {
        "5"
    } else if d == 6 {
        "6"
    } else if d == 7 {
        "7"
    } else if d == 8 {
        "8"
    } else {
        "9"
    };
    text
}

/// Writes `n` in decimal.
pub fn decimal_text(n: u64) -> (text: String)
    ensures
        text@ == digits_of(n as nat),
    decreases n,
{
    if n < 10 {
        digit_text(n).to_owned()
    } else {
        let mut text = decimal_text(n / 10);
        text.append(digit_text(n % 10));
        text
    }
}

/// What `decimal_text` writes reads back as the number written.
pub proof fn lemma_decimal_round_trip(n: nat)
    ensures
        digits_of(n).len() > 0,
        all_digits(digits_of(n)),
        digits_value(digits_of(n)) == n,
        decimal(digits_of(n)) == Some(n),
    decreases n,
{
    let text = digits_of(n);
    if n < 10 {
        assert(digits_value(text.drop_last()) == 0);
    } else {
        lemma_decimal_round_trip(n / 10);
        let before = digits_of(n / 10);
        assert(text.drop_last() =~= before);
        assert forall|i: int| 0 <= i < text.len() implies is_digit(#[trigger] text[i]) by {}
    }
}

} // verus!
