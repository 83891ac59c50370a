//! Hexadecimal and decimal text, white space and times of day.

use vstd::prelude::*;
use vstd::string::{StringExecFns, StrSliceExecFns};
use vstd::utf8::{decode_utf8, valid_utf8};

verus! {

/// The hexadecimal digit of `n`.
pub open spec fn hex_digit(n: int) -> char {
    if n < 10 {
        ('0' as int + n) as char
    } else {
        ('a' as int + n - 10) as char
    }
}

/// Two lower-case hexadecimal digits for each byte.
pub open spec fn hex_text(data: Seq<u8>) -> Seq<char> {
    Seq::new(
        2 * data.len(),
        |i: int|
            if i % 2 == 0 {
                hex_digit(data[i / 2] as int / 16)
            } else {
                hex_digit(data[i / 2] as int % 16)
            },
    )
}

/// `hex::encode`: two lower-case hexadecimal digits for each byte, the high
/// half first.
#[verifier::external_body]
pub(crate) fn hex_encode(data: &[u8]) -> (r: String)
    ensures
        r@ == hex_text(data@),
{
    hex::encode(data)
}

/// The decimal digits of `n`.
pub open spec fn decimal_text(n: nat) -> Seq<char>
    decreases n,
{
    if n < 10 {
        seq![hex_digit(n as int)]
    } else {
        decimal_text(n / 10).push(hex_digit((n % 10) as int))
    }
}

/// One decimal digit.
fn digit(d: u64) -> (s: &'static str)
    requires
        d < 10,
    ensures
        s@ == seq![hex_digit(d as int)],
{
    proof {
        reveal_strlit("0");
        reveal_strlit("1");
        reveal_strlit("2");
        reveal_strlit("3");
        reveal_strlit("4");
        reveal_strlit("5");
        reveal_strlit("6");
        reveal_strlit("7");
        reveal_strlit("8");
        reveal_strlit("9");
    }
    let s = match d {
        0 => "0",
        1 => "1",
        2 => "2",
        3 => "3",
        4 => "4",
        5 => "5",
        6 => "6",
        7 => "7",
        8 => "8",
        _ => "9",
    };
    assert(s@ =~= seq![hex_digit(d as int)]);
    s
}

/// The decimal digits of `n`.
pub fn decimal(n: u64) -> (s: String)
    ensures
        s@ == decimal_text(n as nat),
    decreases n,
{
    if n < 10 {
        return String::from_str(digit(n));
    }
    let mut s = decimal(n / 10);
    s.append(digit(n % 10));
    assert(s@ =~= decimal_text(n as nat));
    s
}

/// Two texts, one after the other.
pub fn join2(a: &str, b: &str) -> (s: String)
    ensures
        s@ == a@ + b@,
{
    let mut s = String::from_str(a);
    s.append(b);
    s
}

/// Three texts, one after the other.
pub fn join3(a: &str, b: &str, c: &str) -> (s: String)
    ensures
        s@ == a@ + b@ + c@,
{
    let mut s = join2(a, b);
    s.append(c);
    s
}

/// Whether two texts are the same.
pub fn same_text(a: &str, b: &str) -> (same: bool)
    ensures
        same == (a@ == b@),
{
    let n: usize = a.unicode_len();
    if n != b.unicode_len() {
        return false;
    }
    let mut i: usize = 0;
    while i < n
        invariant
            i <= n,
            n == a@.len(),
            n == b@.len(),
            forall|j: int| 0 <= j < i ==> a@[j] == b@[j],
        decreases n - i,
    {
        if a.get_char(i) != b.get_char(i) {
            return false;
        }
        i += 1;
    }
    assert(a@ =~= b@);
    true
}

/// Whether a character has the Unicode property `White_Space`.
pub open spec fn is_white(c: char) -> bool {
    let n = c as u32;
    9 <= n <= 13 || n == 0x20 || n == 0x85 || n == 0xa0 || n == 0x1680 || 0x2000 <= n <= 0x200a || n
        == 0x2028 || n == 0x2029 || n == 0x202f || n == 0x205f || n == 0x3000
}

/// A text without the white space in front.
pub open spec fn trim_front(s: Seq<char>) -> Seq<char>
    decreases s.len(),
{
    if s.len() > 0 && is_white(s[0]) {
        trim_front(s.skip(1))
    } else {
        s
    }
}

/// A text without the white space at the end.
pub open spec fn trim_back(s: Seq<char>) -> Seq<char>
    decreases s.len(),
{
    if s.len() > 0 && is_white(s.last()) {
        trim_back(s.drop_last())
    } else {
        s
    }
}

/// A text without the white space around it.
pub open spec fn trimmed(s: Seq<char>) -> Seq<char> {
    trim_back(trim_front(s))
}

/// Whether a character has the Unicode property `White_Space`.
fn white(c: char) -> (r: bool)
    ensures
        r == is_white(c),
{
    let n: u32 = c as u32;
    (n >= 9 && n <= 13) || n == 0x20 || n == 0x85 || n == 0xa0 || n == 0x1680 || (n >= 0x2000 && n
        <= 0x200a) || n == 0x2028 || n == 0x2029 || n == 0x202f || n == 0x205f || n == 0x3000
}

/// Where the white space in front ends.
proof fn trim_front_at(s: Seq<char>, i: int)
    requires
        0 <= i <= s.len(),
        forall|j: int| 0 <= j < i ==> is_white(s[j]),
        i < s.len() ==> !is_white(s[i]),
    ensures
        trim_front(s) == s.skip(i),
    decreases i,
{
    if i > 0 {
        let t = s.skip(1);
        assert forall|j: int| 0 <= j < i - 1 implies is_white(t[j]) by {
            assert(t[j] == s[j + 1]);
        }
        trim_front_at(t, i - 1);
        assert(t.skip(i - 1) =~= s.skip(i));
    } else {
        assert(s.skip(0) =~= s);
    }
}

/// Where the white space at the end begins.
proof fn trim_back_at(s: Seq<char>, i: int)
    requires
        0 <= i <= s.len(),
        forall|j: int| i <= j < s.len() ==> is_white(s[j]),
        i > 0 ==> !is_white(s[i - 1]),
    ensures
        trim_back(s) == s.take(i),
    decreases s.len(),
{
    if i < s.len() {
        let t = s.drop_last();
        trim_back_at(t, i);
        assert(t.take(i) =~= s.take(i));
    } else {
        assert(s.take(i) =~= s);
    }
}

/// A text without the white space around it.
pub fn trim(s: &str) -> (r: &str)
    ensures
        r@ == trimmed(s@),
{
    let n: usize = s.unicode_len();
    let mut a: usize = 0;
    while a < n && white(s.get_char(a))
        invariant
            a <= n,
            n == s@.len(),
            forall|j: int| 0 <= j < a ==> is_white(s@[j]),
        decreases n - a,
    {
        a += 1;
    }
    proof {
        trim_front_at(s@, a as int);
    }
    let mut b: usize = n;
    while b > a && white(s.get_char(b - 1))
        invariant
            a <= b <= n,
            n == s@.len(),
            forall|j: int| b <= j < n ==> is_white(s@[j]),
        decreases b,
    {
        b -= 1;
    }
    let r = s.substring_char(a, b);
    proof {
        let front = s@.skip(a as int);
        assert forall|j: int| b - a <= j < front.len() implies is_white(front[j]) by {
            assert(front[j] == s@[j + a]);
        }
        trim_back_at(front, b - a);
        assert(front.take(b - a) =~= r@);
    }
    r
}

/// Two decimal digits.
pub open spec fn two_digits(n: int) -> Seq<char> {
    seq![hex_digit(n / 10), hex_digit(n % 10)]
}

/// A time of day as `HH:MM:SS`.
pub open spec fn clock_text(hour: int, minute: int, second: int) -> Seq<char> {
    two_digits(hour) + ":"@ + two_digits(minute) + ":"@ + two_digits(second)
}

/// Two decimal digits.
fn pad2(n: u64) -> (s: String)
    requires
        n < 100,
    ensures
        s@ == two_digits(n as int),
{
    let s = join2(digit(n / 10), digit(n % 10));
    assert(s@ =~= two_digits(n as int));
    s
}

/// The time of day, in UTC, of a moment in seconds since the Unix epoch.
pub fn time_of_day(now: u64) -> (s: String)
    ensures
        s@ == clock_text(
            now as int % 86400 / 3600,
            now as int % 86400 % 3600 / 60,
            now as int % 86400 % 60,
        ),
{
    let secs: u64 = now % 86400;
    let h: u64 = secs / 3600;
    let m: u64 = (secs % 3600) / 60;
    let sec: u64 = secs % 60;
    let mut s = join2(pad2(h).as_str(), ":");
    s.append(pad2(m).as_str());
    s.append(":");
    s.append(pad2(sec).as_str());
    s
}

/// The number that decimal digits say.
pub open spec fn number_said(s: Seq<char>) -> int
    decreases s.len(),
{
    if s.len() == 0 {
        0
    } else {
        10 * number_said(s.drop_last()) + (s.last() as int - '0' as int)
    }
}

/// The decimal digits of a number are digits that say it, with no zero in front.
pub proof fn decimal_text_says_the_number(n: nat)
    ensures
        decimal_text(n).len() > 0,
        number_said(decimal_text(n)) == n,
        forall|i: int|
            0 <= i < decimal_text(n).len() ==> '0' as int <= (#[trigger] decimal_text(n)[i]) as int
                <= '9' as int,
        n > 0 ==> decimal_text(n)[0] != '0',
    decreases n,
{
    if n < 10 {
        assert(decimal_text(n).drop_last() =~= seq![]);
        reveal_with_fuel(number_said, 2);
    } else {
        decimal_text_says_the_number(n / 10);
        assert(decimal_text(n).drop_last() =~= decimal_text(n / 10));
        assert forall|i: int| 0 <= i < decimal_text(n).len() implies '0' as int <= (
        #[trigger] decimal_text(n)[i]) as int <= '9' as int by {
            if i < decimal_text(n).len() - 1 {
                assert(decimal_text(n)[i] == decimal_text(n / 10)[i]);
            }
        }
        assert(decimal_text(n)[0] == decimal_text(n / 10)[0]);
    }
}

/// A time of day says its hour, its minute and its second, in two digits each.
pub proof fn clock_text_says_the_time(hour: int, minute: int, second: int)
    requires
        0 <= hour < 100,
        0 <= minute < 100,
        0 <= second < 100,
    ensures
        clock_text(hour, minute, second).len() == 8,
        clock_text(hour, minute, second)[2] == ':',
        clock_text(hour, minute, second)[5] == ':',
        number_said(clock_text(hour, minute, second).subrange(0, 2)) == hour,
        number_said(clock_text(hour, minute, second).subrange(3, 5)) == minute,
        number_said(clock_text(hour, minute, second).subrange(6, 8)) == second,
{
    reveal_strlit(":");
    let t = clock_text(hour, minute, second);
    assert(t.subrange(0, 2) =~= two_digits(hour));
    assert(t.subrange(3, 5) =~= two_digits(minute));
    assert(t.subrange(6, 8) =~= two_digits(second));
    two_digits_say_the_number(hour);
    two_digits_say_the_number(minute);
    two_digits_say_the_number(second);
}

/// Two digits say their number.
proof fn two_digits_say_the_number(n: int)
    requires
        0 <= n < 100,
    ensures
        number_said(two_digits(n)) == n,
{
    reveal_with_fuel(number_said, 3);
    assert(two_digits(n).drop_last() =~= seq![hex_digit(n / 10)]);
    assert(two_digits(n).drop_last().drop_last() =~= seq![]);
}

/// The characters that are white space.
pub proof fn white_space_characters(c: char)
    ensures
        is_white(c) == (c == '\t' || c == '\n' || c == '\u{b}' || c == '\u{c}' || c == '\r' || c == ' '
            || c == '\u{85}' || c == '\u{a0}' || c == '\u{1680}' || c == '\u{2000}' || c == '\u{2001}'
            || c == '\u{2002}' || c == '\u{2003}' || c == '\u{2004}' || c == '\u{2005}' || c
            == '\u{2006}' || c == '\u{2007}' || c == '\u{2008}' || c == '\u{2009}' || c == '\u{200a}'
            || c == '\u{2028}' || c == '\u{2029}' || c == '\u{202f}' || c == '\u{205f}' || c
            == '\u{3000}'),
{
}

/// How much white space is in front of a text.
proof fn white_in_front(s: Seq<char>) -> (n: int)
    ensures
        0 <= n <= s.len(),
        trim_front(s) == s.skip(n),
        forall|i: int| 0 <= i < n ==> is_white(#[trigger] s[i]),
        n < s.len() ==> !is_white(s[n]),
    decreases s.len(),
{
    if s.len() > 0 && is_white(s[0]) {
        let m = white_in_front(s.skip(1));
        assert(s.skip(1).skip(m) =~= s.skip(m + 1));
        assert forall|i: int| 0 <= i < m + 1 implies is_white(#[trigger] s[i]) by {
            if i > 0 {
                assert(s.skip(1)[i - 1] == s[i]);
            }
        }
        m + 1
    } else {
        assert(s.skip(0) =~= s);
        0
    }
}

/// How much of a text stands before the white space at its end.
proof fn white_at_the_end(s: Seq<char>) -> (n: int)
    ensures
        0 <= n <= s.len(),
        trim_back(s) == s.take(n),
        forall|i: int| n <= i < s.len() ==> is_white(#[trigger] s[i]),
        n > 0 ==> !is_white(s[n - 1]),
    decreases s.len(),
{
    if s.len() > 0 && is_white(s.last()) {
        let n = white_at_the_end(s.drop_last());
        assert(s.drop_last().take(n) =~= s.take(n));
        assert forall|i: int| n <= i < s.len() implies is_white(#[trigger] s[i]) by {
            if i < s.len() - 1 {
                assert(s.drop_last()[i] == s[i]);
            }
        }
        n
    } else {
        assert(s.take(s.len() as int) =~= s);
        s.len() as int
    }
}

/// Trimming takes nothing but white space off a text, and all of it at both ends.
pub proof fn trimming_takes_white_space_off(s: Seq<char>) -> (around: (Seq<char>, Seq<char>))
    ensures
        s == around.0 + trimmed(s) + around.1,
        forall|i: int| 0 <= i < around.0.len() ==> is_white(#[trigger] around.0[i]),
        forall|i: int| 0 <= i < around.1.len() ==> is_white(#[trigger] around.1[i]),
        trimmed(s).len() > 0 ==> !is_white(trimmed(s)[0]) && !is_white(trimmed(s).last()),
{
    let a = white_in_front(s);
    let front = s.skip(a);
    let b = white_at_the_end(front);
    assert(s =~= s.take(a) + front.take(b) + front.skip(b));
    assert(trimmed(s).len() > 0 ==> trimmed(s)[0] == s[a]);
    (s.take(a), front.skip(b))
}

/// `String::from_utf8`: the text that the bytes encode, or `None` where they are
/// not UTF-8.
#[verifier::external_body]
pub(crate) fn utf8_text(bytes: Vec<u8>) -> (r: Option<String>)
    ensures
        match r {
            Some(s) => valid_utf8(bytes@) && s@ == decode_utf8(bytes@),
            None => !valid_utf8(bytes@),
        },
{
    String::from_utf8(bytes).ok()
}

} // verus!
