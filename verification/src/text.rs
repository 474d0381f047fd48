//! Text: splitting a line into words, reading a number, comparing and
//! quoting strings.

use vstd::prelude::*;

verus! {

/// `c` is white space: a character with the Unicode property `White_Space`.
pub open spec fn is_space(c: char) -> bool {
    ||| '\u{9}' <= c <= '\u{d}'
    ||| c == ' '
    ||| c == '\u{85}'
    ||| c == '\u{a0}'
    ||| c == '\u{1680}'
    ||| '\u{2000}' <= c <= '\u{200a}'
    ||| c == '\u{2028}'
    ||| c == '\u{2029}'
    ||| c == '\u{202f}'
    ||| c == '\u{205f}'
    ||| c == '\u{3000}'
}

/// The first position at or after `i` that holds no white space, or the end
/// of `s`.
pub open spec fn word_start(s: Seq<char>, i: int) -> int
    decreases s.len() - i,
{
    if 0 <= i < s.len() && is_space(s[i]) {
        word_start(s, i + 1)
    } else {
        i
    }
}

/// The first position at or after `i` that holds white space, or the end of
/// `s`.
pub open spec fn word_end(s: Seq<char>, i: int) -> int
    decreases s.len() - i,
{
    if 0 <= i < s.len() && !is_space(s[i]) {
        word_end(s, i + 1)
    } else {
        i
    }
}

/// The words of `s` from position `i` on, a position at which no word is
/// under way.
pub open spec fn words_from(s: Seq<char>, i: int) -> Seq<Seq<char>>
    decreases s.len() - i,
{
    let a = word_start(s, i);
    if 0 <= i <= a < s.len() {
        let b = word_end(s, a);
        if a < b <= s.len() {
            seq![s.subrange(a, b)] + words_from(s, b)
        } else {
            Seq::empty()
        }
    } else {
        Seq::empty()
    }
}

/// The words of `s`: its longest runs of characters that are not white
/// space, in their order.
pub open spec fn words(s: Seq<char>) -> Seq<Seq<char>> {
    words_from(s, 0)
}

/// `c` is one of the ten decimal digits.
pub open spec fn is_digit(c: char) -> bool {
    '0' <= c <= '9'
}

/// Every character of `s` is a decimal digit.
pub open spec fn all_digits(s: Seq<char>) -> bool {
    forall|i: int| 0 <= i < s.len() ==> is_digit(#[trigger] s[i])
}

/// The number that the digit `c` stands for; zero for any other character.
pub open spec fn digit_value(c: char) -> nat {
    if is_digit(c) {
        (c as nat - '0' as nat) as nat
    } else {
        0
    }
}

/// The number that the decimal digits `s` write.
pub open spec fn digits_value(s: Seq<char>) -> nat
    decreases s.len(),
{
    if s.len() == 0 {
        0
    } else {
        10 * digits_value(s.drop_last()) + digit_value(s.last())
    }
}

/// The first `k` digits of `s` write no greater a number than all of `s`.
proof fn lemma_digits_value_prefix(s: Seq<char>, k: int)
    requires
        0 <= k <= s.len(),
    ensures
        digits_value(s.take(k)) <= digits_value(s),
    decreases s.len(),
{
    if k < s.len() {
        assert(s.drop_last().take(k) =~= s.take(k));
        lemma_digits_value_prefix(s.drop_last(), k);
    } else {
        assert(s.take(k) =~= s);
    }
}

/// `s` without the `+` that it may start with.
pub open spec fn unsigned_part(s: Seq<char>) -> Seq<char> {
    if s.len() > 0 && s[0] == '+' {
        s.drop_first()
    } else {
        s
    }
}

/// The number that `s` reads as: `s` is an optional `+` and then one or more
/// decimal digits that write a number no greater than `u32::MAX`.
pub open spec fn parsed_u32(s: Seq<char>) -> Option<u32> {
    let digits = unsigned_part(s);
    if digits.len() > 0 && all_digits(digits) && digits_value(digits) <= u32::MAX {
        Some(digits_value(digits) as u32)
    } else {
        None
    }
}

/// What `{:?}` formats a string as: the string in double quotes, with the
/// characters that need it escaped.
pub uninterp spec fn debug_quoted(s: Seq<char>) -> Seq<char>;

/// Formats `s` with `{:?}`, which std implements for `str`.
#[verifier::external_body]
pub(crate) fn debug_quote(s: &str) -> (quoted: String)
    ensures
        quoted@ == debug_quoted(s@),
{
    format!("{:?}", s)
}

/// The characters of `s`.
pub(crate) fn chars_of(s: &str) -> (chars: Vec<char>)
    ensures
        chars@ == s@,
{
    let mut chars: Vec<char> = Vec::new();
    for c in it: s.chars()
        invariant
            it.seq() == s@,
            chars@ == s@.take(it.index() as int),
    {
        chars.push(c);
        assert(s@.take(it.index() + 1) =~= s@.take(it.index() as int).push(c));
    }
    assert(s@.take(s@.len() as int) =~= s@);
    chars
}

/// Tells whether `c` is white space.
pub fn is_whitespace(c: char) -> (space: bool)
    ensures
        space == is_space(c),
{
    (c >= '\u{9}' && c <= '\u{d}') || c == ' ' || c == '\u{85}' || c == '\u{a0}' || c == '\u{1680}'
        || (c >= '\u{2000}' && c <= '\u{200a}') || c == '\u{2028}' || c == '\u{2029}' || c
        == '\u{202f}' || c == '\u{205f}' || c == '\u{3000}'
}

/// Tells whether two strings hold the same characters.
pub fn str_eq(a: &str, b: &str) -> (same: bool)
    ensures
        same == (a@ == b@),
{
    let x = chars_of(a);
    let y = chars_of(b);
    if x.len() != y.len() {
        return false;
    }
    let mut i: usize = 0;
    while i < x.len()
        invariant
            x@ == a@,
            y@ == b@,
            x.len() == y.len(),
            i <= x.len(),
            forall|k: int| 0 <= k < i ==> x[k] == y[k],
        decreases x.len() - i,
    {
        if x[i] != y[i] {
            return false;
        }
        i += 1;
    }
    assert(x@ =~= y@);
    true
}

/// Reads `s` as a number, accepting what [`parsed_u32`] describes.
pub fn parse_u32(s: &str) -> (parsed: Option<u32>)
    ensures
        parsed == parsed_u32(s@),
{
    let chars = chars_of(s);
    let n: usize = chars.len();
    let start: usize = if n > 0 && chars[0] == '+' {
        1
    } else {
        0
    };
    let ghost digits = unsigned_part(s@);
    assert(digits =~= s@.subrange(start as int, n as int));
    if start >= n {
        return None;
    }
    let mut value: u64 = 0;
    let mut i: usize = start;
    while i < n
        invariant
            chars@ == s@,
            n == s@.len(),
            start <= i <= n,
            digits == unsigned_part(s@),
            digits == s@.subrange(start as int, n as int),
            all_digits(digits.take(i - start)),
            value == digits_value(digits.take(i - start)),
            value <= u32::MAX,
        decreases n - i,
    {
        let c: char = chars[i];
        let ghost seen = digits.take(i - start);
        let ghost more = digits.take(i - start + 1);
        assert(more.drop_last() =~= seen);
        assert(more.last() == c);
        if !(c >= '0' && c <= '9') {
            assert(!is_digit(digits[i - start]));
            return None;
        }
        let digit: u64 = (c as u32 - '0' as u32) as u64;
        let next: u64 = value * 10 + digit;
        if next > u32::MAX as u64 {
            proof {
                lemma_digits_value_prefix(digits, i - start + 1);
            }
            return None;
        }
        value = next;
        i += 1;
    }
    assert(digits.take(n - start) =~= digits);
    Some(value as u32)
}

/// Splits `line` into its words.
pub fn split_whitespace(line: &str) -> (args: Vec<&str>)
    ensures
        args.deep_view() == words(line@),
{
    let chars = chars_of(line);
    let n: usize = chars.len();
    let mut args: Vec<&str> = Vec::new();
    let mut i: usize = 0;
    while i < n
        invariant
            n == line@.len(),
            chars@ == line@,
            i <= n,
            args.deep_view() + words_from(line@, i as int) == words(line@),
        decreases n - i,
    {
        let ghost from = i;
        while i < n && is_whitespace(chars[i])
            invariant
                n == line@.len(),
                chars@ == line@,
                from <= i <= n,
                word_start(line@, from as int) == word_start(line@, i as int),
            decreases n - i,
        {
            i += 1;
        }
        if i < n {
            let a: usize = i;
            assert(word_start(line@, from as int) == a);
            i += 1;
            while i < n && !is_whitespace(chars[i])
                invariant
                    n == line@.len(),
                    chars@ == line@,
                    a < i <= n,
                    word_end(line@, a as int) == word_end(line@, i as int),
                decreases n - i,
            {
                i += 1;
            }
            assert(word_end(line@, a as int) == i);
            let ghost before = args.deep_view();
            args.push(line.substring_char(a, i));
            assert(args.deep_view() =~= before.push(line@.subrange(a as int, i as int)));
            assert(words_from(line@, from as int) =~= seq![line@.subrange(a as int, i as int)]
                + words_from(line@, i as int));
        } else {
            assert(word_start(line@, from as int) == n);
            assert(words_from(line@, from as int) =~= Seq::<Seq<char>>::empty());
            assert(words_from(line@, n as int) =~= Seq::<Seq<char>>::empty());
        }
    }
    assert(words_from(line@, n as int) =~= Seq::<Seq<char>>::empty());
    assert(args.deep_view() + Seq::<Seq<char>>::empty() =~= args.deep_view());
    args
}

} // verus!
