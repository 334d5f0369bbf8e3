//! Operations on text: trimming, decimal numbers, and substitution.

use vstd::prelude::*;
use vstd::string::*;

verus! {

use vstd::utf8::{char_is_scalar, encode_scalar, encode_utf8, has_width_1_encoding};

/// Whether `c` has the Unicode property `White_Space`.
pub open spec fn is_white_space(c: char) -> bool {
    ||| 0x09 <= c as u32 <= 0x0d
    ||| c as u32 == 0x20
    ||| c as u32 == 0x85
    ||| c as u32 == 0xa0
    ||| c as u32 == 0x1680
    ||| 0x2000 <= c as u32 <= 0x200a
    ||| c as u32 == 0x2028
    ||| c as u32 == 0x2029
    ||| c as u32 == 0x202f
    ||| c as u32 == 0x205f
    ||| c as u32 == 0x3000
}

/// Tells whether a character is white space in the sense of Unicode.
pub fn white_space(c: char) -> (res: bool)
    ensures
        res == is_white_space(c),
        c <= '\u{7f}' ==> (res <==> c == ' ' || '\t' <= c <= '\r'),
        c > '\u{7f}' ==> (res <==> {
            ||| c == '\u{85}'
            ||| c == '\u{a0}'
            ||| c == '\u{1680}'
            ||| '\u{2000}' <= c <= '\u{200a}'
            ||| c == '\u{2028}'
            ||| c == '\u{2029}'
            ||| c == '\u{202f}'
            ||| c == '\u{205f}'
            ||| c == '\u{3000}'
        }),
{
    let u: u32 = c as u32;
    (0x09 <= u && u <= 0x0d) || u == 0x20 || u == 0x85 || u == 0xa0 || u == 0x1680 || (0x2000 <= u
        && u <= 0x200a) || u == 0x2028 || u == 0x2029 || u == 0x202f || u == 0x205f || u == 0x3000
}

/// `s` without its leading and trailing white space.
pub open spec fn trimmed(s: Seq<char>) -> Seq<char>
    decreases s.len(),
{
    if s.len() == 0 {
        s
    } else if is_white_space(s.first()) {
        trimmed(s.drop_first())
    } else if is_white_space(s.last()) {
        trimmed(s.drop_last())
    } else {
        s
    }
}

/// Whether every character of `s` is white space.
pub open spec fn all_white_space(s: Seq<char>) -> bool {
    forall|i: int| 0 <= i < s.len() ==> is_white_space(#[trigger] s[i])
}

/// Collects the characters of a string.
pub fn chars_of(s: &str) -> (v: Vec<char>)
    ensures
        v@ == s@,
{
    let mut v: Vec<char> = Vec::new();
    for c in it: s.chars()
        invariant
            it.seq() == s@,
            v@ == s@.take(it.index()),
    {
        v.push(c);
    }
    v
}

/// Strips leading and trailing white space.
pub fn trim(s: &str) -> (res: String)
    ensures
        res@ == trimmed(s@),
        exists|before: Seq<char>, after: Seq<char>|
            (forall|i: int| 0 <= i < before.len() ==> is_white_space(#[trigger] before[i])) && (
            forall|i: int| 0 <= i < after.len() ==> is_white_space(#[trigger] after[i])) && s@
                == #[trigger] (before + res@ + after),
        res@.len() > 0 ==> !is_white_space(res@[0]) && !is_white_space(res@[res@.len() - 1]),
{
    proof {
        trimmed_is_the_middle(s@);
    }
    let chars = chars_of(s);
    let mut start: usize = 0;
    let mut end: usize = chars.len();
    assert(s@.subrange(0, end as int) == s@);
    while start < end && white_space(chars[start])
        invariant
            chars@ == s@,
            start <= end == chars.len(),
            trimmed(s@) == trimmed(s@.subrange(start as int, end as int)),
        decreases end - start,
    {
        assert(s@.subrange(start as int, end as int).drop_first() == s@.subrange(start + 1, end as int));
        start = start + 1;
    }
    while start < end && white_space(chars[end - 1])
        invariant
            chars@ == s@,
            start <= end <= chars.len(),
            start < end ==> !is_white_space(s@[start as int]),
            trimmed(s@) == trimmed(s@.subrange(start as int, end as int)),
        decreases end - start,
    {
        assert(s@.subrange(start as int, end as int).drop_last() == s@.subrange(start as int, end - 1));
        end = end - 1;
    }
    s.substring_char(start, end).to_owned()
}

/// Trimming cuts `s` into white space, the trimmed text and white space, and
/// the trimmed text neither starts nor ends with white space.
pub proof fn trimmed_is_the_middle(s: Seq<char>)
    ensures
        exists|before: Seq<char>, after: Seq<char>|
            all_white_space(before) && all_white_space(after) && s == #[trigger] (before + trimmed(s)
                + after),
        trimmed(s).len() > 0 ==> !is_white_space(trimmed(s).first()) && !is_white_space(
            trimmed(s).last(),
        ),
    decreases s.len(),
{
    if s.len() > 0 && is_white_space(s.first()) {
        trimmed_is_the_middle(s.drop_first());
        let (before, after) = choose|before: Seq<char>, after: Seq<char>|
            all_white_space(before) && all_white_space(after) && s.drop_first()
                == #[trigger] (before + trimmed(s.drop_first()) + after);
        let wider = seq![s.first()] + before;
        assert(s == seq![s.first()] + s.drop_first());
        assert(s == wider + trimmed(s) + after);
    } else if s.len() > 0 && is_white_space(s.last()) {
        trimmed_is_the_middle(s.drop_last());
        let (before, after) = choose|before: Seq<char>, after: Seq<char>|
            all_white_space(before) && all_white_space(after) && s.drop_last()
                == #[trigger] (before + trimmed(s.drop_last()) + after);
        let wider = after.push(s.last());
        assert(s == s.drop_last().push(s.last()));
        assert(s == before + trimmed(s) + wider);
    } else {
        let none = Seq::<char>::empty();
        assert(s == none + trimmed(s) + none);
    }
}

/// White space around a text does not change what trimming leaves of it.
pub proof fn trimming_ignores_padding(before: Seq<char>, s: Seq<char>, after: Seq<char>)
    requires
        all_white_space(before),
        all_white_space(after),
    ensures
        trimmed(before + s + after) == trimmed(s),
    decreases before.len() + s.len() + after.len(),
{
    let whole = before + s + after;
    if before.len() > 0 {
        assert(whole.first() == before[0]);
        assert(whole.drop_first() == before.drop_first() + s + after);
        trimming_ignores_padding(before.drop_first(), s, after);
    } else if s.len() > 0 && is_white_space(s.first()) {
        assert(whole.drop_first() == before + s.drop_first() + after);
        trimming_ignores_padding(before, s.drop_first(), after);
    } else if after.len() > 0 {
        if s.len() > 0 {
            assert(whole.last() == after.last());
            assert(whole.drop_last() == before + s + after.drop_last());
            trimming_ignores_padding(before, s, after.drop_last());
        } else {
            assert(whole.first() == after[0]);
            assert(whole.drop_first() == before + s + after.drop_first());
            trimming_ignores_padding(before, s, after.drop_first());
        }
    } else {
        assert(whole == s);
    }
}

/// There is one way only to cut a text into white space, a middle and white
/// space, where the middle is empty or neither starts nor ends with white
/// space. Trimming gives that middle.
pub proof fn the_middle_is_unique(before: Seq<char>, middle: Seq<char>, after: Seq<char>)
    requires
        forall|i: int| 0 <= i < before.len() ==> is_white_space(#[trigger] before[i]),
        forall|i: int| 0 <= i < after.len() ==> is_white_space(#[trigger] after[i]),
        middle.len() > 0 ==> !is_white_space(middle[0]) && !is_white_space(
            middle[middle.len() - 1],
        ),
    ensures
        trimmed(before + middle + after) == middle,
{
    trimming_ignores_padding(before, middle, after);
}

/// Trimming a trimmed text changes nothing.
pub proof fn trimming_twice_is_trimming_once(s: Seq<char>)
    ensures
        trimmed(trimmed(s)) == trimmed(s),
{
    trimmed_is_the_middle(s);
}

/// The character of a decimal digit.
pub open spec fn digit(d: nat) -> char {
    (0x30 + d) as char
}

/// The decimal notation of `n`, without leading zeros.
pub open spec fn decimal(n: nat) -> Seq<char>
    decreases n,
{
    if n < 10 {
        seq![digit(n)]
    } else {
        decimal(n / 10).push(digit(n % 10))
    }
}

/// The notation of a single digit.
fn digit_text(d: u64) -> (res: &'static str)
    requires
        d < 10,
    ensures
        res@ == seq![digit(d as nat)],
{
    proof {
        reveal_strlit("0");
        reveal_strlit("1");
        reveal_strlit("2");
        reveal_strlit("3");
        reveal_strlit("4");
        reveal_strlit("5");
        reveal_strlit("6");
        reveal_strlit("7");
        reveal_strlit("8");
        reveal_strlit("9");
    }
    match d {
        0 => "0",
        1 => "1",
        2 => "2",
        3 => "3",
        4 => "4",
        5 => "5",
        6 => "6",
        7 => "7",
        8 => "8",
        _ => "9",
    }
}

/// Writes a number in decimal.
pub fn decimal_text(n: u64) -> (res: String)
    ensures
        res@ == decimal(n as nat),
    decreases n,
{
    if n < 10 {
        digit_text(n).to_owned()
    } else {
        let mut res = decimal_text(n / 10);
        res.append(digit_text(n % 10));
        res
    }
}

/// A decimal notation is one digit or more, and nothing else.
pub proof fn decimal_is_digits(n: nat)
    ensures
        decimal(n).len() > 0,
        forall|i: int| 0 <= i < decimal(n).len() ==> '0' <= #[trigger] decimal(n)[i] <= '9',
    decreases n,
{
    if n >= 10 {
        decimal_is_digits(n / 10);
    }
}

/// To write a digit behind a number that is not zero is to multiply the number
/// by ten and to add the digit; and a digit by itself is its own notation.
pub proof fn decimal_grows_by_its_last_digit(n: nat, d: nat)
    requires
        d < 10,
    ensures
        n > 0 ==> decimal(10 * n + d) == decimal(n).push(('0' as u32 + d) as char),
        decimal(d) == seq![('0' as u32 + d) as char],
{
    assert((10 * n + d) / 10 == n && (10 * n + d) % 10 == d);
}

/// Different numbers have different decimal notations.
pub proof fn decimal_tells_numbers_apart(a: nat, b: nat)
    requires
        decimal(a) == decimal(b),
    ensures
        a == b,
    decreases a,
{
    decimal_is_digits(a / 10);
    decimal_is_digits(b / 10);
    if a >= 10 && b >= 10 {
        assert(decimal(a).drop_last() == decimal(a / 10));
        assert(decimal(b).drop_last() == decimal(b / 10));
        decimal_tells_numbers_apart(a / 10, b / 10);
        assert(decimal(a).last() == digit(a % 10));
        assert(decimal(b).last() == digit(b % 10));
    } else if a < 10 && b < 10 {
        assert(decimal(a)[0] == digit(a));
        assert(decimal(b)[0] == digit(b));
    } else if a < 10 {
        assert(decimal(b).len() >= 2);
    } else {
        assert(decimal(a).len() >= 2);
    }
}

/// Whether `pattern` stands in `s` at position `i`.
pub open spec fn stands_at(s: Seq<char>, pattern: Seq<char>, i: int) -> bool {
    0 <= i && i + pattern.len() <= s.len() && s.subrange(i, i + pattern.len()) == pattern
}

/// Whether `pattern` occurs in `s`.
pub open spec fn occurs(s: Seq<char>, pattern: Seq<char>) -> bool {
    exists|i: int| stands_at(s, pattern, i)
}

/// `s` with `replacement` in the place of each occurrence of `pattern`, taken
/// from left to right without overlap.
pub open spec fn replaced(s: Seq<char>, pattern: Seq<char>, replacement: Seq<char>) -> Seq<char>
    recommends
        pattern.len() > 0,
    decreases s.len(),
{
    if s.len() == 0 || pattern.len() == 0 {
        s
    } else if stands_at(s, pattern, 0) {
        replacement + replaced(s.skip(pattern.len() as int), pattern, replacement)
    } else {
        seq![s[0]] + replaced(s.drop_first(), pattern, replacement)
    }
}

/// Tells whether `pattern` stands in `chars` at position `i`.
fn pattern_stands_at(chars: &Vec<char>, pattern: &Vec<char>, i: usize) -> (res: bool)
    requires
        i <= chars.len(),
    ensures
        res == stands_at(chars@, pattern@, i as int),
{
    if pattern.len() > chars.len() - i {
        return false;
    }
    let mut j: usize = 0;
    while j < pattern.len()
        invariant
            i + pattern.len() <= chars.len(),
            j <= pattern.len(),
            forall|k: int| 0 <= k < j ==> chars@[i + k] == pattern@[k],
        decreases pattern.len() - j,
    {
        if chars[i + j] != pattern[j] {
            assert(chars@.subrange(i as int, i + pattern.len())[j as int] != pattern@[j as int]);
            return false;
        }
        j = j + 1;
    }
    assert(chars@.subrange(i as int, i + pattern.len()) == pattern@);
    true
}

/// Tells whether `pattern` occurs in `s`.
pub fn contains(s: &str, pattern: &str) -> (res: bool)
    ensures
        res == occurs(s@, pattern@),
        res <==> exists|i: int|
            0 <= i <= s@.len() - pattern@.len() && #[trigger] s@.subrange(i, i + pattern@.len())
                == pattern@,
{
    let chars = chars_of(s);
    let wanted = chars_of(pattern);
    let mut i: usize = 0;
    while i < chars.len()
        invariant
            chars@ == s@,
            wanted@ == pattern@,
            i <= chars.len(),
            forall|k: int| 0 <= k < i ==> !stands_at(chars@, wanted@, k),
        decreases chars.len() - i,
    {
        if pattern_stands_at(&chars, &wanted, i) {
            assert(s@.subrange(i as int, i + pattern@.len()) == pattern@);
            return true;
        }
        i = i + 1;
    }
    let res = pattern_stands_at(&chars, &wanted, i);
    proof {
        assert(res ==> s@.subrange(i as int, i + pattern@.len()) == pattern@);
        if !res {
            assert forall|k: int| 0 <= k <= s@.len() - pattern@.len() implies #[trigger] s@.subrange(
                k,
                k + pattern@.len(),
            ) != pattern@ by {
                assert(!stands_at(s@, pattern@, k));
            }
        }
    }
    res
}

/// Replaces each occurrence of `pattern`.
pub fn replace(s: &str, pattern: &str, replacement: &str) -> (res: String)
    requires
        pattern@.len() > 0,
    ensures
        res@ == replaced(s@, pattern@, replacement@),
        (forall|i: int|
            0 <= i <= s@.len() - pattern@.len() ==> #[trigger] s@.subrange(i, i + pattern@.len())
                != pattern@) ==> res@ == s@,
        forall|before: Seq<char>, after: Seq<char>|
            s@ == #[trigger] (before + pattern@ + after) && (forall|i: int|
                0 <= i < before.len() ==> #[trigger] s@.subrange(i, i + pattern@.len())
                    != pattern@) ==> res@ == before + replacement@ + replaced(
                after,
                pattern@,
                replacement@,
            ),
{
    proof {
        if forall|i: int|
            0 <= i <= s@.len() - pattern@.len() ==> #[trigger] s@.subrange(i, i + pattern@.len())
                != pattern@ {
            assert forall|i: int| !stands_at(s@, pattern@, i) by {
                if 0 <= i <= s@.len() - pattern@.len() {
                    assert(s@.subrange(i, i + pattern@.len()) != pattern@);
                }
            }
            nothing_to_replace(s@, pattern@, replacement@);
        }
        assert forall|before: Seq<char>, after: Seq<char>|
            s@ == #[trigger] (before + pattern@ + after) && (forall|i: int|
                0 <= i < before.len() ==> #[trigger] s@.subrange(i, i + pattern@.len())
                    != pattern@) implies replaced(s@, pattern@, replacement@) == before
            + replacement@ + replaced(after, pattern@, replacement@) by {
            first_occurrence_is_replaced(before, pattern@, after, replacement@);
        }
    }
    let chars = chars_of(s);
    let wanted = chars_of(pattern);
    let mut res = String::new();
    // What lies between `kept` and `i` is copied when the next occurrence comes.
    let mut kept: usize = 0;
    let mut i: usize = 0;
    assert(s@.skip(0) == s@);
    while i < chars.len()
        invariant
            chars@ == s@,
            wanted@ == pattern@,
            wanted.len() > 0,
            kept <= i <= chars.len(),
            replaced(s@, pattern@, replacement@) == res@ + s@.subrange(kept as int, i as int)
                + replaced(s@.skip(i as int), pattern@, replacement@),
        decreases chars.len() - i,
    {
        let ghost rest = s@.skip(i as int);
        if pattern_stands_at(&chars, &wanted, i) {
            proof {
                assert(rest.subrange(0, wanted.len() as int) == s@.subrange(
                    i as int,
                    i + wanted.len(),
                ));
                assert(rest.skip(wanted.len() as int) == s@.skip(i + wanted.len()));
            }
            res.append(s.substring_char(kept, i));
            res.append(replacement);
            i = i + wanted.len();
            kept = i;
        } else {
            proof {
                if stands_at(rest, pattern@, 0) {
                    assert(rest.subrange(0, wanted.len() as int) == s@.subrange(
                        i as int,
                        i + wanted.len(),
                    ));
                }
                assert(rest.drop_first() == s@.skip(i + 1));
                assert(s@.subrange(kept as int, i + 1) == s@.subrange(kept as int, i as int)
                    + seq![rest[0]]);
            }
            i = i + 1;
        }
    }
    res.append(s.substring_char(kept, chars.len()));
    res
}

/// Where the pattern does not occur, nothing is replaced.
pub proof fn nothing_to_replace(s: Seq<char>, pattern: Seq<char>, replacement: Seq<char>)
    requires
        !occurs(s, pattern),
    ensures
        replaced(s, pattern, replacement) == s,
    decreases s.len(),
{
    if s.len() > 0 {
        let rest = s.drop_first();
        assert forall|i: int| !stands_at(rest, pattern, i) by {
            if stands_at(rest, pattern, i) {
                assert(s.subrange(i + 1, i + 1 + pattern.len()) == rest.subrange(
                    i,
                    i + pattern.len(),
                ));
                assert(stands_at(s, pattern, i + 1));
            }
        }
        nothing_to_replace(rest, pattern, replacement);
        assert(!stands_at(s, pattern, 0));
        assert(seq![s[0]] + rest == s);
    }
}

/// The first occurrence of the pattern is replaced, what stands before it is
/// kept, and what stands behind it is treated in the same way. Together with
/// [`nothing_to_replace`] this tells what becomes of any text.
pub proof fn first_occurrence_is_replaced(
    before: Seq<char>,
    pattern: Seq<char>,
    after: Seq<char>,
    replacement: Seq<char>,
)
    requires
        pattern.len() > 0,
        forall|i: int|
            0 <= i < before.len() ==> #[trigger] (before + pattern + after).subrange(
                i,
                i + pattern.len(),
            ) != pattern,
    ensures
        replaced(before + pattern + after, pattern, replacement) == before + replacement + replaced(
            after,
            pattern,
            replacement,
        ),
    decreases before.len(),
{
    let whole = before + pattern + after;
    if before.len() == 0 {
        assert(whole.subrange(0, pattern.len() as int) == pattern);
        assert(stands_at(whole, pattern, 0));
        assert(whole.skip(pattern.len() as int) == after);
        assert(replacement + replaced(after, pattern, replacement) == before + replacement
            + replaced(after, pattern, replacement));
    } else {
        let front = before.drop_first();
        let rest = front + pattern + after;
        assert(whole.drop_first() == rest);
        assert(whole.subrange(0, 0 + pattern.len() as int) != pattern);
        assert(!stands_at(whole, pattern, 0));
        assert forall|i: int| 0 <= i < front.len() implies #[trigger] rest.subrange(
            i,
            i + pattern.len(),
        ) != pattern by {
            assert(rest.subrange(i, i + pattern.len()) == whole.subrange(
                i + 1,
                i + 1 + pattern.len(),
            ));
        }
        first_occurrence_is_replaced(front, pattern, after, replacement);
        assert(seq![whole[0]] + (front + replacement + replaced(after, pattern, replacement))
            == before + replacement + replaced(after, pattern, replacement));
    }
}

/// Where the pattern occurs, different replacements give different results.
pub proof fn replacements_are_told_apart(
    s: Seq<char>,
    pattern: Seq<char>,
    a: Seq<char>,
    b: Seq<char>,
)
    requires
        pattern.len() > 0,
        occurs(s, pattern),
        replaced(s, pattern, a) == replaced(s, pattern, b),
    ensures
        a == b,
{
    if a.len() < b.len() {
        longer_replacement_is_longer(s, pattern, a, b);
    } else if b.len() < a.len() {
        longer_replacement_is_longer(s, pattern, b, a);
    } else {
        equally_long_replacements(s, pattern, a, b);
    }
}

proof fn equally_long_replacements(s: Seq<char>, pattern: Seq<char>, a: Seq<char>, b: Seq<char>)
    requires
        pattern.len() > 0,
        a.len() == b.len(),
        occurs(s, pattern),
        replaced(s, pattern, a) == replaced(s, pattern, b),
    ensures
        a == b,
    decreases s.len(),
{
    if stands_at(s, pattern, 0) {
        assert(replaced(s, pattern, a).take(a.len() as int) == a);
        assert(replaced(s, pattern, b).take(b.len() as int) == b);
    } else {
        let rest = s.drop_first();
        occurs_later(s, pattern);
        assert(replaced(s, pattern, a).drop_first() == replaced(rest, pattern, a));
        assert(replaced(s, pattern, b).drop_first() == replaced(rest, pattern, b));
        equally_long_replacements(rest, pattern, a, b);
    }
}

proof fn longer_replacement_is_longer(s: Seq<char>, pattern: Seq<char>, a: Seq<char>, b: Seq<char>)
    requires
        pattern.len() > 0,
        a.len() < b.len(),
    ensures
        replaced(s, pattern, a).len() <= replaced(s, pattern, b).len(),
        occurs(s, pattern) ==> replaced(s, pattern, a).len() < replaced(s, pattern, b).len(),
    decreases s.len(),
{
    if s.len() == 0 {
    } else if stands_at(s, pattern, 0) {
        longer_replacement_is_longer(s.skip(pattern.len() as int), pattern, a, b);
    } else {
        longer_replacement_is_longer(s.drop_first(), pattern, a, b);
        if occurs(s, pattern) {
            occurs_later(s, pattern);
        }
    }
}

/// A pattern that occurs, but not at the front, occurs in the rest.
proof fn occurs_later(s: Seq<char>, pattern: Seq<char>)
    requires
        pattern.len() > 0,
        occurs(s, pattern),
        !stands_at(s, pattern, 0),
    ensures
        s.len() > 0,
        occurs(s.drop_first(), pattern),
{
    let i = choose|i: int| stands_at(s, pattern, i);
    assert(s.drop_first().subrange(i - 1, i - 1 + pattern.len()) == s.subrange(
        i,
        i + pattern.len(),
    ));
    assert(stands_at(s.drop_first(), pattern, i - 1));
}

/// Whether two texts have no character in common.
pub open spec fn disjoint(a: Seq<char>, b: Seq<char>) -> bool {
    forall|i: int, j: int| 0 <= i < a.len() && 0 <= j < b.len() ==> a[i] != b[j]
}

/// A replacement that is not empty and has no character in common with the
/// pattern leaves no occurrence of the pattern behind.
pub proof fn replacing_leaves_nothing(s: Seq<char>, pattern: Seq<char>, replacement: Seq<char>)
    requires
        pattern.len() > 0,
        replacement.len() > 0,
        disjoint(pattern, replacement),
    ensures
        !occurs(replaced(s, pattern, replacement), pattern),
    decreases s.len(),
{
    let result = replaced(s, pattern, replacement);
    if s.len() == 0 {
        assert forall|i: int| !stands_at(result, pattern, i) by {}
    } else if stands_at(s, pattern, 0) {
        let rest = replaced(s.skip(pattern.len() as int), pattern, replacement);
        replacing_leaves_nothing(s.skip(pattern.len() as int), pattern, replacement);
        assert forall|i: int| !stands_at(result, pattern, i) by {
            if stands_at(result, pattern, i) {
                assert(result.subrange(i, i + pattern.len())[0] == pattern[0]);
                if i < replacement.len() {
                    assert(result[i] == replacement[i]);
                } else {
                    let at = i - replacement.len();
                    assert(rest.subrange(at, at + pattern.len()) == result.subrange(
                        i,
                        i + pattern.len(),
                    ));
                    assert(stands_at(rest, pattern, at));
                }
            }
        }
    } else {
        let rest = replaced(s.drop_first(), pattern, replacement);
        replacing_leaves_nothing(s.drop_first(), pattern, replacement);
        assert forall|i: int| !stands_at(result, pattern, i) by {
            if stands_at(result, pattern, i) {
                if i > 0 {
                    assert(rest.subrange(i - 1, i - 1 + pattern.len()) == result.subrange(
                        i,
                        i + pattern.len(),
                    ));
                    assert(stands_at(rest, pattern, i - 1));
                } else {
                    assert(result == replaced(s, pattern, replacement));
                    untouched_front(s, pattern, replacement, pattern.len() as int, pattern);
                }
            }
        }
    }
}

/// A stretch at the front of the result that has no character of the
/// replacement was at the front before.
proof fn untouched_front(
    s: Seq<char>,
    pattern: Seq<char>,
    replacement: Seq<char>,
    n: int,
    front: Seq<char>,
)
    requires
        pattern.len() > 0,
        replacement.len() > 0,
        disjoint(front, replacement),
        n == front.len(),
        n <= replaced(s, pattern, replacement).len(),
        replaced(s, pattern, replacement).subrange(0, n) == front,
    ensures
        n <= s.len(),
        s.subrange(0, n) == front,
    decreases n,
{
    let result = replaced(s, pattern, replacement);
    if n > 0 {
        assert(result.subrange(0, n)[0] == result[0]);
        assert(front[0] == result[0]);
        if s.len() > 0 && stands_at(s, pattern, 0) {
            assert(result[0] == replacement[0]);
        } else {
            let rest = replaced(s.drop_first(), pattern, replacement);
            assert(s.len() > 0);
            assert(result.drop_first() == rest);
            assert(rest.subrange(0, n - 1) == result.subrange(0, n).drop_first());
            untouched_front(s.drop_first(), pattern, replacement, n - 1, front.drop_first());
            assert(s.subrange(0, n) == seq![s[0]] + s.drop_first().subrange(0, n - 1));
            assert(front == seq![front[0]] + front.drop_first());
        }
    } else {
        assert(s.subrange(0, 0) == front);
    }
}

/// The bytes of one encoded character that are below 0x80: the character
/// itself, where it is such a one, and none otherwise.
proof fn ascii_byte_of_a_character(c: char, b: u8)
    requires
        b < 0x80,
    ensures
        encode_scalar(c as u32).contains(b) <==> c == b as char,
{
    char_is_scalar(c);
    let v = c as u32;
    let bytes = encode_scalar(v);
    if has_width_1_encoding(v) {
        assert((v & 0x7F) as u8 == v) by (bit_vector)
            requires
                v <= 0x7F,
        ;
        assert(bytes[0] == v);
        assert(bytes.contains(bytes[0]));
    } else {
        assert(0xC0u8 | ((v >> 6) & 0x1F) as u8 >= 0x80) by (bit_vector);
        assert(0xE0u8 | ((v >> 12) & 0x0F) as u8 >= 0x80) by (bit_vector);
        assert(0xF0u8 | ((v >> 18) & 0x7) as u8 >= 0x80) by (bit_vector);
        assert(0x80u8 | (v & 0x3F) as u8 >= 0x80) by (bit_vector);
        assert(0x80u8 | ((v >> 6) & 0x3F) as u8 >= 0x80) by (bit_vector);
        assert(0x80u8 | ((v >> 12) & 0x3F) as u8 >= 0x80) by (bit_vector);
        assert(forall|i: int| 0 <= i < bytes.len() ==> #[trigger] bytes[i] >= 0x80);
    }
}

/// A byte below 0x80 stands in the encoding of a text exactly where the text
/// has the character of that number.
pub proof fn ascii_bytes_are_characters(s: Seq<char>, b: u8)
    requires
        b < 0x80,
    ensures
        encode_utf8(s).contains(b) <==> s.contains(b as char),
    decreases s.len(),
{
    if s.len() > 0 {
        let first = encode_scalar(s[0] as u32);
        let rest = encode_utf8(s.drop_first());
        let whole = encode_utf8(s);
        assert(whole == first + rest);
        ascii_byte_of_a_character(s[0], b);
        ascii_bytes_are_characters(s.drop_first(), b);
        if whole.contains(b) {
            let i = choose|i: int| 0 <= i < whole.len() && whole[i] == b;
            if i < first.len() {
                assert(first[i] == b);
                assert(first.contains(b));
                assert(s[0] == b as char);
            } else {
                assert(rest[i - first.len()] == b);
                let j = choose|j: int|
                    0 <= j < s.drop_first().len() && s.drop_first()[j] == b as char;
                assert(s[j + 1] == b as char);
            }
        }
        if s.contains(b as char) {
            let j = choose|j: int| 0 <= j < s.len() && s[j] == b as char;
            if j == 0 {
                let i = choose|i: int| 0 <= i < first.len() && first[i] == b;
                assert(whole[i] == b);
            } else {
                assert(s.drop_first()[j - 1] == b as char);
                let i = choose|i: int| 0 <= i < rest.len() && rest[i] == b;
                assert(whole[first.len() + i] == b);
            }
        }
    }
}

} // verus!
