//! Text building blocks: decimal numerals, comparing, splitting and trimming.

use vstd::prelude::*;
use vstd::string::*;

verus! {

/// The character that stands for the decimal digit `d`.
pub open spec fn digit_char(d: nat) -> char {
    (('0' as u32) + d) as u32 as char
}

/// The decimal numeral of `n`, without leading zeros.
pub open spec fn decimal(n: nat) -> Seq<char>
    decreases n,
{
    if n < 10 {
        seq![digit_char(n)]
    } else {
        decimal(n / 10).push(digit_char(n % 10))
    }
}

/// The one-character text of the decimal digit `d`.
fn digit_text(d: u64) -> (s: &'static str)
    requires
        d < 10,
    ensures
        s@ == seq![digit_char(d as nat)],
{
    proof {
        reveal_strlit("0");
        reveal_strlit("1");
        reveal_strlit("2");
        reveal_strlit("3");
        reveal_strlit("4");
        reveal_strlit("5");
        reveal_strlit("6");
        reveal_strlit("7");
        reveal_strlit("8");
        reveal_strlit("9");
    }
    let s: &'static str = match d {
        0 => "0",
        1 => "1",
        2 => "2",
        3 => "3",
        4 => "4",
        5 => "5",
        6 => "6",
        7 => "7",
        8 => "8",
        _ => "9",
    };
    assert(s@ =~= seq![digit_char(d as nat)]);
    s
}

/// The decimal numeral of `n`.
pub fn decimal_text(n: u64) -> (s: String)
    ensures
        s@ == decimal(n as nat),
    decreases n,
{
    if n < 10 {
        let s = digit_text(n).to_owned();
        s
    } else {
        let mut s = decimal_text(n / 10);
        s.append(digit_text(n % 10));
        assert(s@ =~= decimal((n / 10) as nat).push(digit_char((n % 10) as nat)));
        s
    }
}

/// `prefix` and the decimal numeral of `n`.
pub fn numbered_text(prefix: &str, n: u64) -> (s: String)
    ensures
        s@ == prefix@ + decimal(n as nat),
{
    let mut s = prefix.to_owned();
    let number = decimal_text(n);
    s.append(number.as_str());
    s
}

/// `prefix`, the decimal numeral of `n`, and `suffix`.
pub fn counted_text(prefix: &str, n: u64, suffix: &str) -> (s: String)
    ensures
        s@ == prefix@ + decimal(n as nat) + suffix@,
{
    let mut s = numbered_text(prefix, n);
    s.append(suffix);
    s
}

/// `String::push` appends a character.
pub assume_specification[ String::push ](s: &mut String, c: char)
    ensures
        final(s)@ == old(s)@.push(c),
;

/// The characters of a text.
pub fn chars_of(s: &str) -> (chars: Vec<char>)
    ensures
        chars@ == s@,
{
    let mut chars: Vec<char> = Vec::new();
    for c in iter: s.chars()
        invariant
            chars@ =~= iter.seq().take(iter.index()),
            iter.index() == iter.seq().len() ==> chars@ =~= iter.seq(),
            iter.seq() == s@,
    {
        chars.push(c);
    }
    chars
}

/// The text of a sequence of characters.
pub fn text_of(chars: &[char]) -> (s: String)
    ensures
        s@ == chars@,
{
    let mut s: String = String::new();
    let mut i: usize = 0;
    while i < chars.len()
        invariant
            i <= chars@.len(),
            s@ == chars@.take(i as int),
        decreases chars@.len() - i,
    {
        s.push(chars[i]);
        assert(s@ =~= chars@.take(i + 1));
        i = i + 1;
    }
    assert(s@ =~= chars@);
    s
}

/// `pattern` stands in `s` at position `at`.
pub open spec fn stands_at(s: Seq<char>, pattern: Seq<char>, at: int) -> bool {
    0 <= at && at + pattern.len() <= s.len() && s.subrange(at, at + pattern.len()) == pattern
}

/// `pattern` stands somewhere in `s`.
pub open spec fn occurs_in(s: Seq<char>, pattern: Seq<char>) -> bool {
    exists|at: int| #[trigger] stands_at(s, pattern, at)
}

/// Whether `pattern` stands in `s` at position `at`.
fn found_at(s: &[char], pattern: &[char], at: usize) -> (found: bool)
    ensures
        found == stands_at(s@, pattern@, at as int),
{
    if at > s.len() || pattern.len() > s.len() - at {
        return false;
    }
    let mut i: usize = 0;
    while i < pattern.len()
        invariant
            i <= pattern@.len(),
            at + pattern@.len() <= s@.len() == s.len(),
            forall|j: int| 0 <= j < i ==> s@[at + j] == pattern@[j],
        decreases pattern@.len() - i,
    {
        if s[at + i] != pattern[i] {
            assert(s@.subrange(at as int, at + pattern@.len())[i as int] != pattern@[i as int]);
            return false;
        }
        i = i + 1;
    }
    assert(s@.subrange(at as int, at + pattern@.len()) =~= pattern@);
    true
}

/// Whether two texts are the same.
pub fn same_text(a: &str, b: &str) -> (same: bool)
    ensures
        same == (a@ == b@),
{
    let a_chars = chars_of(a);
    let b_chars = chars_of(b);
    if a_chars.len() != b_chars.len() {
        return false;
    }
    let found = found_at(a_chars.as_slice(), b_chars.as_slice(), 0);
    assert(a@.subrange(0, a@.len() as int) =~= a@);
    found
}

/// Whether `s` begins with `prefix`.
pub fn has_prefix(s: &str, prefix: &str) -> (b: bool)
    ensures
        b == prefix@.is_prefix_of(s@),
{
    let chars = chars_of(s);
    let pattern = chars_of(prefix);
    found_at(chars.as_slice(), pattern.as_slice(), 0)
}

/// Whether `s` ends with `suffix`.
pub fn has_suffix(s: &str, suffix: &str) -> (b: bool)
    ensures
        b == suffix@.is_suffix_of(s@),
{
    let chars = chars_of(s);
    let pattern = chars_of(suffix);
    if pattern.len() > chars.len() {
        return false;
    }
    found_at(chars.as_slice(), pattern.as_slice(), chars.len() - pattern.len())
}

/// Whether `pattern` stands somewhere in `s`.
pub fn contains_text(s: &str, pattern: &str) -> (b: bool)
    ensures
        b == occurs_in(s@, pattern@),
{
    let chars = chars_of(s);
    let wanted = chars_of(pattern);
    let mut at: usize = 0;
    while at < chars.len()
        invariant
            at <= chars@.len(),
            chars@ == s@,
            wanted@ == pattern@,
            forall|j: int| 0 <= j < at ==> !stands_at(s@, pattern@, j),
        decreases chars@.len() - at,
    {
        if found_at(chars.as_slice(), wanted.as_slice(), at) {
            return true;
        }
        at = at + 1;
    }
    let found = found_at(chars.as_slice(), wanted.as_slice(), at);
    assert forall|j: int| #[trigger] stands_at(s@, pattern@, j) implies j <= s@.len() by {}
    found
}

/// A character with the Unicode property White_Space.
pub open spec fn is_white(c: char) -> bool {
    ||| '\u{9}' <= c <= '\u{d}'
    ||| c == ' '
    ||| c == '\u{85}'
    ||| c == '\u{a0}'
    ||| c == '\u{1680}'
    ||| '\u{2000}' <= c <= '\u{200a}'
    ||| c == '\u{2028}'
    ||| c == '\u{2029}'
    ||| c == '\u{202f}'
    ||| c == '\u{205f}'
    ||| c == '\u{3000}'
}

/// Whether a character has the Unicode property White_Space.
pub fn white(c: char) -> (b: bool)
    ensures
        b == is_white(c),
{
    ('\u{9}' <= c && c <= '\u{d}') || c == ' ' || c == '\u{85}' || c == '\u{a0}' || c
        == '\u{1680}' || ('\u{2000}' <= c && c <= '\u{200a}') || c == '\u{2028}' || c
        == '\u{2029}' || c == '\u{202f}' || c == '\u{205f}' || c == '\u{3000}'
}

/// `s` without the white space at its start.
pub open spec fn trimmed_start(s: Seq<char>) -> Seq<char>
    decreases s.len(),
{
    if s.len() > 0 && is_white(s[0]) {
        trimmed_start(s.skip(1))
    } else {
        s
    }
}

/// `s` without the white space at its end.
pub open spec fn trimmed_end(s: Seq<char>) -> Seq<char>
    decreases s.len(),
{
    if s.len() > 0 && is_white(s.last()) {
        trimmed_end(s.drop_last())
    } else {
        s
    }
}

/// `s` without the white space around it.
pub open spec fn trimmed(s: Seq<char>) -> Seq<char> {
    trimmed_end(trimmed_start(s))
}

/// A text without the white space around it.
pub fn trim(s: &[char]) -> (t: Vec<char>)
    ensures
        t@ == trimmed(s@),
{
    let mut from: usize = 0;
    assert(s@.skip(0) =~= s@);
    while from < s.len() && white(s[from])
        invariant
            from <= s@.len(),
            trimmed_start(s@) == trimmed_start(s@.skip(from as int)),
        decreases s@.len() - from,
    {
        assert(s@.skip(from as int).skip(1) =~= s@.skip(from + 1));
        from = from + 1;
    }
    let ghost start = s@.skip(from as int);
    let mut to: usize = s.len();
    assert(s@.subrange(from as int, to as int) =~= start);
    while to > from && white(s[to - 1])
        invariant
            from <= to <= s@.len(),
            trimmed_end(start) == trimmed_end(s@.subrange(from as int, to as int)),
        decreases to,
    {
        assert(s@.subrange(from as int, to as int).drop_last() =~= s@.subrange(
            from as int,
            to - 1,
        ));
        to = to - 1;
    }
    let mut t: Vec<char> = Vec::new();
    t.extend_from_slice(&s[from..to]);
    t
}

/// Where the first `c` in `s` is; the length of `s` if there is none.
pub open spec fn first_index(s: Seq<char>, c: char) -> nat
    decreases s.len(),
{
    if s.len() == 0 || s[0] == c {
        0
    } else {
        first_index(s.skip(1), c) + 1
    }
}

proof fn lemma_first_index(s: Seq<char>, c: char, at: int)
    requires
        0 <= at <= s.len(),
        forall|j: int| 0 <= j < at ==> s[j] != c,
        at < s.len() ==> s[at] == c,
    ensures
        first_index(s, c) == at,
    decreases at,
{
    if at > 0 {
        let rest = s.skip(1);
        assert forall|j: int| 0 <= j < at - 1 implies rest[j] != c by {
            assert(rest[j] == s[j + 1]);
        }
        lemma_first_index(rest, c, at - 1);
    }
}

pub proof fn lemma_first_index_bound(s: Seq<char>, c: char)
    ensures
        first_index(s, c) <= s.len(),
    decreases s.len(),
{
    if s.len() > 0 && s[0] != c {
        lemma_first_index_bound(s.skip(1), c);
    }
}

/// The pieces of `s` between the occurrences of `c`.
pub open spec fn pieces(s: Seq<char>, c: char) -> Seq<Seq<char>>
    decreases s.len(),
{
    let at = first_index(s, c);
    if at < s.len() {
        seq![s.take(at as int)] + pieces(s.skip(at as int + 1), c)
    } else {
        seq![s]
    }
}

/// The lines of `s`. A line ends with a line feed, or with a carriage return
/// and a line feed; what follows the last of these is a line if there is any
/// of it.
pub open spec fn text_lines(s: Seq<char>) -> Seq<Seq<char>>
    decreases s.len(),
{
    let at = first_index(s, '\n');
    if s.len() == 0 {
        Seq::empty()
    } else if at < s.len() {
        seq![without_return(s.take(at as int))] + text_lines(s.skip(at as int + 1))
    } else {
        seq![s]
    }
}

/// A line without the carriage return at its end.
pub open spec fn without_return(line: Seq<char>) -> Seq<char> {
    if line.len() > 0 && line.last() == '\r' {
        line.drop_last()
    } else {
        line
    }
}

/// The texts in a vector of character vectors.
pub open spec fn char_texts(v: Seq<Vec<char>>) -> Seq<Seq<char>> {
    v.map_values(|t: Vec<char>| t@)
}

/// The next position from `from` on where `c` is; the length of `s` if there
/// is none.
fn find_char(s: &[char], from: usize, c: char) -> (at: usize)
    requires
        from <= s@.len(),
    ensures
        at == from + first_index(s@.skip(from as int), c),
        from <= at <= s@.len(),
{
    let mut at: usize = from;
    while at < s.len() && s[at] != c
        invariant
            from <= at <= s@.len(),
            forall|j: int| from <= j < at ==> s@[j] != c,
        decreases s@.len() - at,
    {
        at = at + 1;
    }
    proof {
        let rest = s@.skip(from as int);
        assert forall|j: int| 0 <= j < at - from implies rest[j] != c by {
            assert(rest[j] == s@[from + j]);
        }
        lemma_first_index(rest, c, at - from);
    }
    at
}

/// The characters from `from` up to `to`.
fn part(s: &[char], from: usize, to: usize) -> (t: Vec<char>)
    requires
        from <= to <= s@.len(),
    ensures
        t@ == s@.subrange(from as int, to as int),
{
    let mut t: Vec<char> = Vec::new();
    t.extend_from_slice(&s[from..to]);
    t
}

/// Split a text at every `c`.
pub fn split_at(s: &[char], c: char) -> (parts: Vec<Vec<char>>)
    ensures
        char_texts(parts@) == pieces(s@, c),
{
    let mut parts: Vec<Vec<char>> = Vec::new();
    let mut from: usize = 0;
    assert(s@.skip(0) =~= s@);
    assert(char_texts(parts@) + pieces(s@, c) =~= pieces(s@, c));
    loop
        invariant
            from <= s@.len(),
            char_texts(parts@) + pieces(s@.skip(from as int), c) == pieces(s@, c),
        decreases s@.len() - from,
    {
        let at: usize = find_char(s, from, c);
        let ghost before = parts@;
        let ghost rest = s@.skip(from as int);
        parts.push(part(s, from, at));
        proof {
            assert(s@.subrange(from as int, at as int) =~= rest.take(at - from));
            assert(char_texts(parts@) =~= char_texts(before).push(rest.take(at - from)));
        }
        if at == s.len() {
            proof {
                assert(rest.take(at - from) =~= rest);
                assert(char_texts(parts@) =~= char_texts(before) + seq![rest]);
            }
            return parts;
        }
        proof {
            assert(rest.skip(at - from + 1) =~= s@.skip(at + 1));
            assert(char_texts(before) + (seq![rest.take(at - from)] + pieces(s@.skip(at + 1), c))
                =~= char_texts(parts@) + pieces(s@.skip(at + 1), c));
        }
        from = at + 1;
    }
}

/// Split a text into its lines.
pub fn split_lines(s: &[char]) -> (lines: Vec<Vec<char>>)
    ensures
        char_texts(lines@) == text_lines(s@),
{
    let mut lines: Vec<Vec<char>> = Vec::new();
    let mut from: usize = 0;
    assert(s@.skip(0) =~= s@);
    assert(char_texts(lines@) + text_lines(s@) =~= text_lines(s@));
    while from < s.len()
        invariant
            from <= s@.len(),
            char_texts(lines@) + text_lines(s@.skip(from as int)) == text_lines(s@),
        decreases s@.len() - from,
    {
        let at: usize = find_char(s, from, '\n');
        let ghost before = lines@;
        let ghost rest = s@.skip(from as int);
        if at == s.len() {
            lines.push(part(s, from, at));
            proof {
                assert(s@.subrange(from as int, at as int) =~= rest);
                assert(char_texts(lines@) =~= char_texts(before) + seq![rest]);
            }
            return lines;
        }
        let end: usize = if at > from && s[at - 1] == '\r' {
            at - 1
        } else {
            at
        };
        lines.push(part(s, from, end));
        proof {
            let line = rest.take(at - from);
            assert(s@.subrange(from as int, end as int) =~= without_return(line));
            assert(char_texts(lines@) =~= char_texts(before).push(without_return(line)));
            assert(rest.skip(at - from + 1) =~= s@.skip(at + 1));
            assert(char_texts(before) + (seq![without_return(line)] + text_lines(s@.skip(at + 1)))
                =~= char_texts(lines@) + text_lines(s@.skip(at + 1)));
        }
        from = at + 1;
    }
    assert(s@.skip(from as int) =~= Seq::empty());
    assert(char_texts(lines@) + Seq::<Seq<char>>::empty() =~= char_texts(lines@));
    lines
}

/// The words of `s`: its maximal parts without white space.
pub open spec fn words(s: Seq<char>) -> Seq<Seq<char>>
    decreases s.len(),
{
    if s.len() == 0 {
        Seq::empty()
    } else if is_white(s[0]) {
        words(s.skip(1))
    } else {
        let n = word_len(s);
        proof {
            lemma_word_len(s);
        }
        seq![s.take(n as int)] + words(s.skip(n as int))
    }
}

/// How many characters without white space `s` begins with.
pub open spec fn word_len(s: Seq<char>) -> nat
    decreases s.len(),
{
    if s.len() == 0 || is_white(s[0]) {
        0
    } else {
        word_len(s.skip(1)) + 1
    }
}

pub proof fn lemma_word_len(s: Seq<char>)
    ensures
        word_len(s) <= s.len(),
        s.len() > 0 && !is_white(s[0]) ==> word_len(s) >= 1,
    decreases s.len(),
{
    if s.len() > 0 && !is_white(s[0]) {
        lemma_word_len(s.skip(1));
    }
}

/// Split a text into its words.
pub fn split_words(s: &[char]) -> (found: Vec<Vec<char>>)
    ensures
        char_texts(found@) == words(s@),
{
    let mut found: Vec<Vec<char>> = Vec::new();
    let mut from: usize = 0;
    assert(s@.skip(0) =~= s@);
    assert(char_texts(found@) + words(s@) =~= words(s@));
    while from < s.len()
        invariant
            from <= s@.len(),
            char_texts(found@) + words(s@.skip(from as int)) == words(s@),
        decreases s@.len() - from,
    {
        let ghost rest = s@.skip(from as int);
        if white(s[from]) {
            assert(rest.skip(1) =~= s@.skip(from + 1));
            from = from + 1;
        } else {
            let mut to: usize = from;
            assert(s@.skip(to as int) =~= rest);
            while to < s.len() && !white(s[to])
                invariant
                    from <= to <= s@.len(),
                    rest == s@.skip(from as int),
                    word_len(rest) == (to - from) + word_len(s@.skip(to as int)),
                decreases s@.len() - to,
            {
                assert(s@.skip(to as int).skip(1) =~= s@.skip(to + 1));
                to = to + 1;
            }
            let ghost before = found@;
            found.push(part(s, from, to));
            proof {
                lemma_word_len(rest);
                assert(s@.subrange(from as int, to as int) =~= rest.take(to - from));
                assert(char_texts(found@) =~= char_texts(before).push(rest.take(to - from)));
                assert(rest.skip(to - from) =~= s@.skip(to as int));
                assert(char_texts(before) + (seq![rest.take(to - from)] + words(
                    s@.skip(to as int),
                )) =~= char_texts(found@) + words(s@.skip(to as int)));
            }
            from = to;
        }
    }
    assert(s@.skip(from as int) =~= Seq::empty());
    assert(char_texts(found@) + Seq::<Seq<char>>::empty() =~= char_texts(found@));
    found
}

/// The number that decimal digits spell; `None` if one is no digit.
pub open spec fn digits_value(s: Seq<char>) -> Option<nat>
    decreases s.len(),
{
    if s.len() == 0 {
        Some(0)
    } else if '0' <= s.last() <= '9' {
        match digits_value(s.drop_last()) {
            Some(n) => Some(10 * n + (s.last() as nat - '0' as nat) as nat),
            None => None,
        }
    } else {
        None
    }
}

/// The 64-bit number that a text spells: one or more decimal digits, with or
/// without a plus sign in front.
pub open spec fn parsed_u64(s: Seq<char>) -> Option<u64> {
    let digits = if s.len() > 0 && s[0] == '+' {
        s.skip(1)
    } else {
        s
    };
    match digits_value(digits) {
        Some(n) => if digits.len() > 0 && n <= u64::MAX {
            Some(n as u64)
        } else {
            None
        },
        None => None,
    }
}

/// Digits spell no less than a part from their front does.
proof fn lemma_digits_prefix(s: Seq<char>, k: int)
    requires
        0 <= k <= s.len(),
    ensures
        digits_value(s) matches Some(n) ==> (digits_value(s.take(k)) matches Some(m) && m <= n),
    decreases s.len() - k,
{
    if k < s.len() {
        lemma_digits_prefix(s, k + 1);
        assert(s.take(k + 1).drop_last() =~= s.take(k));
    } else {
        assert(s.take(k) =~= s);
    }
}

/// Read a 64-bit number from its decimal text.
pub fn parse_u64(s: &str) -> (r: Option<u64>)
    ensures
        r == parsed_u64(s@),
{
    let chars = chars_of(s);
    let from: usize = if chars.len() > 0 && chars[0] == '+' {
        1
    } else {
        0
    };
    let ghost digits = chars@.skip(from as int);
    assert(from == 0 ==> digits =~= chars@);
    if chars.len() == from {
        return None;
    }
    let mut value: u64 = 0;
    let mut i: usize = from;
    assert(digits.take(0) =~= Seq::<char>::empty());
    while i < chars.len()
        invariant
            from <= i <= chars@.len(),
            digits == chars@.skip(from as int),
            digits.len() > 0,
            digits_value(digits.take(i - from)) == Some(value as nat),
            parsed_u64(chars@) == (match digits_value(digits) {
                Some(n) => if n <= u64::MAX {
                    Some(n as u64)
                } else {
                    None
                },
                None => None,
            }),
            chars@ == s@,
        decreases chars@.len() - i,
    {
        let c: char = chars[i];
        let ghost next = digits.take(i - from + 1);
        proof {
            assert(next.drop_last() =~= digits.take(i - from));
            assert(next.last() == c);
            lemma_digits_prefix(digits, i - from + 1);
        }
        if c < '0' || '9' < c {
            return None;
        }
        let digit: u64 = (c as u32 - '0' as u32) as u64;
        if value > 1_844_674_407_370_955_161 || value == 1_844_674_407_370_955_161 && digit > 5 {
            return None;
        }
        value = value * 10 + digit;
        i = i + 1;
    }
    assert(digits.take(digits.len() as int) =~= digits);
    Some(value)
}

/// A text of one decimal digit is read as that digit.
pub proof fn digit_is_read(s: &str, digit: u64, r: Option<u64>)
    requires
        call_ensures(parse_u64, (s,), r),
        digit < 10,
        s@ == seq![(48 + digit) as char],
    ensures
        r == Some(digit),
{
    assert(s@.drop_last() =~= Seq::<char>::empty());
    reveal_with_fuel(digits_value, 2);
}

/// A number with one more digit behind it is read as ten times the number plus the
/// digit, as long as 64 bits hold that, and as nothing beyond.
pub proof fn digits_are_decimal_places(
    s: &str,
    n: u64,
    t: &str,
    digit: u64,
    r: Option<u64>,
)
    requires
        call_ensures(parse_u64, (s,), Some(n)),
        call_ensures(parse_u64, (t,), r),
        digit < 10,
        t@ == s@.push((48 + digit) as char),
    ensures
        r == if 10 * n + digit <= 18446744073709551615 {
            Some((10 * n + digit) as u64)
        } else {
            None
        },
{
    let c = (48 + digit) as char;
    assert(t@.drop_last() =~= s@);
    assert(s@.len() > 0);
    if s@[0] == '+' {
        assert(t@.skip(1) =~= s@.skip(1).push(c));
        assert(t@.skip(1).drop_last() =~= s@.skip(1));
    }
}

/// A plus sign in front of a number changes nothing.
pub proof fn plus_sign_is_ignored(s: &str, n: u64, t: &str, r: Option<u64>)
    requires
        call_ensures(parse_u64, (s,), Some(n)),
        s@[0] != '+',
        t@ == seq!['+'] + s@,
        call_ensures(parse_u64, (t,), r),
    ensures
        r == Some(n),
{
    assert(t@.skip(1) =~= s@);
}

/// What holds no digit, or anything but digits behind its first character, or in
/// front anything but a digit or a plus sign, is no number.
pub proof fn other_text_is_no_number(s: &str, i: int, r: Option<u64>)
    requires
        call_ensures(parse_u64, (s,), r),
        s@.len() == 0 || s@ == seq!['+'] || (0 <= i < s@.len() && !(48 <= s@[i] as u32 <= 57)
            && !(i == 0 && s@[i] == '+')),
    ensures
        r is None,
{
    if s@.len() > 0 && s@ != seq!['+'] {
        if s@[0] == '+' {
            assert(s@.skip(1)[i - 1] == s@[i]);
            lemma_no_digits(s@.skip(1), i - 1);
        } else {
            lemma_no_digits(s@, i);
        }
    } else if s@.len() > 0 {
        assert(s@.skip(1) =~= Seq::<char>::empty());
    }
}

proof fn lemma_no_digits(s: Seq<char>, i: int)
    requires
        0 <= i < s.len(),
        !('0' <= s[i] <= '9'),
    ensures
        digits_value(s) is None,
    decreases s.len(),
{
    if i < s.len() - 1 {
        lemma_no_digits(s.drop_last(), i);
    }
}

/// The numeral of a number is read back as the number. It is made of decimal digits
/// alone, and only that of zero begins with a zero.
pub proof fn numerals_are_read_back(n: u64, text: String, s: &str, r: Option<u64>, i: int)
    requires
        call_ensures(decimal_text, (n,), text),
        s@ == text@,
        call_ensures(parse_u64, (s,), r),
        0 <= i < text@.len(),
    ensures
        r == Some(n),
        48 <= text@[i] as u32 <= 57,
        n > 0 ==> text@[0] != '0',
{
    lemma_numeral(n as nat);
    assert('0' <= text@[i] <= '9');
}

/// A numeral spells its number.
pub proof fn lemma_numeral(n: nat)
    ensures
        decimal(n).len() > 0,
        digits_value(decimal(n)) == Some(n),
        forall|i: int| 0 <= i < decimal(n).len() ==> '0' <= #[trigger] decimal(n)[i] <= '9',
        n > 0 ==> decimal(n)[0] != '0',
    decreases n,
{
    if n >= 10 {
        lemma_numeral(n / 10);
        assert(decimal(n).drop_last() =~= decimal(n / 10));
    } else {
        assert(decimal(n).drop_last() =~= Seq::<char>::empty());
        reveal_with_fuel(digits_value, 2);
    }
}

/// The text of a numeral is the number.
pub proof fn lemma_numeral_is_parsed(n: u64)
    ensures
        parsed_u64(decimal(n as nat)) == Some(n),
{
    lemma_numeral(n as nat);
    assert('0' <= decimal(n as nat)[0] <= '9');
}

/// White space is U+0009 to U+000D, U+0020, U+0085, U+00A0, U+1680, U+2000 to
/// U+200A, U+2028, U+2029, U+202F, U+205F and U+3000.
pub proof fn white_space_code_points(c: char, b: bool)
    requires
        call_ensures(white, (c,), b),
    ensures
        b <==> {
            ||| 9 <= c as u32 <= 13
            ||| c as u32 == 32
            ||| c as u32 == 133
            ||| c as u32 == 160
            ||| c as u32 == 5760
            ||| 8192 <= c as u32 <= 8202
            ||| c as u32 == 8232
            ||| c as u32 == 8233
            ||| c as u32 == 8239
            ||| c as u32 == 8287
            ||| c as u32 == 12288
        },
{
}

/// What is trimmed stands in the text as it is, with white space alone in front and
/// behind, and neither begins nor ends with white space.
pub proof fn trimming_takes_white_space(
    s: &[char],
    t: Vec<char>,
    front: Seq<char>,
    core: Seq<char>,
    back: Seq<char>,
)
    requires
        call_ensures(trim, (s,), t),
        s@ == front + core + back,
        forall|i: int| 0 <= i < front.len() ==> is_white(#[trigger] front[i]),
        forall|i: int| 0 <= i < back.len() ==> is_white(#[trigger] back[i]),
        core.len() > 0 ==> !is_white(core[0]) && !is_white(core.last()),
    ensures
        t@ == core,
{
    lemma_trimmed_start(front, core + back);
    assert(front + (core + back) =~= s@);
    if core.len() > 0 {
        assert((core + back)[0] == core[0]);
        assert(trimmed_start(core + back) == core + back);
        lemma_trimmed_end(core, back);
    } else {
        assert(core + back =~= back);
        lemma_trimmed_start(back, Seq::empty());
        assert(back + Seq::<char>::empty() =~= back);
        assert(trimmed_start(Seq::<char>::empty()) =~= Seq::empty());
        assert(trimmed_end(Seq::<char>::empty()) =~= core);
    }
}

proof fn lemma_trimmed_start(front: Seq<char>, rest: Seq<char>)
    requires
        forall|i: int| 0 <= i < front.len() ==> is_white(#[trigger] front[i]),
    ensures
        trimmed_start(front + rest) == trimmed_start(rest),
    decreases front.len(),
{
    if front.len() > 0 {
        assert(is_white(front[0]));
        assert((front + rest).skip(1) =~= front.skip(1) + rest);
        lemma_trimmed_start(front.skip(1), rest);
    } else {
        assert(front + rest =~= rest);
    }
}

proof fn lemma_trimmed_end(core: Seq<char>, back: Seq<char>)
    requires
        core.len() > 0,
        !is_white(core.last()),
        forall|i: int| 0 <= i < back.len() ==> is_white(#[trigger] back[i]),
    ensures
        trimmed_end(core + back) == core,
    decreases back.len(),
{
    if back.len() > 0 {
        assert(is_white(back[back.len() - 1]));
        assert((core + back).drop_last() =~= core + back.drop_last());
        lemma_trimmed_end(core, back.drop_last());
    } else {
        assert(core + back =~= core);
    }
}

/// A text in which a character does not occur is one piece. Else its first piece is
/// what stands before the first occurrence, and the others are those of what stands
/// behind it.
pub proof fn text_is_split_at_each(
    s: &[char],
    c: char,
    parts: Vec<Vec<char>>,
    head: Seq<char>,
    tail: &[char],
    tail_parts: Vec<Vec<char>>,
)
    requires
        call_ensures(split_at, (s, c), parts),
        call_ensures(split_at, (tail, c), tail_parts),
        forall|i: int| 0 <= i < head.len() ==> #[trigger] head[i] != c,
    ensures
        s@ == head ==> parts@.len() == 1 && parts@[0]@ == head,
        s@ == head.push(c) + tail@ ==> parts@.len() == 1 + tail_parts@.len() && parts@[0]@ == head
            && forall|i: int|
            0 <= i < tail_parts@.len() ==> #[trigger] tail_parts@[i]@ == parts@[i + 1]@,
{
    let texts = char_texts(parts@);
    let tail_texts = char_texts(tail_parts@);
    assert(parts@.len() == texts.len() && tail_parts@.len() == tail_texts.len());
    if s@ == head {
        lemma_first_index(s@, c, head.len() as int);
        assert(parts@[0]@ == texts[0]);
    }
    if s@ == head.push(c) + tail@ {
        lemma_first_index(s@, c, head.len() as int);
        assert(s@.take(head.len() as int) =~= head);
        assert(s@.skip(head.len() as int + 1) =~= tail@);
        assert(texts == seq![head] + tail_texts);
        assert(parts@[0]@ == texts[0]);
        assert forall|i: int| 0 <= i < tail_parts@.len() implies #[trigger] tail_parts@[i]@
            == parts@[i + 1]@ by {
            assert(tail_texts[i] == texts[i + 1]);
        }
    }
}

/// An empty text has no lines, and a text without line feed is one. Else the
/// first line is what stands before the first line feed, less a carriage return
/// at its end, and the others are those of what stands behind it.
pub proof fn lines_end_with_line_feeds(
    s: &[char],
    lines: Vec<Vec<char>>,
    head: Seq<char>,
    tail: &[char],
    tail_lines: Vec<Vec<char>>,
)
    requires
        call_ensures(split_lines, (s,), lines),
        call_ensures(split_lines, (tail,), tail_lines),
        forall|i: int| 0 <= i < head.len() ==> #[trigger] head[i] != '\n',
    ensures
        s@.len() == 0 ==> lines@.len() == 0,
        s@ == head && head.len() > 0 ==> lines@.len() == 1 && lines@[0]@ == head,
        s@ == head.push('\n') + tail@ ==> {
            &&& lines@.len() == 1 + tail_lines@.len()
            &&& lines@[0]@ == if head.len() > 0 && head.last() == '\r' {
                head.drop_last()
            } else {
                head
            }
            &&& forall|i: int|
                0 <= i < tail_lines@.len() ==> #[trigger] tail_lines@[i]@ == lines@[i + 1]@
        },
{
    let texts = char_texts(lines@);
    let tail_texts = char_texts(tail_lines@);
    assert(lines@.len() == texts.len() && tail_lines@.len() == tail_texts.len());
    if s@ == head && head.len() > 0 {
        lemma_first_index(s@, '\n', head.len() as int);
        assert(lines@[0]@ == texts[0]);
    }
    if s@ == head.push('\n') + tail@ {
        lemma_first_index(s@, '\n', head.len() as int);
        assert(s@.take(head.len() as int) =~= head);
        assert(s@.skip(head.len() as int + 1) =~= tail@);
        assert(texts == seq![without_return(head)] + tail_texts);
        assert(lines@[0]@ == texts[0]);
        assert forall|i: int| 0 <= i < tail_lines@.len() implies #[trigger] tail_lines@[i]@
            == lines@[i + 1]@ by {
            assert(tail_texts[i] == texts[i + 1]);
        }
    }
}

/// White space in front of a text changes none of its words, and a text that begins
/// with a word, followed by white space or by nothing, has that word and those of
/// what follows.
pub proof fn words_stand_between_white_space(
    s: &[char],
    found: Vec<Vec<char>>,
    word: Seq<char>,
    tail: &[char],
    tail_found: Vec<Vec<char>>,
)
    requires
        call_ensures(split_words, (s,), found),
        call_ensures(split_words, (tail,), tail_found),
        s@ == word + tail@,
        forall|i: int| 0 <= i < word.len() ==> !is_white(#[trigger] word[i]),
        tail@.len() > 0 ==> is_white(tail@[0]),
    ensures
        word.len() == 0 && tail@.len() == 0 ==> found@.len() == 0,
        word.len() > 0 ==> found@.len() == 1 + tail_found@.len() && found@[0]@ == word
            && forall|i: int|
            0 <= i < tail_found@.len() ==> #[trigger] tail_found@[i]@ == found@[i + 1]@,
{
    let texts = char_texts(found@);
    let tail_texts = char_texts(tail_found@);
    assert(found@.len() == texts.len() && tail_found@.len() == tail_texts.len());
    if word.len() > 0 {
        assert(!is_white(word[0]) && s@[0] == word[0]);
        lemma_word_then(word, tail@);
        assert(s@.take(word.len() as int) =~= word);
        assert(s@.skip(word.len() as int) =~= tail@);
        assert(texts == seq![word] + tail_texts);
        assert(found@[0]@ == texts[0]);
        assert forall|i: int| 0 <= i < tail_found@.len() implies #[trigger] tail_found@[i]@
            == found@[i + 1]@ by {
            assert(tail_texts[i] == texts[i + 1]);
        }
    }
}

/// A white space character in front of a text changes none of its words.
pub proof fn words_ignore_white_space_in_front(
    s: &[char],
    found: Vec<Vec<char>>,
    c: char,
    tail: &[char],
    tail_found: Vec<Vec<char>>,
)
    requires
        call_ensures(split_words, (s,), found),
        call_ensures(split_words, (tail,), tail_found),
        is_white(c),
        s@ == seq![c] + tail@,
    ensures
        char_texts(found@) == char_texts(tail_found@),
{
    assert(s@.skip(1) =~= tail@);
}

proof fn lemma_word_then(word: Seq<char>, tail: Seq<char>)
    requires
        forall|i: int| 0 <= i < word.len() ==> !is_white(#[trigger] word[i]),
        tail.len() > 0 ==> is_white(tail[0]),
    ensures
        word_len(word + tail) == word.len(),
    decreases word.len(),
{
    if word.len() > 0 {
        assert(!is_white(word[0]) && (word + tail)[0] == word[0]);
        assert((word + tail).skip(1) =~= word.skip(1) + tail);
        lemma_word_then(word.skip(1), tail);
    } else {
        assert(word + tail =~= tail);
    }
}

/// A text begins with what it continues, ends with what it is continued by, and
/// contains what stands between; two texts are the same exactly if they agree in
/// length and in each character.
pub proof fn parts_are_found(
    s: &str,
    part: &str,
    front: Seq<char>,
    back: Seq<char>,
    begins: bool,
    ends: bool,
    contains: bool,
    same: bool,
)
    requires
        call_ensures(has_prefix, (s, part), begins),
        call_ensures(has_suffix, (s, part), ends),
        call_ensures(contains_text, (s, part), contains),
        call_ensures(same_text, (s, part), same),
    ensures
        s@ == part@ + back ==> begins,
        s@ == front + part@ ==> ends,
        s@ == front + part@ + back ==> contains,
        begins ==> s@.len() >= part@.len() && forall|i: int|
            0 <= i < part@.len() ==> #[trigger] part@[i] == s@[i],
        ends ==> s@.len() >= part@.len() && forall|i: int|
            0 <= i < part@.len() ==> #[trigger] part@[i] == s@[i + s@.len() - part@.len()],
        contains ==> exists|at: int| #[trigger]
            s@.take(at).len() == at && at + part@.len() <= s@.len() && s@.subrange(
                at,
                at + part@.len(),
            ) == part@,
        same <==> s@.len() == part@.len() && forall|i: int|
            0 <= i < part@.len() ==> #[trigger] part@[i] == s@[i],
{
    if s@ == part@ + back {
        assert(s@.subrange(0, part@.len() as int) =~= part@);
    }
    if s@ == front + part@ {
        assert(s@.subrange(front.len() as int, s@.len() as int) =~= part@);
    }
    if s@ == front + part@ + back {
        assert(s@.subrange(front.len() as int, front.len() as int + part@.len()) =~= part@);
        assert(stands_at(s@, part@, front.len() as int));
    }
    if begins {
        let head = s@.subrange(0, part@.len() as int);
        assert forall|i: int| 0 <= i < part@.len() implies #[trigger] part@[i] == s@[i] by {
            assert(head[i] == s@[i]);
        }
    }
    if ends {
        let end = s@.subrange(s@.len() - part@.len(), s@.len() as int);
        assert forall|i: int| 0 <= i < part@.len() implies #[trigger] part@[i] == s@[i + s@.len()
            - part@.len()] by {
            assert(end[i] == s@[i + s@.len() - part@.len()]);
        }
    }
    if contains {
        let at = choose|at: int| #[trigger] stands_at(s@, part@, at);
        assert(s@.take(at).len() == at);
    }
    if s@.len() == part@.len() && forall|i: int|
        0 <= i < part@.len() ==> #[trigger] part@[i] == s@[i] {
        assert(s@ =~= part@);
    }
}

/// A text is the characters it is made of, and is made of them again; a counted
/// text is its prefix, the numeral and its suffix, and a numbered one has none.
pub proof fn texts_are_put_together(
    s: &str,
    chars: Vec<char>,
    slice: &[char],
    again: String,
    prefix: &str,
    n: u64,
    numeral: String,
    suffix: &str,
    numbered: String,
    counted: String,
    i: int,
)
    requires
        call_ensures(chars_of, (s,), chars),
        slice@ == chars@,
        call_ensures(text_of, (slice,), again),
        call_ensures(decimal_text, (n,), numeral),
        call_ensures(numbered_text, (prefix, n), numbered),
        call_ensures(counted_text, (prefix, n, suffix), counted),
    ensures
        chars@.len() == s@.len(),
        0 <= i < s@.len() ==> chars@[i] == s@[i],
        again@ == s@,
        numbered@ == prefix@ + numeral@,
        counted@ == prefix@ + numeral@ + suffix@,
{
}

} // verus!
