//! Character-level text utilities shared by the parsers.
//!
//! All specifications are stated over `Seq<char>`, the view of `str` and `String`.

use vstd::prelude::*;
use vstd::string::StringExecFns;

verus! {

/// The characters Unicode classifies as `White_Space`.
pub open spec fn is_space(c: char) -> bool {
    let n = c as u32;
    (0x09 <= n <= 0x0d) || n == 0x20 || n == 0x85 || n == 0xa0 || n == 0x1680 || (0x2000 <= n
        <= 0x200a) || n == 0x2028 || n == 0x2029 || n == 0x202f || n == 0x205f || n == 0x3000
}

/// The ASCII whitespace characters: space, tab, line feed, form feed and carriage return.
pub open spec fn is_ascii_space(c: char) -> bool {
    c == ' ' || c == '\t' || c == '\n' || c == '\x0c' || c == '\r'
}

/// Whether `c` separates words: by the ASCII class if `ascii`, else by the Unicode one.
pub open spec fn separates(c: char, ascii: bool) -> bool {
    if ascii {
        is_ascii_space(c)
    } else {
        is_space(c)
    }
}

/// Whether `c` is whitespace as Unicode has it.
pub fn char_is_space(c: char) -> (r: bool)
    ensures
        r == is_space(c),
{
    let n: u32 = c as u32;
    (0x09 <= n && n <= 0x0d) || n == 0x20 || n == 0x85 || n == 0xa0 || n == 0x1680 || (0x2000 <= n
        && n <= 0x200a) || n == 0x2028 || n == 0x2029 || n == 0x202f || n == 0x205f || n == 0x3000
}

/// Whether `c` is ASCII whitespace.
pub fn char_is_ascii_space(c: char) -> (r: bool)
    ensures
        r == is_ascii_space(c),
{
    c == ' ' || c == '\t' || c == '\n' || c == '\x0c' || c == '\r'
}

/// Whether `c` separates words.
pub fn char_separates(c: char, ascii: bool) -> (r: bool)
    ensures
        r == separates(c, ascii),
{
    if ascii {
        char_is_ascii_space(c)
    } else {
        char_is_space(c)
    }
}

/// The characters of `s`, in order.
pub fn to_chars(s: &str) -> (chars: Vec<char>)
    ensures
        chars@ == s@,
{
    let mut chars: Vec<char> = Vec::new();
    for c in it: s.chars()
        invariant
            chars@ == it.seq().take(it.index()),
            it.seq() == s@,
    {
        chars.push(c);
    }
    chars
}

/// The first index at or after `from` that holds no separator; the length if there is none.
pub open spec fn skip_spaces(s: Seq<char>, from: int, ascii: bool) -> int
    decreases s.len() - from,
{
    if 0 <= from < s.len() && separates(s[from], ascii) {
        skip_spaces(s, from + 1, ascii)
    } else {
        from
    }
}

/// The first index at or after `from` that holds a separator; the length if there is none.
pub open spec fn skip_word(s: Seq<char>, from: int, ascii: bool) -> int
    decreases s.len() - from,
{
    if 0 <= from < s.len() && !separates(s[from], ascii) {
        skip_word(s, from + 1, ascii)
    } else {
        from
    }
}

/// The bounds of the first word that starts at or after `from`: a maximal run of
/// characters that are not separators.
pub open spec fn word_at(s: Seq<char>, from: int, ascii: bool) -> Option<(int, int)> {
    let start = skip_spaces(s, from, ascii);
    if start < s.len() {
        Some((start, skip_word(s, start, ascii)))
    } else {
        None
    }
}

/// The bounds of the word number `n` of `s`, counting from zero.
pub open spec fn nth_word(s: Seq<char>, n: nat, ascii: bool) -> Option<(int, int)>
    decreases n,
{
    if n == 0 {
        word_at(s, 0, ascii)
    } else {
        match nth_word(s, (n - 1) as nat, ascii) {
            Some((_, end)) => word_at(s, end, ascii),
            None => None,
        }
    }
}

/// Finds the first word that starts at or after `from`.
pub fn next_word(chars: &[char], from: usize, ascii: bool) -> (r: Option<(usize, usize)>)
    requires
        from <= chars@.len(),
    ensures
        match r {
            Some((a, b)) => word_at(chars@, from as int, ascii) == Some((a as int, b as int))
                && from <= a < b <= chars@.len(),
            None => word_at(chars@, from as int, ascii) is None,
        },
{
    let n = chars.len();
    let mut start: usize = from;
    while start < n && char_separates(chars[start], ascii)
        invariant
            n == chars@.len(),
            from <= start <= n,
            skip_spaces(chars@, from as int, ascii) == skip_spaces(chars@, start as int, ascii),
        decreases n - start,
    {
        start += 1;
    }
    if start >= n {
        return None;
    }
    let mut end: usize = start + 1;
    proof {
        assert(skip_word(chars@, start as int, ascii) == skip_word(chars@, start + 1, ascii));
    }
    while end < n && !char_separates(chars[end], ascii)
        invariant
            n == chars@.len(),
            start < end <= n,
            skip_word(chars@, start as int, ascii) == skip_word(chars@, end as int, ascii),
        decreases n - end,
    {
        end += 1;
    }
    Some((start, end))
}

/// Finds the word number `n`, counting from zero.
pub fn word(chars: &[char], n: usize, ascii: bool) -> (r: Option<(usize, usize)>)
    ensures
        match r {
            Some((a, b)) => nth_word(chars@, n as nat, ascii) == Some((a as int, b as int)) && a
                < b <= chars@.len(),
            None => nth_word(chars@, n as nat, ascii) is None,
        },
{
    let mut found = next_word(chars, 0, ascii);
    let mut i: usize = 0;
    while i < n
        invariant
            i <= n,
            match found {
                Some((a, b)) => nth_word(chars@, i as nat, ascii) == Some((a as int, b as int))
                    && a < b <= chars@.len(),
                None => nth_word(chars@, i as nat, ascii) is None,
            },
        decreases n - i,
    {
        match found {
            Some((_, end)) => {
                found = next_word(chars, end, ascii);
            },
            None => {
                proof {
                    lemma_nth_word_none_stays(chars@, i as nat, n as nat, ascii);
                }
                return None;
            },
        }
        i += 1;
    }
    found
}

/// Once a text has run out of words, every later word is missing too.
pub proof fn lemma_nth_word_none_stays(s: Seq<char>, i: nat, n: nat, ascii: bool)
    requires
        i <= n,
        nth_word(s, i, ascii) is None,
    ensures
        nth_word(s, n, ascii) is None,
    decreases n,
{
    if i < n {
        lemma_nth_word_none_stays(s, i, (n - 1) as nat, ascii);
    }
}

/// Whether `pattern` stands in `s` at index `at`.
pub open spec fn occurs_at(s: Seq<char>, at: int, pattern: Seq<char>) -> bool {
    0 <= at && at + pattern.len() <= s.len() && s.subrange(at, at + pattern.len()) == pattern
}

/// Whether `pattern` stands somewhere in `s`.
pub open spec fn contains(s: Seq<char>, pattern: Seq<char>) -> bool {
    exists|at: int| occurs_at(s, at, pattern)
}

/// Whether `pattern` stands in the text at index `at`.
pub fn matches_at(chars: &[char], at: usize, pattern: &[char]) -> (r: bool)
    ensures
        r == occurs_at(chars@, at as int, pattern@),
{
    let n = chars.len();
    let m = pattern.len();
    if at > n || m > n - at {
        return false;
    }
    let mut k: usize = 0;
    while k < m
        invariant
            n == chars@.len(),
            m == pattern@.len(),
            at + m <= n,
            k <= m,
            forall|j: int| 0 <= j < k ==> chars@[at + j] == pattern@[j],
        decreases m - k,
    {
        if chars[at + k] != pattern[k] {
            proof {
                assert(chars@.subrange(at as int, at + m)[k as int] == chars@[at + k]);
            }
            return false;
        }
        k += 1;
    }
    proof {
        assert(chars@.subrange(at as int, at + m) =~= pattern@);
    }
    true
}

/// Whether the text begins with `prefix`.
pub fn starts_with(chars: &[char], prefix: &[char]) -> (r: bool)
    ensures
        r == prefix@.is_prefix_of(chars@),
{
    matches_at(chars, 0, prefix)
}

/// Whether the two texts hold the same characters.
pub fn same(a: &[char], b: &[char]) -> (r: bool)
    ensures
        r == (a@ == b@),
{
    if a.len() != b.len() {
        return false;
    }
    let r = matches_at(a, 0, b);
    proof {
        assert(a@.subrange(0, a@.len() as int) =~= a@);
    }
    r
}

/// Whether `pattern` stands somewhere in the text.
pub fn includes(chars: &[char], pattern: &[char]) -> (r: bool)
    ensures
        r == contains(chars@, pattern@),
{
    let n = chars.len();
    let m = pattern.len();
    if m > n {
        return false;
    }
    let last = n - m;
    let mut at: usize = 0;
    loop
        invariant
            n == chars@.len(),
            m == pattern@.len(),
            last == n - m,
            at <= last,
            forall|j: int| 0 <= j < at ==> !occurs_at(chars@, j, pattern@),
        decreases last - at,
    {
        if matches_at(chars, at, pattern) {
            return true;
        }
        if at == last {
            return false;
        }
        at += 1;
    }
}

/// The index of the first `c` at or after `from`; the length if there is none.
pub open spec fn index_of(s: Seq<char>, from: int, c: char) -> int
    decreases s.len() - from,
{
    if 0 <= from < s.len() && s[from] != c {
        index_of(s, from + 1, c)
    } else {
        from
    }
}

/// Finds the first `c` at or after `from`, or the length of the text.
pub fn find_char(chars: &[char], from: usize, c: char) -> (at: usize)
    requires
        from <= chars@.len(),
    ensures
        at == index_of(chars@, from as int, c),
        from <= at <= chars@.len(),
{
    let n = chars.len();
    let mut at: usize = from;
    while at < n && chars[at] != c
        invariant
            n == chars@.len(),
            from <= at <= n,
            index_of(chars@, from as int, c) == index_of(chars@, at as int, c),
        decreases n - at,
    {
        at += 1;
    }
    at
}

/// The length of `s` without the whitespace at its end.
pub open spec fn trimmed_end(s: Seq<char>) -> int
    decreases s.len(),
{
    if s.len() > 0 && is_space(s.last()) {
        trimmed_end(s.drop_last())
    } else {
        s.len() as int
    }
}

/// The index at which `s` begins once the whitespace at its start is skipped.
pub open spec fn trimmed_start(s: Seq<char>) -> int {
    skip_spaces(s, 0, false)
}

/// `s` without the whitespace at its start and at its end.
pub open spec fn trimmed(s: Seq<char>) -> Seq<char> {
    let start = trimmed_start(s);
    let end = trimmed_end(s);
    if start <= end {
        s.subrange(start, end)
    } else {
        Seq::empty()
    }
}

/// What is left of a text without the whitespace at its end does not end in
/// whitespace, and only whitespace follows it.
pub proof fn lemma_trimmed_end_bounds(s: Seq<char>)
    ensures
        0 <= trimmed_end(s) <= s.len(),
        trimmed_end(s) > 0 ==> !is_space(s[trimmed_end(s) - 1]),
        forall|k: int| trimmed_end(s) <= k < s.len() ==> is_space(#[trigger] s[k]),
    decreases s.len(),
{
    if s.len() > 0 && is_space(s.last()) {
        lemma_trimmed_end_bounds(s.drop_last());
        assert forall|k: int| trimmed_end(s) <= k < s.len() implies is_space(#[trigger] s[k]) by {
            if k < s.len() - 1 {
                assert(s.drop_last()[k] == s[k]);
            }
        }
        if trimmed_end(s) > 0 {
            assert(s.drop_last()[trimmed_end(s) - 1] == s[trimmed_end(s) - 1]);
        }
    }
}

/// The length of the text without the whitespace at its end.
pub fn trim_end_index(chars: &[char]) -> (end: usize)
    ensures
        end == trimmed_end(chars@),
        end <= chars@.len(),
{
    let mut end: usize = chars.len();
    proof {
        assert(chars@.take(end as int) =~= chars@);
    }
    while end > 0 && char_is_space(chars[end - 1])
        invariant
            end <= chars@.len(),
            trimmed_end(chars@) == trimmed_end(chars@.take(end as int)),
        decreases end,
    {
        proof {
            assert(chars@.take(end as int).last() == chars@[end - 1]);
            assert(chars@.take(end as int).drop_last() =~= chars@.take(end - 1));
        }
        end -= 1;
    }
    proof {
        if end > 0 {
            assert(chars@.take(end as int).last() == chars@[end - 1]);
        }
        lemma_trimmed_end_bounds(chars@);
    }
    end
}

/// The index at which the text begins once the whitespace at its start is skipped.
pub fn trim_start_index(chars: &[char]) -> (start: usize)
    ensures
        start == trimmed_start(chars@),
        start <= chars@.len(),
{
    let n = chars.len();
    let mut start: usize = 0;
    while start < n && char_is_space(chars[start])
        invariant
            n == chars@.len(),
            start <= n,
            skip_spaces(chars@, 0, false) == skip_spaces(chars@, start as int, false),
        decreases n - start,
    {
        start += 1;
    }
    start
}

/// Whether `c` is one of the ASCII digits `0` to `9`.
pub open spec fn is_digit(c: char) -> bool {
    '0' <= c <= '9'
}

/// The value of the ASCII digit `c`.
pub open spec fn digit_value(c: char) -> int {
    c as u32 - '0' as u32
}

/// Whether `s` holds ASCII digits only.
pub open spec fn all_digits(s: Seq<char>) -> bool {
    forall|i: int| 0 <= i < s.len() ==> is_digit(#[trigger] s[i])
}

/// The number that the digits of `s` write in base ten; zero for the empty text.
pub open spec fn decimal_value(s: Seq<char>) -> int
    decreases s.len(),
{
    if s.len() == 0 {
        0
    } else {
        decimal_value(s.drop_last()) * 10 + digit_value(s.last())
    }
}

/// `s` without the one `+` that may stand at its start.
pub open spec fn unsigned_digits(s: Seq<char>) -> Seq<char> {
    if s.len() > 0 && s[0] == '+' {
        s.skip(1)
    } else {
        s
    }
}

/// The number that `s` writes, if `s` is an optional `+` followed by at least one
/// digit and nothing else, and the number is at most `max`.
pub open spec fn parse_unsigned(s: Seq<char>, max: int) -> Option<int> {
    let digits = unsigned_digits(s);
    if digits.len() > 0 && all_digits(digits) && decimal_value(digits) <= max {
        Some(decimal_value(digits))
    } else {
        None
    }
}

/// The number that the first digits of a text write is at most the number that all
/// of them write.
pub proof fn lemma_decimal_value_grows(s: Seq<char>, j: int)
    requires
        all_digits(s),
        0 <= j <= s.len(),
    ensures
        0 <= decimal_value(s.take(j)) <= decimal_value(s),
    decreases s.len(),
{
    if s.len() == 0 {
        assert(s.take(j) =~= s);
    } else if j == s.len() {
        assert(s.take(j) =~= s);
        lemma_decimal_value_grows(s.drop_last(), j - 1);
        assert(is_digit(s.last()));
    } else {
        lemma_decimal_value_grows(s.drop_last(), j);
        assert(s.drop_last().take(j) =~= s.take(j));
        assert(is_digit(s.last()));
    }
}

/// Reads an unsigned 64-bit number written in base ten.
pub fn parse_u64(chars: &[char]) -> (r: Option<u64>)
    ensures
        match r {
            Some(v) => parse_unsigned(chars@, u64::MAX as int) == Some(v as int),
            None => parse_unsigned(chars@, u64::MAX as int) is None,
        },
{
    let n = chars.len();
    let start: usize = if n > 0 && chars[0] == '+' {
        1
    } else {
        0
    };
    let ghost digits = unsigned_digits(chars@);
    proof {
        assert(digits =~= chars@.skip(start as int));
    }
    if start == n {
        return None;
    }
    let mut acc: u64 = 0;
    let mut i: usize = start;
    proof {
        assert(digits.take(0) =~= Seq::<char>::empty());
    }
    while i < n
        invariant
            n == chars@.len(),
            start <= i <= n,
            digits == chars@.skip(start as int),
            digits == unsigned_digits(chars@),
            all_digits(digits.take(i - start)),
            acc == decimal_value(digits.take(i - start)),
        decreases n - i,
    {
        let c = chars[i];
        let ghost next = digits.take(i - start + 1);
        proof {
            assert(next.drop_last() =~= digits.take(i - start));
            assert(next.last() == c);
        }
        if !('0' <= c && c <= '9') {
            proof {
                assert(digits[i - start] == c);
                assert(!is_digit(digits[i - start]));
            }
            return None;
        }
        let d: u64 = (c as u32 - '0' as u32) as u64;
        proof {
            assert forall|k: int| 0 <= k < next.len() implies is_digit(#[trigger] next[k]) by {
                if k < next.len() - 1 {
                    assert(digits.take(i - start)[k] == next[k]);
                }
            }
        }
        if acc > (u64::MAX - d) / 10 {
            proof {
                assert(decimal_value(next) > u64::MAX);
                if all_digits(digits) {
                    lemma_decimal_value_grows(digits, i - start + 1);
                }
            }
            return None;
        }
        acc = acc * 10 + d;
        i += 1;
    }
    proof {
        assert(digits.take(n - start) =~= digits);
    }
    Some(acc)
}

/// Reads an unsigned 8-bit number written in base ten.
pub fn parse_u8(chars: &[char]) -> (r: Option<u8>)
    ensures
        match r {
            Some(v) => parse_unsigned(chars@, u8::MAX as int) == Some(v as int),
            None => parse_unsigned(chars@, u8::MAX as int) is None,
        },
{
    match parse_u64(chars) {
        Some(v) => if v <= 255 {
            Some(v as u8)
        } else {
            None
        },
        None => {
            proof {
                let digits = unsigned_digits(chars@);
                if digits.len() > 0 && all_digits(digits) {
                    assert(decimal_value(digits) > u64::MAX);
                }
            }
            None
        },
    }
}

/// `s` without `prefix` at its start, if it starts with `prefix`.
pub open spec fn strip_prefix(s: Seq<char>, prefix: Seq<char>) -> Option<Seq<char>> {
    if prefix.is_prefix_of(s) {
        Some(s.skip(prefix.len() as int))
    } else {
        None
    }
}

/// The number of characters of `prefix`, if the text starts with it.
pub fn prefix_len(chars: &[char], prefix: &str) -> (r: Option<usize>)
    ensures
        match r {
            Some(n) => strip_prefix(chars@, prefix@) == Some(chars@.skip(n as int)) && n
                == prefix@.len() && n <= chars@.len() && prefix@.is_prefix_of(chars@),
            None => strip_prefix(chars@, prefix@) is None && !prefix@.is_prefix_of(chars@),
        },
{
    let pattern = to_chars(prefix);
    if starts_with(chars, pattern.as_slice()) {
        Some(pattern.len())
    } else {
        None
    }
}

/// Whether the two texts hold the same characters.
pub fn equals(a: &str, b: &str) -> (r: bool)
    ensures
        r == (a@ == b@),
{
    let left = to_chars(a);
    let right = to_chars(b);
    same(left.as_slice(), right.as_slice())
}

/// The character that writes the digit `d`.
pub open spec fn digit_char(d: int) -> char {
    if d == 0 {
        '0'
    } else if d == 1 {
        '1'
    } else if d == 2 {
        '2'
    } else if d == 3 {
        '3'
    } else if d == 4 {
        '4'
    } else if d == 5 {
        '5'
    } else if d == 6 {
        '6'
    } else if d == 7 {
        '7'
    } else if d == 8 {
        '8'
    } else {
        '9'
    }
}

/// The text that writes `n` in base ten, without a sign and without leading zeros.
pub open spec fn decimal_text(n: nat) -> Seq<char>
    decreases n,
{
    if n < 10 {
        seq![digit_char(n as int)]
    } else {
        decimal_text(n / 10).push(digit_char((n % 10) as int))
    }
}

/// The one-character text that writes the digit `d`.
fn digit_text(d: u64) -> (r: &'static str)
    requires
        d < 10,
    ensures
        r@ == seq![digit_char(d as int)],
{
    proof {
        reveal_strlit("0");
        reveal_strlit("1");
        reveal_strlit("2");
        reveal_strlit("3");
        reveal_strlit("4");
        reveal_strlit("5");
        reveal_strlit("6");
        reveal_strlit("7");
        reveal_strlit("8");
        reveal_strlit("9");
    }
    let r = if d == 0 {
        "0"
    } else if d == 1 {
        "1"
    } else if d == 2 {
        "2"
    } else if d == 3 {
        "3"
    } else if d == 4 {
        "4"
    } else if d == 5 {
        "5"
    } else if d == 6 {
        "6"
    } else if d == 7 {
        "7"
    } else if d == 8 {
        "8"
    } else {
        "9"
    };
    proof {
        assert(r@ =~= seq![digit_char(d as int)]);
    }
    r
}

/// Writes `n` in base ten.
pub fn decimal(n: u64) -> (r: String)
    ensures
        r@ == decimal_text(n as nat),
    decreases n,
{
    if n < 10 {
        String::from_str(digit_text(n))
    } else {
        let mut r = decimal(n / 10);
        r.append(digit_text(n % 10));
        proof {
            assert(r@ =~= decimal_text((n / 10) as nat).push(digit_char((n % 10) as int)));
        }
        r
    }
}

/// Calls `String::push`, which appends one character to the end of the string.
#[verifier::external_body]
fn push_char(s: &mut String, c: char)
    ensures
        final(s)@ == old(s)@.push(c),
{
    s.push(c)
}

/// The string that holds the characters of the text from `start` to `end`.
pub fn string_of(chars: &[char], start: usize, end: usize) -> (r: String)
    requires
        start <= end <= chars@.len(),
    ensures
        r@ == chars@.subrange(start as int, end as int),
{
    let mut r = String::new();
    let mut i: usize = start;
    proof {
        assert(r@ =~= chars@.subrange(start as int, start as int));
    }
    while i < end
        invariant
            start <= i <= end <= chars@.len(),
            r@ == chars@.subrange(start as int, i as int),
        decreases end - i,
    {
        push_char(&mut r, chars[i]);
        proof {
            assert(r@ =~= chars@.subrange(start as int, i + 1));
        }
        i += 1;
    }
    r
}

/// The bounds of `s` without the whitespace at its start and at its end.
pub fn trim_bounds(chars: &[char]) -> (r: (usize, usize))
    ensures
        r.0 <= r.1 <= chars@.len(),
        chars@.subrange(r.0 as int, r.1 as int) == trimmed(chars@),
{
    let start = trim_start_index(chars);
    let end = trim_end_index(chars);
    if start <= end {
        (start, end)
    } else {
        proof {
            assert(chars@.subrange(0, 0) =~= Seq::<char>::empty());
        }
        (0, 0)
    }
}

/// The lines of `s` from index `from` on, each by the indices at which it starts and
/// ends. A line ends before a line feed, or before a carriage return that a line feed
/// follows, or at the end of the text; a line feed at the very end starts no line.
pub open spec fn line_bounds(s: Seq<char>, from: int) -> Seq<(int, int)>
    decreases s.len() - from,
{
    let stop = index_of(s, from, '\n');
    if from < 0 || from >= s.len() || stop < from {
        Seq::empty()
    } else {
        let end = if stop < s.len() && stop > from && s[stop - 1] == '\r' {
            stop - 1
        } else {
            stop
        };
        if stop < s.len() {
            seq![(from, end)] + line_bounds(s, stop + 1)
        } else {
            seq![(from, end)]
        }
    }
}

/// The lines of `s`, as texts.
pub open spec fn lines_of(s: Seq<char>) -> Seq<Seq<char>> {
    Seq::new(
        line_bounds(s, 0).len(),
        |i: int| s.subrange(line_bounds(s, 0)[i].0, line_bounds(s, 0)[i].1),
    )
}

/// The lines of the text, as the strings that hold them.
pub fn split_lines(chars: &[char]) -> (lines: Vec<Vec<char>>)
    ensures
        lines@.len() == lines_of(chars@).len(),
        forall|i: int| 0 <= i < lines@.len() ==> (#[trigger] lines@[i])@ == lines_of(chars@)[i],
{
    let n = chars.len();
    let mut lines: Vec<Vec<char>> = Vec::new();
    let mut from: usize = 0;
    let ghost mut done: Seq<(int, int)> = Seq::empty();
    proof {
        assert(done + line_bounds(chars@, 0) =~= line_bounds(chars@, 0));
    }
    while from < n
        invariant
            n == chars@.len(),
            from <= n,
            done + line_bounds(chars@, from as int) == line_bounds(chars@, 0),
            lines@.len() == done.len(),
            forall|i: int|
                0 <= i < lines@.len() ==> (#[trigger] lines@[i])@ == chars@.subrange(
                    done[i].0,
                    done[i].1,
                ),
        decreases n - from,
    {
        let stop = find_char(chars, from, '\n');
        let end = if stop < n && stop > from && chars[stop - 1] == '\r' {
            stop - 1
        } else {
            stop
        };
        let mut line: Vec<char> = Vec::new();
        let mut k: usize = from;
        while k < end
            invariant
                from <= k <= end <= chars@.len(),
                line@ == chars@.subrange(from as int, k as int),
            decreases end - k,
        {
            line.push(chars[k]);
            proof {
                assert(line@ =~= chars@.subrange(from as int, k + 1));
            }
            k += 1;
        }
        proof {
            let ghost before = done;
            done = done.push((from as int, end as int));
            if stop < n {
                assert(line_bounds(chars@, from as int) =~= seq![(from as int, end as int)]
                    + line_bounds(chars@, stop + 1));
                assert(done + line_bounds(chars@, stop + 1) =~= before + line_bounds(
                    chars@,
                    from as int,
                ));
            } else {
                assert(line_bounds(chars@, n as int) =~= Seq::<(int, int)>::empty());
                assert(done + line_bounds(chars@, n as int) =~= before + line_bounds(
                    chars@,
                    from as int,
                ));
            }
        }
        lines.push(line);
        if stop == n {
            from = n;
        } else {
            from = stop + 1;
        }
    }
    proof {
        assert(line_bounds(chars@, from as int) =~= Seq::<(int, int)>::empty());
        assert(done =~= line_bounds(chars@, 0));
    }
    lines
}

/// What is written in base ten reads back as the same number.
pub proof fn lemma_decimal_reads_back(n: nat, max: int)
    requires
        n <= max,
    ensures
        parse_unsigned(decimal_text(n), max) == Some(n as int),
        decimal_text(n).len() > 0,
        all_digits(decimal_text(n)),
        decimal_value(decimal_text(n)) == n,
    decreases n,
{
    let written = decimal_text(n);
    if n < 10 {
        assert(written.drop_last() =~= Seq::<char>::empty());
        assert(decimal_value(written.drop_last()) == 0);
        assert(is_digit(digit_char(n as int)));
        assert(digit_value(digit_char(n as int)) == n);
    } else {
        lemma_decimal_reads_back(n / 10, max);
        let head = decimal_text(n / 10);
        let last = digit_char((n % 10) as int);
        assert(written.drop_last() =~= head);
        assert(written.last() == last);
        assert(is_digit(last));
        assert(digit_value(last) == n % 10);
        assert forall|i: int| 0 <= i < written.len() implies is_digit(#[trigger] written[i]) by {
            if i < head.len() {
                assert(written[i] == head[i]);
            }
        }
    }
    assert(is_digit(written[0]));
    assert(unsigned_digits(written) == written);
}

} // verus!
