//! Character-level helpers on string slices.

use vstd::prelude::*;

verus! {

/// Whether two string slices hold the same characters.
pub fn text_eq(a: &str, b: &str) -> (r: bool)
    ensures
        r == (a@ == b@),
{
    let x = a.to_owned();
    let y = b.to_owned();
    x == y
}

/// The characters of a string slice, in order.
pub fn chars_of(s: &str) -> (v: Vec<char>)
    ensures
        v@ == s@,
{
    let mut v: Vec<char> = Vec::new();
    for c in it: s.chars()
        invariant
            v@ == it.seq().take(it.index() as int),
            it.seq() == s@,
    {
        v.push(c);
    }
    v
}

/// The concatenation of two string slices.
pub fn join(a: &str, b: &str) -> (r: String)
    ensures
        r@ == a@ + b@,
{
    let mut r = a.to_owned();
    r.append(b);
    r
}

/// The concatenation of three string slices.
pub fn join3(a: &str, b: &str, c: &str) -> (r: String)
    ensures
        r@ == a@ + b@ + c@,
{
    let mut r = a.to_owned();
    r.append(b);
    r.append(c);
    r
}

/// The views of a sequence of strings, in order.
pub open spec fn text_views(items: Seq<String>) -> Seq<Seq<char>> {
    items.map_values(|s: String| s@)
}

/// The view of a string that may be absent.
pub open spec fn optional_text(s: Option<String>) -> Option<Seq<char>> {
    match s {
        Some(s) => Some(s@),
        None => None,
    }
}

/// White space, as Unicode defines it (the property `White_Space`).
pub open spec fn is_space(c: char) -> bool {
    let n = c as u32;
    ||| 0x09 <= n <= 0x0D
    ||| n == 0x20
    ||| n == 0x85
    ||| n == 0xA0
    ||| n == 0x1680
    ||| 0x2000 <= n <= 0x200A
    ||| n == 0x2028
    ||| n == 0x2029
    ||| n == 0x202F
    ||| n == 0x205F
    ||| n == 0x3000
}

/// The first place from `i` on that holds no white space; the length where
/// there is none.
pub open spec fn spaces_end(s: Seq<char>, i: int) -> int
    decreases s.len() - i,
{
    if 0 <= i < s.len() && is_space(s[i]) {
        spaces_end(s, i + 1)
    } else {
        i
    }
}

/// The first place from `i` on that holds white space; the length where
/// there is none.
pub open spec fn word_end(s: Seq<char>, i: int) -> int
    decreases s.len() - i,
{
    if 0 <= i < s.len() && !is_space(s[i]) {
        word_end(s, i + 1)
    } else {
        i
    }
}

/// The words of `s` from `i` on: the runs of characters between white
/// space, in order.
pub open spec fn words_from(s: Seq<char>, i: int) -> Seq<Seq<char>>
    decreases s.len() - i,
    via words_from_decreases
{
    let start = spaces_end(s, i);
    if 0 <= i && start < s.len() {
        seq![s.subrange(start, word_end(s, start))] + words_from(s, word_end(s, start))
    } else {
        Seq::empty()
    }
}

#[via_fn]
proof fn words_from_decreases(s: Seq<char>, i: int) {
    if 0 <= i <= s.len() {
        lemma_spaces_end(s, i);
        lemma_spaces_end_is_word(s, i);
        let start = spaces_end(s, i);
        if start < s.len() {
            lemma_word_end(s, start);
        }
    }
}

/// The words of `s`: the runs of characters between white space, in order.
pub open spec fn words(s: Seq<char>) -> Seq<Seq<char>> {
    words_from(s, 0)
}

/// The end of white space is no earlier than its start, and within `s`.
pub proof fn lemma_spaces_end(s: Seq<char>, i: int)
    requires
        0 <= i <= s.len(),
    ensures
        i <= spaces_end(s, i) <= s.len(),
    decreases s.len() - i,
{
    if i < s.len() && is_space(s[i]) {
        lemma_spaces_end(s, i + 1);
    }
}

/// A word that starts within `s` is not empty and ends within `s`.
pub proof fn lemma_word_end(s: Seq<char>, i: int)
    requires
        0 <= i <= s.len(),
    ensures
        i <= word_end(s, i) <= s.len(),
        i < s.len() && !is_space(s[i]) ==> i < word_end(s, i),
    decreases s.len() - i,
{
    if i < s.len() && !is_space(s[i]) {
        lemma_word_end(s, i + 1);
    }
}

/// Where white space ends, there is no white space.
pub proof fn lemma_spaces_end_is_word(s: Seq<char>, i: int)
    requires
        0 <= i <= s.len(),
    ensures
        spaces_end(s, i) < s.len() ==> !is_space(s[spaces_end(s, i)]),
    decreases s.len() - i,
{
    if i < s.len() && is_space(s[i]) {
        lemma_spaces_end_is_word(s, i + 1);
    }
}

/// A decimal digit.
pub open spec fn is_digit(c: char) -> bool {
    '0' <= c <= '9'
}

/// The number that a run of decimal digits writes.
pub open spec fn digits_value(s: Seq<char>) -> nat
    decreases s.len(),
{
    if s.len() == 0 {
        0
    } else {
        digits_value(s.drop_last()) * 10 + (s.last() as u32 - '0' as u32) as nat
    }
}

/// Every character of `s` is a decimal digit.
pub open spec fn all_digits(s: Seq<char>) -> bool {
    forall|i: int| 0 <= i < s.len() ==> is_digit(#[trigger] s[i])
}

/// `s` without the plus sign that it may start with.
pub open spec fn unsigned_part(s: Seq<char>) -> Seq<char> {
    if s.len() > 0 && s[0] == '+' {
        s.skip(1)
    } else {
        s
    }
}

/// The number that `s` writes in decimal: digits, at least one, after an
/// optional plus sign. `None` for anything else.
pub open spec fn decimal_value(s: Seq<char>) -> Option<nat> {
    let digits = unsigned_part(s);
    if digits.len() > 0 && all_digits(digits) {
        Some(digits_value(digits))
    } else {
        None
    }
}

/// The `u64` that `s` writes in decimal, if it writes one that fits.
pub open spec fn decimal_u64(s: Seq<char>) -> Option<u64> {
    match decimal_value(s) {
        Some(v) => if v <= u64::MAX {
            Some(v as u64)
        } else {
            None
        },
        None => None,
    }
}

/// Whether `c` is white space.
pub fn char_is_space(c: char) -> (r: bool)
    ensures
        r == is_space(c),
{
    let n: u32 = c as u32;
    (0x09 <= n && n <= 0x0D) || n == 0x20 || n == 0x85 || n == 0xA0 || n == 0x1680 || (0x2000 <= n
        && n <= 0x200A) || n == 0x2028 || n == 0x2029 || n == 0x202F || n == 0x205F || n == 0x3000
}

/// The end of the white space that starts at `i`.
pub fn skip_spaces(s: &Vec<char>, i: usize) -> (r: usize)
    requires
        i <= s.len(),
    ensures
        r == spaces_end(s@, i as int),
        i <= r <= s.len(),
{
    let mut j: usize = i;
    while j < s.len() && char_is_space(s[j])
        invariant
            i <= j <= s.len(),
            spaces_end(s@, i as int) == spaces_end(s@, j as int),
        decreases s.len() - j,
    {
        j += 1;
    }
    j
}

/// The end of the word that starts at `i`.
pub fn skip_word(s: &Vec<char>, i: usize) -> (r: usize)
    requires
        i <= s.len(),
    ensures
        r == word_end(s@, i as int),
        i <= r <= s.len(),
{
    let mut j: usize = i;
    while j < s.len() && !char_is_space(s[j])
        invariant
            i <= j <= s.len(),
            word_end(s@, i as int) == word_end(s@, j as int),
        decreases s.len() - j,
    {
        j += 1;
    }
    j
}

/// A run of digits that is extended writes no smaller number.
pub proof fn lemma_digits_grow(s: Seq<char>, k: int)
    requires
        0 <= k <= s.len(),
    ensures
        digits_value(s.take(k)) <= digits_value(s),
    decreases s.len(),
{
    if k < s.len() {
        lemma_digits_grow(s.drop_last(), k);
        assert(s.drop_last().take(k) =~= s.take(k));
    } else {
        assert(s.take(k) =~= s);
    }
}

/// Reads the characters of `s` between `from` and `to` as a decimal `u64`.
pub fn parse_u64(s: &Vec<char>, from: usize, to: usize) -> (r: Option<u64>)
    requires
        from <= to <= s.len(),
    ensures
        r == decimal_u64(s@.subrange(from as int, to as int)),
{
    let ghost text = s@.subrange(from as int, to as int);
    let start: usize = if from < to && s[from] == '+' {
        from + 1
    } else {
        from
    };
    let ghost digits = s@.subrange(start as int, to as int);
    proof {
        if from < to && s[from as int] == '+' {
            assert(text.skip(1) =~= digits);
        } else {
            assert(text =~= digits);
        }
        assert(unsigned_part(text) == digits);
    }
    if start == to {
        return None;
    }
    let mut value: u64 = 0;
    let mut i: usize = start;
    while i < to
        invariant
            from <= start <= i <= to <= s.len(),
            digits == s@.subrange(start as int, to as int),
            digits == unsigned_part(s@.subrange(from as int, to as int)),
            all_digits(digits.take(i - start)),
            value == digits_value(digits.take(i - start)),
        decreases to - i,
    {
        let c = s[i];
        if !('0' <= c && c <= '9') {
            assert(!is_digit(digits[i - start]));
            return None;
        }
        let d: u64 = (c as u32 - '0' as u32) as u64;
        proof {
            let next = digits.take(i - start + 1);
            assert(next.drop_last() =~= digits.take(i - start));
            assert(next.last() == c);
            assert forall|k: int| 0 <= k < next.len() implies is_digit(#[trigger] next[k]) by {
                if k < i - start {
                    assert(next[k] == digits.take(i - start)[k]);
                }
            }
        }
        if value > (u64::MAX - d) / 10 {
            proof {
                lemma_digits_grow(digits, i - start + 1);
            }
            return None;
        }
        value = value * 10 + d;
        i += 1;
    }
    proof {
        assert(digits.take(to - start) =~= digits);
    }
    Some(value)
}

/// The first place from `i` on that holds `c`; the length where there is
/// none.
pub open spec fn find_from(s: Seq<char>, c: char, i: int) -> int
    decreases s.len() - i,
{
    if 0 <= i < s.len() && s[i] != c {
        find_from(s, c, i + 1)
    } else {
        i
    }
}

/// A line without the carriage return that ends it, if one does.
pub open spec fn without_cr(line: Seq<char>) -> Seq<char> {
    if line.len() > 0 && line.last() == '\r' {
        line.drop_last()
    } else {
        line
    }
}

/// The lines of `s` from `i` on. A line ends at a line feed, or at a carriage
/// return that a line feed follows; the ending is not part of the line. What
/// follows the last line feed is a line too, unless it is empty.
pub open spec fn lines_from(s: Seq<char>, i: int) -> Seq<Seq<char>>
    decreases s.len() - i,
{
    if 0 <= i < s.len() {
        let end = find_from(s, '\n', i);
        if i <= end < s.len() {
            seq![without_cr(s.subrange(i, end))] + lines_from(s, end + 1)
        } else {
            seq![s.subrange(i, s.len() as int)]
        }
    } else {
        Seq::empty()
    }
}

/// The lines of `s`.
pub open spec fn lines(s: Seq<char>) -> Seq<Seq<char>> {
    lines_from(s, 0)
}

/// The place after the last character of `s` before `j` that is no white
/// space; 0 where there is none.
pub open spec fn spaces_start(s: Seq<char>, j: int) -> int
    decreases j,
{
    if 0 < j <= s.len() && is_space(s[j - 1]) {
        spaces_start(s, j - 1)
    } else {
        j
    }
}

/// `s` without the white space at its start and at its end.
pub open spec fn trimmed(s: Seq<char>) -> Seq<char> {
    let start = spaces_end(s, 0);
    let end = spaces_start(s, s.len() as int);
    if start < end {
        s.subrange(start, end)
    } else {
        Seq::empty()
    }
}

/// `needle` occurs in `s` at `i`.
pub open spec fn occurs_at(s: Seq<char>, needle: Seq<char>, i: int) -> bool {
    0 <= i && i + needle.len() <= s.len() && s.subrange(i, i + needle.len()) == needle
}

/// `needle` occurs in `s`.
pub open spec fn occurs(s: Seq<char>, needle: Seq<char>) -> bool {
    exists|i: int| occurs_at(s, needle, i)
}

/// The two parts of `s` around its first `c`; `None` where `s` holds no `c`.
pub open spec fn split_at_first(s: Seq<char>, c: char) -> Option<(Seq<char>, Seq<char>)> {
    let at = find_from(s, c, 0);
    if 0 <= at < s.len() {
        Some((s.take(at), s.skip(at + 1)))
    } else {
        None
    }
}

/// The decimal digits of `n`, without leading zeros; `0` for 0.
pub open spec fn decimal_digits(n: nat) -> Seq<char>
    decreases n,
{
    if n < 10 {
        seq![digit_char(n)]
    } else {
        decimal_digits(n / 10).push(digit_char(n % 10))
    }
}

/// The character of the digit `d`.
pub open spec fn digit_char(d: nat) -> char {
    if d == 0 {
        '0'
    } else if d == 1 {
        '1'
    } else if d == 2 {
        '2'
    } else if d == 3 {
        '3'
    } else if d == 4 {
        '4'
    } else if d == 5 {
        '5'
    } else if d == 6 {
        '6'
    } else if d == 7 {
        '7'
    } else if d == 8 {
        '8'
    } else {
        '9'
    }
}

/// The end of the run from `i` on that holds no `c`.
pub fn find_char(s: &Vec<char>, c: char, i: usize) -> (r: usize)
    requires
        i <= s.len(),
    ensures
        r == find_from(s@, c, i as int),
        i <= r <= s.len(),
{
    let mut j: usize = i;
    while j < s.len() && s[j] != c
        invariant
            i <= j <= s.len(),
            find_from(s@, c, i as int) == find_from(s@, c, j as int),
        decreases s.len() - j,
    {
        j += 1;
    }
    j
}

/// The lines of `s`.
pub fn lines_of(s: &str) -> (r: Vec<String>)
    ensures
        text_views(r@) == lines(s@),
{
    let chars = chars_of(s);
    let mut out: Vec<String> = Vec::new();
    let mut i: usize = 0;
    assert(text_views(out@) + lines_from(s@, 0) =~= lines(s@));
    while i < chars.len()
        invariant
            i <= chars.len(),
            chars@ == s@,
            lines(s@) == text_views(out@) + lines_from(s@, i as int),
        decreases chars.len() - i,
    {
        let end = find_char(&chars, '\n', i);
        let ghost before = out@;
        if end < chars.len() {
            let stop: usize = if end > i && chars[end - 1] == '\r' {
                end - 1
            } else {
                end
            };
            let line = s.substring_char(i, stop);
            proof {
                assert(line@ =~= without_cr(s@.subrange(i as int, end as int)));
            }
            out.push(line.to_owned());
            proof {
                assert(text_views(out@) =~= text_views(before).push(line@));
                assert(text_views(out@) + lines_from(s@, end + 1) =~= text_views(before) + lines_from(
                    s@,
                    i as int,
                ));
            }
            i = end + 1;
        } else {
            let line = s.substring_char(i, chars.len());
            out.push(line.to_owned());
            proof {
                assert(text_views(out@) =~= text_views(before).push(line@));
                assert(text_views(out@) + lines_from(s@, chars.len() as int) =~= text_views(before)
                    + lines_from(s@, i as int));
            }
            i = chars.len();
        }
    }
    assert(text_views(out@) + lines_from(s@, i as int) =~= text_views(out@));
    out
}

/// The words of `s`: the runs of characters between white space.
pub fn words_of(s: &str) -> (r: Vec<String>)
    ensures
        text_views(r@) == words(s@),
{
    let chars = chars_of(s);
    let mut out: Vec<String> = Vec::new();
    let mut i: usize = 0;
    assert(text_views(out@) + words_from(s@, 0) =~= words(s@));
    loop
        invariant_except_break
            i <= chars.len(),
            chars@ == s@,
            words(s@) == text_views(out@) + words_from(s@, i as int),
        ensures
            words(s@) == text_views(out@),
        decreases chars.len() - i,
    {
        let start = skip_spaces(&chars, i);
        if start >= chars.len() {
            assert(text_views(out@) + words_from(s@, i as int) =~= text_views(out@));
            break;
        }
        let end = skip_word(&chars, start);
        proof {
            lemma_spaces_end_is_word(s@, i as int);
            lemma_word_end(s@, start as int);
        }
        let ghost before = out@;
        let word = s.substring_char(start, end);
        out.push(word.to_owned());
        proof {
            assert(text_views(out@) =~= text_views(before).push(word@));
            assert(text_views(out@) + words_from(s@, end as int) =~= text_views(before) + words_from(
                s@,
                i as int,
            ));
        }
        i = end;
    }
    out
}

/// Whether `s` starts with `prefix`.
pub fn starts_with(s: &str, prefix: &str) -> (r: bool)
    ensures
        r == prefix@.is_prefix_of(s@),
{
    let chars = chars_of(s);
    let wanted = chars_of(prefix);
    if wanted.len() > chars.len() {
        return false;
    }
    let mut i: usize = 0;
    while i < wanted.len()
        invariant
            i <= wanted.len() <= chars.len(),
            chars@ == s@,
            wanted@ == prefix@,
            forall|k: int| 0 <= k < i ==> chars@[k] == wanted@[k],
        decreases wanted.len() - i,
    {
        if chars[i] != wanted[i] {
            assert(s@.subrange(0, prefix@.len() as int)[i as int] != prefix@[i as int]);
            return false;
        }
        i += 1;
    }
    assert(s@.subrange(0, prefix@.len() as int) =~= prefix@);
    true
}

/// Whether `needle` occurs in `s`.
pub fn contains(s: &str, needle: &str) -> (r: bool)
    ensures
        r == occurs(s@, needle@),
{
    let chars = chars_of(s);
    let wanted = chars_of(needle);
    if wanted.len() > chars.len() {
        assert(forall|i: int| !occurs_at(s@, needle@, i));
        return false;
    }
    let last: usize = chars.len() - wanted.len();
    let mut i: usize = 0;
    while i <= last
        invariant
            i <= last + 1,
            last == chars.len() - wanted.len(),
            chars@ == s@,
            wanted@ == needle@,
            forall|k: int| 0 <= k < i ==> !occurs_at(s@, needle@, k),
        decreases last + 1 - i,
    {
        let mut k: usize = 0;
        while k < wanted.len() && chars[i + k] == wanted[k]
            invariant
                k <= wanted.len(),
                i + wanted.len() <= chars.len(),
                forall|j: int| 0 <= j < k ==> chars@[i + j] == wanted@[j],
            decreases wanted.len() - k,
        {
            k += 1;
        }
        if k == wanted.len() {
            assert(s@.subrange(i as int, i + needle@.len()) =~= needle@);
            assert(occurs_at(s@, needle@, i as int));
            return true;
        }
        assert(s@.subrange(i as int, i + needle@.len())[k as int] != needle@[k as int]);
        i += 1;
    }
    assert(forall|i: int| !occurs_at(s@, needle@, i));
    false
}

/// `s` without the white space at its start and at its end.
pub fn trim(s: &str) -> (r: String)
    ensures
        r@ == trimmed(s@),
{
    let chars = chars_of(s);
    let start = skip_spaces(&chars, 0);
    let mut end: usize = chars.len();
    while end > 0 && char_is_space(chars[end - 1])
        invariant
            end <= chars.len(),
            spaces_start(chars@, chars.len() as int) == spaces_start(chars@, end as int),
        decreases end,
    {
        end -= 1;
    }
    if start < end {
        s.substring_char(start, end).to_owned()
    } else {
        String::new()
    }
}

/// The two parts of `s` around its first `c`.
pub fn split_once(s: &str, c: char) -> (r: Option<(String, String)>)
    ensures
        match r {
            Some((before, after)) => split_at_first(s@, c) == Some((before@, after@)),
            None => split_at_first(s@, c) is None,
        },
{
    let chars = chars_of(s);
    let at = find_char(&chars, c, 0);
    if at < chars.len() {
        let before = s.substring_char(0, at);
        let after = s.substring_char(at + 1, chars.len());
        Some((before.to_owned(), after.to_owned()))
    } else {
        None
    }
}

/// The text of one decimal digit.
fn digit_text(d: u64) -> (r: &'static str)
    requires
        d < 10,
    ensures
        r@ == seq![digit_char(d as nat)],
{
    proof {
        reveal_strlit("0");
        reveal_strlit("1");
        reveal_strlit("2");
        reveal_strlit("3");
        reveal_strlit("4");
        reveal_strlit("5");
        reveal_strlit("6");
        reveal_strlit("7");
        reveal_strlit("8");
        reveal_strlit("9");
    }
    let r = if d == 0 {
        "0"
    } else if d == 1 {
        "1"
    } else if d == 2 {
        "2"
    } else if d == 3 {
        "3"
    } else if d == 4 {
        "4"
    } else if d == 5 {
        "5"
    } else if d == 6 {
        "6"
    } else if d == 7 {
        "7"
    } else if d == 8 {
        "8"
    } else {
        "9"
    };
    assert(r@ =~= seq![digit_char(d as nat)]);
    r
}

/// `n` in decimal.
pub fn decimal_text(n: u64) -> (r: String)
    ensures
        r@ == decimal_digits(n as nat),
    decreases n,
{
    if n < 10 {
        digit_text(n).to_owned()
    } else {
        let mut r = decimal_text(n / 10);
        r.append(digit_text(n % 10));
        assert(r@ =~= decimal_digits((n / 10) as nat).push(digit_char((n % 10) as nat)));
        r
    }
}

/// The items from `from` on, with one space between each two.
pub open spec fn joined_from(items: Seq<Seq<char>>, from: int) -> Seq<char>
    decreases items.len() - from,
{
    if 0 <= from < items.len() {
        if from + 1 < items.len() {
            items[from] + seq![' '] + joined_from(items, from + 1)
        } else {
            items[from]
        }
    } else {
        Seq::empty()
    }
}

/// The items from `from` up to `to`, each followed by one space.
pub open spec fn spaced_upto(items: Seq<Seq<char>>, from: int, to: int) -> Seq<char>
    decreases to - from,
{
    if from < to {
        spaced_upto(items, from, to - 1) + items[to - 1] + seq![' ']
    } else {
        Seq::empty()
    }
}

/// Joining from `from` is the items up to `to`, each with its space, and then
/// the joining from `to`.
pub proof fn lemma_joined_split(items: Seq<Seq<char>>, from: int, to: int)
    requires
        0 <= from <= to < items.len(),
    ensures
        joined_from(items, from) == spaced_upto(items, from, to) + joined_from(items, to),
    decreases to - from,
{
    if from < to {
        lemma_joined_split(items, from, to - 1);
        assert(joined_from(items, to - 1) == items[to - 1] + seq![' '] + joined_from(items, to));
        assert(spaced_upto(items, from, to - 1) + (items[to - 1] + seq![' '] + joined_from(items, to))
            =~= spaced_upto(items, from, to) + joined_from(items, to));
    } else {
        assert(spaced_upto(items, from, to) + joined_from(items, to) =~= joined_from(items, to));
    }
}

/// The items from `from` on, with one space between each two.
pub fn join_words(items: &Vec<String>, from: usize) -> (r: String)
    ensures
        r@ == joined_from(text_views(items@), from as int),
{
    let mut r = String::new();
    if from >= items.len() {
        return r;
    }
    let last: usize = items.len() - 1;
    let mut i: usize = from;
    proof {
        reveal_strlit(" ");
        assert(" "@ =~= seq![' ']);
    }
    while i < last
        invariant
            from <= i <= last,
            last + 1 == items.len(),
            " "@ == seq![' '],
            r@ == spaced_upto(text_views(items@), from as int, i as int),
        decreases last - i,
    {
        r.append(items[i].as_str());
        r.append(" ");
        assert(text_views(items@)[i as int] == items@[i as int]@);
        i += 1;
    }
    r.append(items[last].as_str());
    proof {
        assert(text_views(items@)[last as int] == items@[last as int]@);
        lemma_joined_split(text_views(items@), from as int, last as int);
    }
    r
}

/// `s` from `i` on, without the occurrences of `pattern`: the occurrences
/// are taken from left to right, and none overlaps the one before it.
pub open spec fn without_from(s: Seq<char>, pattern: Seq<char>, i: int) -> Seq<char>
    decreases s.len() - i,
{
    if 0 <= i < s.len() {
        if pattern.len() > 0 && occurs_at(s, pattern, i) {
            without_from(s, pattern, i + pattern.len())
        } else {
            seq![s[i]] + without_from(s, pattern, i + 1)
        }
    } else {
        Seq::empty()
    }
}

/// `s` without the occurrences of `pattern`.
pub open spec fn without(s: Seq<char>, pattern: Seq<char>) -> Seq<char> {
    without_from(s, pattern, 0)
}

/// The `u32` that `s` writes in decimal, if it writes one that fits.
pub open spec fn decimal_u32(s: Seq<char>) -> Option<u32> {
    match decimal_value(s) {
        Some(v) => if v <= u32::MAX {
            Some(v as u32)
        } else {
            None
        },
        None => None,
    }
}

/// Whether `pattern` occurs in `s` at `i`.
pub fn matches_at(s: &Vec<char>, pattern: &Vec<char>, i: usize) -> (r: bool)
    requires
        i <= s.len(),
    ensures
        r == occurs_at(s@, pattern@, i as int),
{
    if pattern.len() > s.len() - i {
        return false;
    }
    let mut k: usize = 0;
    while k < pattern.len()
        invariant
            k <= pattern.len(),
            i + pattern.len() <= s.len(),
            forall|j: int| 0 <= j < k ==> s@[i + j] == pattern@[j],
        decreases pattern.len() - k,
    {
        if s[i + k] != pattern[k] {
            assert(s@.subrange(i as int, i + pattern@.len())[k as int] != pattern@[k as int]);
            return false;
        }
        k += 1;
    }
    assert(s@.subrange(i as int, i + pattern@.len()) =~= pattern@);
    true
}

/// `s` without the occurrences of `pattern`.
pub fn remove_all(s: &str, pattern: &str) -> (r: String)
    ensures
        r@ == without(s@, pattern@),
{
    let chars = chars_of(s);
    let wanted = chars_of(pattern);
    let mut out = String::new();
    let mut kept_from: usize = 0;
    let mut i: usize = 0;
    assert(out@ + s@.subrange(0, 0) + without_from(s@, pattern@, 0) =~= without(s@, pattern@));
    while i < chars.len()
        invariant
            kept_from <= i <= chars.len(),
            chars@ == s@,
            wanted@ == pattern@,
            without(s@, pattern@) == out@ + s@.subrange(kept_from as int, i as int) + without_from(
                s@,
                pattern@,
                i as int,
            ),
        decreases chars.len() - i,
    {
        if wanted.len() > 0 && matches_at(&chars, &wanted, i) {
            let ghost before = out@;
            let ghost kept = s@.subrange(kept_from as int, i as int);
            out.append(s.substring_char(kept_from, i));
            i += wanted.len();
            kept_from = i;
            assert(out@ + s@.subrange(kept_from as int, i as int) + without_from(
                s@,
                pattern@,
                i as int,
            ) =~= before + kept + without_from(s@, pattern@, i as int));
        } else {
            assert(s@.subrange(kept_from as int, i as int) + (seq![s@[i as int]] + without_from(
                s@,
                pattern@,
                i + 1,
            )) =~= s@.subrange(kept_from as int, i + 1) + without_from(s@, pattern@, i + 1));
            i += 1;
        }
    }
    out.append(s.substring_char(kept_from, chars.len()));
    assert(s@.subrange(kept_from as int, chars.len() as int) + Seq::<char>::empty() =~= s@.subrange(
        kept_from as int,
        chars.len() as int,
    ));
    out
}

/// Reads `s` as a decimal `u32`.
pub fn parse_u32(s: &str) -> (r: Option<u32>)
    ensures
        r == decimal_u32(s@),
{
    let chars = chars_of(s);
    assert(s@.subrange(0, s@.len() as int) =~= s@);
    match parse_u64(&chars, 0, chars.len()) {
        Some(v) => if v <= 0xFFFF_FFFF {
            Some(v as u32)
        } else {
            None
        },
        None => None,
    }
}

} // verus!
