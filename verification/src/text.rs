//! Character-level helpers: whitespace, trimming, word counting and
//! hexadecimal digits. Every contract is stated over `Seq<char>`.

use vstd::prelude::*;

verus! {

/// Whether `c` has the Unicode `White_Space` property.
pub open spec fn is_whitespace(c: char) -> bool {
    let u = c as u32;
    ||| 0x09 <= u <= 0x0d
    ||| u == 0x20
    ||| u == 0x85
    ||| u == 0xa0
    ||| u == 0x1680
    ||| 0x2000 <= u <= 0x200a
    ||| u == 0x2028
    ||| u == 0x2029
    ||| u == 0x202f
    ||| u == 0x205f
    ||| u == 0x3000
}

/// Executable form of [`is_whitespace`].
pub fn char_is_whitespace(c: char) -> (r: bool)
    ensures
        r == is_whitespace(c),
{
    let u: u32 = c as u32;
    (0x09 <= u && u <= 0x0d) || u == 0x20 || u == 0x85 || u == 0xa0 || u == 0x1680 || (0x2000 <= u
        && u <= 0x200a) || u == 0x2028 || u == 0x2029 || u == 0x202f || u == 0x205f || u == 0x3000
}

/// Index of the first character at or after `from` that is not whitespace
/// (`s.len()` when there is none).
pub open spec fn skip_whitespace(s: Seq<char>, from: int) -> int
    decreases s.len() - from,
{
    if 0 <= from < s.len() && is_whitespace(s[from]) {
        skip_whitespace(s, from + 1)
    } else {
        from
    }
}

/// End of the text once trailing whitespace before `to` is dropped.
pub open spec fn drop_whitespace(s: Seq<char>, to: int) -> int
    decreases to,
{
    if 0 < to <= s.len() && is_whitespace(s[to - 1]) {
        drop_whitespace(s, to - 1)
    } else {
        to
    }
}

/// `s` without its leading and trailing whitespace.
pub open spec fn trimmed(s: Seq<char>) -> Seq<char> {
    let start = skip_whitespace(s, 0);
    let end = drop_whitespace(s, s.len() as int);
    if start < end {
        s.subrange(start, end)
    } else {
        Seq::empty()
    }
}

/// A word starts at `i` when `s[i]` is not whitespace and follows
/// whitespace or the start of the text.
pub open spec fn is_word_start(s: Seq<char>, i: int) -> bool {
    &&& 0 <= i < s.len()
    &&& !is_whitespace(s[i])
    &&& (i == 0 || is_whitespace(s[i - 1]))
}

/// Number of words that start before index `n`.
pub open spec fn word_starts(s: Seq<char>, n: int) -> nat
    decreases n,
{
    if n <= 0 {
        0
    } else if is_word_start(s, n - 1) {
        word_starts(s, n - 1) + 1
    } else {
        word_starts(s, n - 1)
    }
}

/// Number of whitespace-separated words of `s`.
pub open spec fn word_count(s: Seq<char>) -> nat {
    word_starts(s, s.len() as int)
}

/// Whether `c` is one of `0-9`, `a-f`, `A-F`.
pub open spec fn is_hex_digit(c: char) -> bool {
    ('0' <= c <= '9') || ('a' <= c <= 'f') || ('A' <= c <= 'F')
}

/// The number a hexadecimal digit stands for.
pub open spec fn hex_digit_value(c: char) -> nat {
    if '0' <= c <= '9' {
        (c as u32 - '0' as u32) as nat
    } else if 'a' <= c <= 'f' {
        (c as u32 - 'a' as u32 + 10) as nat
    } else if 'A' <= c <= 'F' {
        (c as u32 - 'A' as u32 + 10) as nat
    } else {
        0
    }
}

/// Whether every character of `s` is a hexadecimal digit.
pub open spec fn all_hex_digits(s: Seq<char>) -> bool {
    forall|i: int| 0 <= i < s.len() ==> is_hex_digit(#[trigger] s[i])
}

/// Whether `c` is a decimal digit.
pub open spec fn is_decimal_digit(c: char) -> bool {
    '0' <= c <= '9'
}

/// The number a decimal digit stands for.
pub open spec fn decimal_digit_value(c: char) -> nat {
    if '0' <= c <= '9' {
        (c as u32 - '0' as u32) as nat
    } else {
        0
    }
}

/// Whether `s` starts with the two characters `0x`.
pub open spec fn has_0x_prefix(s: Seq<char>) -> bool {
    s.len() >= 2 && s[0] == '0' && s[1] == 'x'
}

/// `s` without a leading `0x`, if it has one.
pub open spec fn strip_0x(s: Seq<char>) -> Seq<char> {
    if has_0x_prefix(s) {
        s.subrange(2, s.len() as int)
    } else {
        s
    }
}

/// Trimming what is already trimmed changes nothing.
pub proof fn lemma_trimmed_twice(s: Seq<char>)
    ensures
        trimmed(trimmed(s)) == trimmed(s),
{
    let t = trimmed(s);
    let start = skip_whitespace(s, 0);
    let end = drop_whitespace(s, s.len() as int);
    lemma_skip_whitespace_stops(s, 0);
    lemma_drop_whitespace_stops(s, s.len() as int);
    if start < end {
        assert(!is_whitespace(t[0]));
        assert(!is_whitespace(t[t.len() - 1]));
        assert(skip_whitespace(t, 0) == 0);
        assert(drop_whitespace(t, t.len() as int) == t.len());
        assert(t.subrange(0, t.len() as int) =~= t);
    } else {
        assert(t.len() == 0);
        assert(skip_whitespace(t, 0) == 0);
        assert(drop_whitespace(t, 0) == 0);
    }
}

/// Where skipping whitespace stops: everything before is whitespace, and
/// what stands there, if anything, is not.
pub proof fn lemma_skip_whitespace_stops(s: Seq<char>, from: int)
    requires
        0 <= from <= s.len(),
    ensures
        from <= skip_whitespace(s, from) <= s.len(),
        forall|i: int| from <= i < skip_whitespace(s, from) ==> is_whitespace(#[trigger] s[i]),
        skip_whitespace(s, from) < s.len() ==> !is_whitespace(s[skip_whitespace(s, from)]),
    decreases s.len() - from,
{
    if from < s.len() && is_whitespace(s[from]) {
        lemma_skip_whitespace_stops(s, from + 1);
    }
}

/// Where dropping whitespace stops: everything behind is whitespace, and
/// what stands before, if anything, is not.
pub proof fn lemma_drop_whitespace_stops(s: Seq<char>, to: int)
    requires
        0 <= to <= s.len(),
    ensures
        0 <= drop_whitespace(s, to) <= to,
        forall|i: int| drop_whitespace(s, to) <= i < to ==> is_whitespace(#[trigger] s[i]),
        drop_whitespace(s, to) > 0 ==> !is_whitespace(s[drop_whitespace(s, to) - 1]),
    decreases to,
{
    if to > 0 && is_whitespace(s[to - 1]) {
        lemma_drop_whitespace_stops(s, to - 1);
    }
}

proof fn lemma_no_words_in_whitespace(s: Seq<char>, from: int, to: int)
    requires
        0 <= from <= to <= s.len(),
        forall|i: int| from <= i < to ==> is_whitespace(#[trigger] s[i]),
    ensures
        word_starts(s, to) == word_starts(s, from),
    decreases to - from,
{
    if from < to {
        lemma_no_words_in_whitespace(s, from, to - 1);
        assert(is_whitespace(s[to - 1]));
    }
}

proof fn lemma_words_of_a_part(s: Seq<char>, start: int, end: int, k: int)
    requires
        0 <= start <= end <= s.len(),
        0 <= k <= end - start,
        start > 0 ==> is_whitespace(s[start - 1]),
    ensures
        word_starts(s, start + k) == word_starts(s, start) + word_starts(s.subrange(start, end), k),
    decreases k,
{
    let part = s.subrange(start, end);
    if k > 0 {
        lemma_words_of_a_part(s, start, end, k - 1);
        assert(part[k - 1] == s[start + k - 1]);
        if k > 1 {
            assert(part[k - 2] == s[start + k - 2]);
        }
        assert(is_word_start(part, k - 1) == is_word_start(s, start + k - 1));
    }
}

/// Whitespace around a text does not change how many words it has.
pub proof fn lemma_word_count_of_trimmed(s: Seq<char>)
    ensures
        word_count(trimmed(s)) == word_count(s),
{
    let start = skip_whitespace(s, 0);
    let end = drop_whitespace(s, s.len() as int);
    lemma_skip_whitespace_stops(s, 0);
    lemma_drop_whitespace_stops(s, s.len() as int);
    lemma_no_words_in_whitespace(s, 0, start);
    if start < end {
        let part = s.subrange(start, end);
        lemma_words_of_a_part(s, start, end, end - start);
        lemma_no_words_in_whitespace(s, end, s.len() as int);
        assert(word_starts(s, 0) == 0);
    } else {
        assert forall|i: int| 0 <= i < s.len() implies is_whitespace(#[trigger] s[i]) by {
            if i >= start {
                assert(i >= end);
            }
        }
        lemma_no_words_in_whitespace(s, 0, s.len() as int);
        assert(word_starts(s, 0) == 0);
        assert(trimmed(s).len() == 0);
        assert(word_starts(trimmed(s), 0) == 0);
    }
}

/// A text without whitespace reads as one word, and trimming leaves it as
/// it is.
pub proof fn lemma_one_word(s: Seq<char>)
    requires
        s.len() > 0,
        forall|i: int| 0 <= i < s.len() ==> !is_whitespace(#[trigger] s[i]),
    ensures
        word_count(s) == 1,
        trimmed(s) == s,
{
    lemma_one_word_starts(s, s.len() as int);
    assert(skip_whitespace(s, 0) == 0);
    assert(drop_whitespace(s, s.len() as int) == s.len());
    assert(s.subrange(0, s.len() as int) =~= s);
}

proof fn lemma_one_word_starts(s: Seq<char>, n: int)
    requires
        1 <= n <= s.len(),
        forall|i: int| 0 <= i < s.len() ==> !is_whitespace(#[trigger] s[i]),
    ensures
        word_starts(s, n) == 1,
    decreases n,
{
    if n > 1 {
        lemma_one_word_starts(s, n - 1);
        assert(!is_whitespace(s[n - 2]));
    } else {
        assert(word_starts(s, 0) == 0);
        assert(is_word_start(s, 0));
    }
}

/// The characters of `text`, in order.
pub fn chars_of(text: &str) -> (r: Vec<char>)
    ensures
        r@ == text@,
{
    let n: usize = text.unicode_len();
    let mut out: Vec<char> = Vec::new();
    let mut i: usize = 0;
    while i < n
        invariant
            i <= n,
            n as int == text@.len(),
            out@ == text@.subrange(0, i as int),
        decreases n - i,
    {
        let c: char = text.get_char(i);
        out.push(c);
        assert(out@ =~= text@.subrange(0, i as int + 1));
        i = i + 1;
    }
    assert(out@ =~= text@);
    out
}

/// Executable form of [`is_hex_digit`].
pub fn char_is_hex_digit(c: char) -> (r: bool)
    ensures
        r == is_hex_digit(c),
{
    ('0' <= c && c <= '9') || ('a' <= c && c <= 'f') || ('A' <= c && c <= 'F')
}

/// Start and end of the trimmed part of `chars`.
pub fn trim_bounds(chars: &Vec<char>) -> (r: (usize, usize))
    ensures
        r.0 as int == skip_whitespace(chars@, 0),
        r.1 as int == drop_whitespace(chars@, chars@.len() as int),
        r.0 <= chars@.len(),
        r.1 <= chars@.len(),
{
    let n: usize = chars.len();
    let mut start: usize = 0;
    while start < n && char_is_whitespace(chars[start])
        invariant
            start <= n,
            n == chars@.len(),
            skip_whitespace(chars@, 0) == skip_whitespace(chars@, start as int),
        decreases n - start,
    {
        start = start + 1;
    }
    let mut end: usize = n;
    while end > 0 && char_is_whitespace(chars[end - 1])
        invariant
            end <= n,
            n == chars@.len(),
            drop_whitespace(chars@, n as int) == drop_whitespace(chars@, end as int),
        decreases end,
    {
        end = end - 1;
    }
    (start, end)
}

/// The trimmed part of `text`, as a slice of it.
pub fn trim(text: &str) -> (r: &str)
    ensures
        r@ == trimmed(text@),
{
    let chars: Vec<char> = chars_of(text);
    let (start, end) = trim_bounds(&chars);
    if start < end {
        text.substring_char(start, end)
    } else {
        text.substring_char(0, 0)
    }
}

/// Number of whitespace-separated words of `chars`.
pub fn count_words(chars: &Vec<char>) -> (r: usize)
    ensures
        r as nat == word_count(chars@),
{
    let n: usize = chars.len();
    let mut count: usize = 0;
    let mut i: usize = 0;
    let mut after_space: bool = true;
    while i < n
        invariant
            i <= n,
            n == chars@.len(),
            count <= i,
            count as nat == word_starts(chars@, i as int),
            after_space == (i == 0 || is_whitespace(chars@[i - 1])),
        decreases n - i,
    {
        let space: bool = char_is_whitespace(chars[i]);
        if !space && after_space {
            count = count + 1;
        }
        after_space = space;
        i = i + 1;
    }
    count
}

/// Whether two texts hold the same characters.
pub fn same_text(a: &str, b: &str) -> (r: bool)
    ensures
        r == (a@ == b@),
{
    let x: Vec<char> = chars_of(a);
    let y: Vec<char> = chars_of(b);
    same_chars(&x, &y)
}

/// Whether two character vectors are equal.
pub fn same_chars(a: &Vec<char>, b: &Vec<char>) -> (r: bool)
    ensures
        r == (a@ == b@),
{
    if a.len() != b.len() {
        return false;
    }
    let n: usize = a.len();
    let mut i: usize = 0;
    while i < n
        invariant
            i <= n,
            n == a@.len(),
            n == b@.len(),
            a@.subrange(0, i as int) == b@.subrange(0, i as int),
        decreases n - i,
    {
        if a[i] != b[i] {
            assert(a@[i as int] != b@[i as int]);
            return false;
        }
        assert(a@.subrange(0, i as int + 1) =~= a@.subrange(0, i as int).push(a@[i as int]));
        assert(b@.subrange(0, i as int + 1) =~= b@.subrange(0, i as int).push(b@[i as int]));
        i = i + 1;
    }
    assert(a@ =~= a@.subrange(0, n as int));
    assert(b@ =~= b@.subrange(0, n as int));
    true
}

} // verus!
