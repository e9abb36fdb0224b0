//! Just enough text handling for the first line of an HTTP message: lossy
//! decoding, whitespace-separated words, decimal numbers, and the blank line
//! that ends a header.

use vstd::prelude::*;
use vstd::std_specs::iter::IteratorSpec;

verus! {

/// The text that `String::from_utf8_lossy` makes of `bytes`: the characters
/// they encode, with U+FFFD in place of every ill-formed sequence.
pub uninterp spec fn utf8_lossy(bytes: Seq<u8>) -> Seq<char>;

/// `String::from_utf8_lossy`: the lossy decoding of `data`, as a string of
/// its own.
#[verifier::external_body]
pub(crate) fn decode_lossy(data: &[u8]) -> (text: String)
    ensures
        text@ == utf8_lossy(data@),
{
    String::from_utf8_lossy(data).into_owned()
}

/// Whether `c` is white space to `char::is_whitespace`: a character with the
/// Unicode property `White_Space`.
pub open spec fn is_space(c: char) -> bool {
    let v = c as u32;
    ||| 0x09 <= v <= 0x0d
    ||| v == 0x20
    ||| v == 0x85
    ||| v == 0xa0
    ||| v == 0x1680
    ||| 0x2000 <= v <= 0x200a
    ||| v == 0x2028
    ||| v == 0x2029
    ||| v == 0x202f
    ||| v == 0x205f
    ||| v == 0x3000
}

/// The first position from `from` on that holds a line feed; the length
/// where there is none.
pub open spec fn line_end(text: Seq<char>, from: int) -> int
    decreases text.len() - from,
{
    if from < 0 || from >= text.len() {
        text.len() as int
    } else if text[from] == '\n' {
        from
    } else {
        line_end(text, from + 1)
    }
}

/// The first line of `text`, without its line feed.
pub open spec fn first_line(text: Seq<char>) -> Seq<char> {
    text.subrange(0, line_end(text, 0))
}

/// The first position from `from` on that holds no white space; the length
/// where there is none.
pub open spec fn word_start(text: Seq<char>, from: int) -> int
    decreases text.len() - from,
{
    if from < 0 || from >= text.len() {
        text.len() as int
    } else if !is_space(text[from]) {
        from
    } else {
        word_start(text, from + 1)
    }
}

/// The first position from `from` on that holds white space; the length
/// where there is none.
pub open spec fn word_end(text: Seq<char>, from: int) -> int
    decreases text.len() - from,
{
    if from < 0 || from >= text.len() {
        text.len() as int
    } else if is_space(text[from]) {
        from
    } else {
        word_end(text, from + 1)
    }
}

/// Where the word with index `k` starts, counting the words that white space
/// separates from 0; the length where `text` has no such word.
pub open spec fn nth_word_start(text: Seq<char>, k: nat) -> int
    decreases k,
{
    if k == 0 {
        word_start(text, 0)
    } else {
        word_start(text, word_end(text, nth_word_start(text, (k - 1) as nat)))
    }
}

/// Whether `text` has more than `k` words.
pub open spec fn has_word(text: Seq<char>, k: nat) -> bool {
    nth_word_start(text, k) < text.len()
}

/// The word with index `k`.
pub open spec fn nth_word(text: Seq<char>, k: nat) -> Seq<char>
    recommends
        has_word(text, k),
{
    text.subrange(nth_word_start(text, k), word_end(text, nth_word_start(text, k)))
}

/// Whether the four characters at `at` are a carriage return and a line
/// feed, twice.
pub open spec fn blank_line_at(text: Seq<char>, at: int) -> bool {
    &&& 0 <= at
    &&& at + 4 <= text.len()
    &&& text[at] == '\r'
    &&& text[at + 1] == '\n'
    &&& text[at + 2] == '\r'
    &&& text[at + 3] == '\n'
}

/// The first position from `from` on where a blank line starts; the length
/// where there is none.
pub open spec fn blank_line(text: Seq<char>, from: int) -> int
    decreases text.len() - from,
{
    if from < 0 || from + 4 > text.len() {
        text.len() as int
    } else if blank_line_at(text, from) {
        from
    } else {
        blank_line(text, from + 1)
    }
}

/// Whether a blank line ends the header of `text`.
pub open spec fn has_blank_line(text: Seq<char>) -> bool {
    blank_line(text, 0) < text.len()
}

/// What lies between the first blank line and the next one (or the end);
/// nothing where there is no blank line.
pub open spec fn body_after_blank_line(text: Seq<char>) -> Seq<char> {
    let at = blank_line(text, 0);
    if at < text.len() {
        text.subrange(at + 4, blank_line(text, at + 4))
    } else {
        Seq::<char>::empty()
    }
}

/// The number that decimal digits spell, the last digit counting least.
pub open spec fn decimal_value(digits: Seq<char>) -> nat
    decreases digits.len(),
{
    if digits.len() == 0 {
        0
    } else {
        10 * decimal_value(digits.drop_last()) + (digits.last() as u32 - '0' as u32) as nat
    }
}

/// Whether `c` is one of `0` to `9`.
pub open spec fn is_digit(c: char) -> bool {
    '0' as u32 <= c as u32 <= '9' as u32
}

/// `word` without the `+` that it may start with.
pub open spec fn unsigned_part(word: Seq<char>) -> Seq<char> {
    if word.len() > 0 && word[0] == '+' {
        word.drop_first()
    } else {
        word
    }
}

/// Whether `digits` holds decimal digits only.
pub open spec fn all_digits(digits: Seq<char>) -> bool {
    forall|i: int| 0 <= i < digits.len() ==> is_digit(#[trigger] digits[i])
}

/// What `str::parse::<u16>` makes of `word`: an optional `+`, then one or
/// more decimal digits that spell a number up to 65535.
pub open spec fn parse_u16(word: Seq<char>) -> Option<u16> {
    let digits = unsigned_part(word);
    if digits.len() > 0 && all_digits(digits) && decimal_value(digits) <= u16::MAX {
        Some(decimal_value(digits) as u16)
    } else {
        None
    }
}

pub proof fn lemma_line_end_bounds(text: Seq<char>, from: int)
    requires
        0 <= from <= text.len(),
    ensures
        from <= line_end(text, from) <= text.len(),
    decreases text.len() - from,
{
    if from < text.len() && text[from] != '\n' {
        lemma_line_end_bounds(text, from + 1);
    }
}

pub proof fn lemma_word_start_bounds(text: Seq<char>, from: int)
    requires
        0 <= from <= text.len(),
    ensures
        from <= word_start(text, from) <= text.len(),
    decreases text.len() - from,
{
    if from < text.len() && is_space(text[from]) {
        lemma_word_start_bounds(text, from + 1);
    }
}

pub proof fn lemma_word_end_bounds(text: Seq<char>, from: int)
    requires
        0 <= from <= text.len(),
    ensures
        from <= word_end(text, from) <= text.len(),
        from < text.len() && !is_space(text[from]) ==> from < word_end(text, from),
    decreases text.len() - from,
{
    if from < text.len() && !is_space(text[from]) {
        lemma_word_end_bounds(text, from + 1);
    }
}

pub proof fn lemma_blank_line_bounds(text: Seq<char>, from: int)
    requires
        0 <= from <= text.len(),
    ensures
        from <= blank_line(text, from) <= text.len(),
        blank_line(text, from) < text.len() ==> blank_line_at(text, blank_line(text, from)),
    decreases text.len() - from,
{
    if from + 4 <= text.len() && !blank_line_at(text, from) {
        lemma_blank_line_bounds(text, from + 1);
    }
}

/// A longer numeral is not smaller: digits only add to the value.
pub proof fn lemma_decimal_value_grows(digits: Seq<char>, n: int)
    requires
        0 <= n <= digits.len(),
        all_digits(digits),
    ensures
        decimal_value(digits.subrange(0, n)) <= decimal_value(digits),
    decreases digits.len() - n,
{
    if n < digits.len() {
        let longer = digits.subrange(0, n + 1);
        assert(longer.drop_last() =~= digits.subrange(0, n));
        assert(is_digit(digits[n]));
        assert(longer.last() == digits[n]);
        lemma_decimal_value_grows(digits, n + 1);
    } else {
        assert(digits.subrange(0, n) =~= digits);
    }
}

/// Whether `c` is white space.
pub fn is_whitespace(c: char) -> (space: bool)
    ensures
        space == is_space(c),
{
    let v: u32 = c as u32;
    (0x09 <= v && v <= 0x0d) || v == 0x20 || v == 0x85 || v == 0xa0 || v == 0x1680 || (0x2000 <= v
        && v <= 0x200a) || v == 0x2028 || v == 0x2029 || v == 0x202f || v == 0x205f || v
        == 0x3000
}

/// The end of the line that starts at `from`.
pub fn find_line_end(text: &[char], from: usize) -> (end: usize)
    ensures
        end == line_end(text@, from as int),
        end <= text@.len(),
        from <= text@.len() ==> from <= end,
{
    if from > text.len() {
        return text.len();
    }
    let mut i: usize = from;
    while i < text.len() && text[i] != '\n'
        invariant
            from <= i <= text@.len(),
            line_end(text@, i as int) == line_end(text@, from as int),
        decreases text@.len() - i,
    {
        i = i + 1;
    }
    proof {
        lemma_line_end_bounds(text@, from as int);
    }
    i
}

/// The start of the first word at or behind `from`.
pub fn find_word_start(text: &[char], from: usize) -> (start: usize)
    ensures
        start == word_start(text@, from as int),
        start <= text@.len(),
        from <= text@.len() ==> from <= start,
{
    if from > text.len() {
        return text.len();
    }
    let mut i: usize = from;
    while i < text.len() && is_whitespace(text[i])
        invariant
            from <= i <= text@.len(),
            word_start(text@, i as int) == word_start(text@, from as int),
        decreases text@.len() - i,
    {
        i = i + 1;
    }
    proof {
        lemma_word_start_bounds(text@, from as int);
    }
    i
}

/// The end of the word that starts at `from`.
pub fn find_word_end(text: &[char], from: usize) -> (end: usize)
    ensures
        end == word_end(text@, from as int),
        end <= text@.len(),
        from <= text@.len() ==> from <= end,
{
    if from > text.len() {
        return text.len();
    }
    let mut i: usize = from;
    while i < text.len() && !is_whitespace(text[i])
        invariant
            from <= i <= text@.len(),
            word_end(text@, i as int) == word_end(text@, from as int),
        decreases text@.len() - i,
    {
        i = i + 1;
    }
    proof {
        lemma_word_end_bounds(text@, from as int);
    }
    i
}

/// Where the word with index `k` lies in `text`, as start and end; `None`
/// where `text` has no such word.
pub fn find_word(text: &[char], k: usize) -> (word: Option<(usize, usize)>)
    ensures
        word is Some <==> has_word(text@, k as nat),
        word matches Some((start, end)) ==> start < end <= text@.len() && text@.subrange(
            start as int,
            end as int,
        ) == nth_word(text@, k as nat),
{
    let mut start: usize = find_word_start(text, 0);
    let mut i: usize = 0;
    while i < k
        invariant
            i <= k,
            start <= text@.len(),
            start == nth_word_start(text@, i as nat),
        decreases k - i,
    {
        let end: usize = find_word_end(text, start);
        start = find_word_start(text, end);
        i = i + 1;
    }
    if start < text.len() {
        let end: usize = find_word_end(text, start);
        proof {
            lemma_word_start_is_word(text@, 0, start as int);
            if k > 0 {
                lemma_word_start_is_word(
                    text@,
                    word_end(text@, nth_word_start(text@, (k - 1) as nat)),
                    start as int,
                );
            }
            lemma_word_end_bounds(text@, start as int);
        }
        Some((start, end))
    } else {
        None
    }
}

/// A word starts on a character that is no white space.
pub proof fn lemma_word_start_is_word(text: Seq<char>, from: int, start: int)
    requires
        0 <= from <= text.len(),
        start < text.len(),
    ensures
        start == word_start(text, from) ==> !is_space(text[start]),
    decreases text.len() - from,
{
    if from < text.len() && is_space(text[from]) {
        lemma_word_start_bounds(text, from + 1);
        lemma_word_start_is_word(text, from + 1, start);
    }
}

/// Where the first blank line at or behind `from` starts; the length where
/// there is none.
pub fn find_blank_line(text: &[char], from: usize) -> (at: usize)
    ensures
        at == blank_line(text@, from as int),
        at <= text@.len(),
        from <= text@.len() ==> from <= at,
        at < text@.len() ==> at + 4 <= text@.len(),
{
    let len: usize = text.len();
    if from > len {
        return len;
    }
    let mut i: usize = from;
    while len - i >= 4
        invariant
            len == text@.len(),
            from <= i <= len,
            blank_line(text@, i as int) == blank_line(text@, from as int),
        decreases len - i,
    {
        if text[i] == '\r' && text[i + 1] == '\n' && text[i + 2] == '\r' && text[i + 3] == '\n' {
            return i;
        }
        i = i + 1;
    }
    len
}

/// Whether `text` is the same as `word`, character by character.
pub fn same_text(text: &[char], word: &str) -> (same: bool)
    ensures
        same == (text@ == word@),
{
    let n: usize = word.unicode_len();
    if text.len() != n {
        return false;
    }
    let mut i: usize = 0;
    while i < n
        invariant
            i <= n,
            n == text@.len(),
            n == word@.len(),
            forall|j: int| 0 <= j < i ==> text@[j] == word@[j],
        decreases n - i,
    {
        if text[i] != word.get_char(i) {
            return false;
        }
        i = i + 1;
    }
    assert(text@ =~= word@);
    true
}

/// Reads `word` as `str::parse::<u16>` does.
pub fn parse_number(word: &[char]) -> (number: Option<u16>)
    ensures
        number == parse_u16(word@),
{
    let len: usize = word.len();
    let first: usize = if len > 0 && word[0] == '+' {
        1
    } else {
        0
    };
    let ghost digits = word@.subrange(first as int, len as int);
    proof {
        if first == 1 {
            assert(digits =~= word@.drop_first());
        } else {
            assert(digits =~= word@);
        }
    }
    if first == len {
        return None;
    }
    let mut value: u32 = 0;
    let mut i: usize = first;
    while i < len
        invariant
            first <= i <= len,
            len == word@.len(),
            digits == word@.subrange(first as int, len as int),
            digits == unsigned_part(word@),
            forall|j: int| 0 <= j < i - first ==> is_digit(#[trigger] digits[j]),
            value == decimal_value(digits.subrange(0, i - first)),
            value <= u16::MAX,
        decreases len - i,
    {
        let c: u32 = word[i] as u32;
        assert(digits[i - first] == word@[i as int]);
        if c < '0' as u32 || c > '9' as u32 {
            assert(!is_digit(digits[i - first]));
            return None;
        }
        let digit: u32 = c - '0' as u32;
        let ghost longer = digits.subrange(0, i - first + 1);
        proof {
            assert(longer.drop_last() =~= digits.subrange(0, i - first));
            assert(longer.last() == word@[i as int]);
        }
        let next: u32 = value * 10 + digit;
        if next > u16::MAX as u32 {
            proof {
                if all_digits(digits) {
                    lemma_decimal_value_grows(digits, i - first + 1);
                }
            }
            return None;
        }
        value = next;
        i = i + 1;
    }
    assert(digits.subrange(0, len - first) =~= digits);
    Some(value as u16)
}

/// The characters of the lossy decoding of `data`.
pub fn lossy_chars(data: &[u8]) -> (chars: Vec<char>)
    ensures
        chars@ == utf8_lossy(data@),
{
    let text = decode_lossy(data);
    chars_of(text.as_str())
}

/// The characters of `word`.
pub fn chars_of(word: &str) -> (chars: Vec<char>)
    ensures
        chars@ == word@,
{
    let mut chars: Vec<char> = Vec::new();
    let ghost all = vstd::string::spec_iter(word).remaining();
    proof {
        vstd::string::axiom_spec_iter(word);
    }
    for c in it: word.chars()
        invariant
            it.seq() == all,
            all == word@,
            chars@ == all.subrange(0, it.index()),
    {
        chars.push(c);
        assert(chars@ =~= all.subrange(0, it.index() + 1));
    }
    assert(chars@ =~= word@);
    chars
}

} // verus!
