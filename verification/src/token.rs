//! Tokens of an input line: splitting at whitespace, and reading a token as a
//! decimal number.

use vstd::prelude::*;
use vstd::string::*;

verus! {

/// The characters that separate tokens: those with the Unicode property
/// `White_Space`.
pub open spec fn is_whitespace(c: char) -> bool {
    ||| '\u{0009}' <= c <= '\u{000D}'
    ||| c == ' '
    ||| c == '\u{0085}'
    ||| c == '\u{00A0}'
    ||| c == '\u{1680}'
    ||| '\u{2000}' <= c <= '\u{200A}'
    ||| c == '\u{2028}'
    ||| c == '\u{2029}'
    ||| c == '\u{202F}'
    ||| c == '\u{205F}'
    ||| c == '\u{3000}'
}

/// The first position at or after `from` that holds whitespace, or the length
/// of `s` if there is none.
pub open spec fn word_end(s: Seq<char>, from: int) -> int
    decreases s.len() - from,
{
    if 0 <= from < s.len() && !is_whitespace(s[from]) {
        word_end(s, from + 1)
    } else {
        from
    }
}

/// The words of `s` that start at or after `from`, in order. A word is a
/// maximal run of characters that are not whitespace.
pub open spec fn words_from(s: Seq<char>, from: int) -> Seq<Seq<char>>
    decreases s.len() - from,
{
    if from < 0 || from >= s.len() {
        Seq::empty()
    } else if is_whitespace(s[from]) {
        words_from(s, from + 1)
    } else {
        proof {
            lemma_word_end_bounds(s, from);
        }
        seq![s.subrange(from, word_end(s, from))] + words_from(s, word_end(s, from))
    }
}

/// The words of `s`, in order.
pub open spec fn words(s: Seq<char>) -> Seq<Seq<char>> {
    words_from(s, 0)
}

/// What a list of string slices holds, as plain text.
pub open spec fn texts(parts: Seq<&str>) -> Seq<Seq<char>> {
    Seq::new(parts.len(), |i: int| parts[i]@)
}

/// A word that starts inside `s` is not empty and ends inside `s`.
pub proof fn lemma_word_end_bounds(s: Seq<char>, from: int)
    requires
        0 <= from <= s.len(),
    ensures
        from <= word_end(s, from) <= s.len(),
        from < s.len() && !is_whitespace(s[from]) ==> from < word_end(s, from),
    decreases s.len() - from,
{
    if from < s.len() && !is_whitespace(s[from]) {
        lemma_word_end_bounds(s, from + 1);
    }
}

/// A run without whitespace that is followed by whitespace, or by the end of
/// `s`, ends exactly there.
pub proof fn lemma_word_end_is(s: Seq<char>, from: int, end: int)
    requires
        0 <= from <= end <= s.len(),
        forall|k: int| from <= k < end ==> !is_whitespace(#[trigger] s[k]),
        end < s.len() ==> is_whitespace(s[end]),
    ensures
        word_end(s, from) == end,
    decreases end - from,
{
    if from < end {
        lemma_word_end_is(s, from + 1, end);
    }
}

/// No character of a word is whitespace.
pub proof fn lemma_word_end_run(s: Seq<char>, from: int, k: int)
    requires
        0 <= from <= k < word_end(s, from),
    ensures
        k < s.len(),
        !is_whitespace(s[k]),
    decreases s.len() - from,
{
    if from < s.len() && !is_whitespace(s[from]) {
        if from < k {
            lemma_word_end_run(s, from + 1, k);
        }
    }
}

/// Tells whether `word` is not empty and free of whitespace.
pub open spec fn is_word(word: Seq<char>) -> bool {
    &&& word.len() > 0
    &&& forall|k: int| 0 <= k < word.len() ==> !is_whitespace(#[trigger] word[k])
}

/// Splitting gives words only: none is empty, none holds whitespace.
pub proof fn lemma_words_are_words(s: Seq<char>, from: int)
    ensures
        forall|i: int|
            0 <= i < words_from(s, from).len() ==> is_word(#[trigger] words_from(s, from)[i]),
    decreases s.len() - from,
{
    if 0 <= from < s.len() {
        if is_whitespace(s[from]) {
            lemma_words_are_words(s, from + 1);
            assert(words_from(s, from) == words_from(s, from + 1));
        } else {
            let end = word_end(s, from);
            lemma_word_end_bounds(s, from);
            lemma_words_are_words(s, end);
            let first = s.subrange(from, end);
            assert(is_word(first)) by {
                assert forall|k: int| 0 <= k < first.len() implies !is_whitespace(
                    #[trigger] first[k],
                ) by {
                    lemma_word_end_run(s, from, from + k);
                }
            }
            let rest = words_from(s, end);
            assert forall|i: int| 0 <= i < words_from(s, from).len() implies is_word(
                #[trigger] words_from(s, from)[i],
            ) by {
                assert(words_from(s, from) == seq![first] + rest);
                if i > 0 {
                    assert(words_from(s, from)[i] == rest[i - 1]);
                    assert(is_word(rest[i - 1]));
                } else {
                    assert(words_from(s, from)[i] == first);
                }
            }
        }
    }
}

/// Words put in a row, with one space between each two.
pub open spec fn spaced(tokens: Seq<Seq<char>>) -> Seq<char>
    decreases tokens.len(),
{
    if tokens.len() == 0 {
        Seq::empty()
    } else if tokens.len() == 1 {
        tokens[0]
    } else {
        tokens[0] + seq![' '] + spaced(tokens.drop_first())
    }
}

/// What stands in front of a position has no part in where a word ends.
pub proof fn lemma_word_end_after_prefix(prefix: Seq<char>, s: Seq<char>, from: int)
    requires
        0 <= from <= s.len(),
    ensures
        word_end(prefix + s, prefix.len() + from) == prefix.len() + word_end(s, from),
    decreases s.len() - from,
{
    if from < s.len() {
        assert((prefix + s)[prefix.len() + from] == s[from]);
        if !is_whitespace(s[from]) {
            lemma_word_end_after_prefix(prefix, s, from + 1);
        }
    }
}

/// What stands in front of a position has no part in the words that follow.
pub proof fn lemma_words_after_prefix(prefix: Seq<char>, s: Seq<char>, from: int)
    requires
        0 <= from <= s.len(),
    ensures
        words_from(prefix + s, prefix.len() + from) == words_from(s, from),
    decreases s.len() - from,
{
    if from < s.len() {
        assert((prefix + s)[prefix.len() + from] == s[from]);
        if is_whitespace(s[from]) {
            lemma_words_after_prefix(prefix, s, from + 1);
        } else {
            let end = word_end(s, from);
            lemma_word_end_bounds(s, from);
            lemma_word_end_after_prefix(prefix, s, from);
            lemma_words_after_prefix(prefix, s, end);
            assert((prefix + s).subrange(prefix.len() + from, prefix.len() + end) =~= s.subrange(
                from,
                end,
            ));
        }
    }
}

/// A line that was made by putting words in a row, with one space between
/// each two, splits into exactly those words.
pub proof fn lemma_words_of_spaced(tokens: Seq<Seq<char>>)
    requires
        forall|i: int| 0 <= i < tokens.len() ==> is_word(#[trigger] tokens[i]),
    ensures
        words(spaced(tokens)) == tokens,
    decreases tokens.len(),
{
    if tokens.len() == 0 {
        assert(words(spaced(tokens)) =~= tokens);
    } else {
        let first = tokens[0];
        assert(is_word(first));
        let line = spaced(tokens);
        if tokens.len() == 1 {
            lemma_word_end_is(line, 0, line.len() as int);
            assert(line.subrange(0, line.len() as int) =~= first);
            assert(words_from(line, line.len() as int) =~= Seq::<Seq<char>>::empty());
            assert(words(line) =~= tokens);
        } else {
            let rest = tokens.drop_first();
            let tail = spaced(rest);
            let head = first + seq![' '];
            assert forall|i: int| 0 <= i < rest.len() implies is_word(#[trigger] rest[i]) by {
                assert(rest[i] == tokens[i + 1]);
            }
            lemma_words_of_spaced(rest);
            assert(line =~= head + tail);
            assert(is_whitespace(line[first.len() as int]));
            lemma_word_end_is(line, 0, first.len() as int);
            assert(line.subrange(0, first.len() as int) =~= first);
            assert(words_from(line, first.len() as int) == words_from(line, first.len() as int + 1));
            lemma_words_after_prefix(head, tail, 0);
            assert(words(line) == seq![first] + words(tail));
            assert(seq![first] + rest =~= tokens);
        }
    }
}

/// Tells whether `c` is whitespace.
pub fn char_is_whitespace(c: char) -> (b: bool)
    ensures
        b == is_whitespace(c),
{
    ('\u{0009}' <= c && c <= '\u{000D}') || c == ' ' || c == '\u{0085}' || c == '\u{00A0}' || c
        == '\u{1680}' || ('\u{2000}' <= c && c <= '\u{200A}') || c == '\u{2028}' || c
        == '\u{2029}' || c == '\u{202F}' || c == '\u{205F}' || c == '\u{3000}'
}

/// Splits a line into its words. Whitespace only separates: a blank line has
/// no words, and a run of whitespace counts as one separator.
pub fn tokenize<'a>(line: &'a str) -> (parts: Vec<&'a str>)
    ensures
        texts(parts@) == words(line@),
{
    let len = line.unicode_len();
    let mut parts: Vec<&'a str> = Vec::new();
    let mut start: Option<usize> = None;
    let mut i: usize = 0;
    for c in it: line.chars()
        invariant
            it.seq() == line@,
            len == line@.len(),
            i == it.index(),
            match start {
                Some(st) => st < i && (forall|k: int| st <= k < i ==> !is_whitespace(
                    #[trigger] line@[k],
                )) && words(line@) == texts(parts@) + words_from(line@, st as int),
                None => words(line@) == texts(parts@) + words_from(line@, i as int),
            },
    {
        assert(c == line@[i as int]);
        if char_is_whitespace(c) {
            if let Some(st) = start {
                let word = line.substring_char(st, i);
                proof {
                    lemma_word_end_is(line@, st as int, i as int);
                    assert(texts(parts@.push(word)) =~= texts(parts@) + seq![word@]);
                    assert(words_from(line@, i as int) == words_from(line@, i as int + 1));
                    assert(words_from(line@, st as int) == seq![word@] + words_from(
                        line@,
                        i as int,
                    ));
                }
                parts.push(word);
                start = None;
            }
        } else if start.is_none() {
            start = Some(i);
        }
        i = i + 1;
    }
    if let Some(st) = start {
        let word = line.substring_char(st, len);
        proof {
            lemma_word_end_is(line@, st as int, len as int);
            assert(texts(parts@.push(word)) =~= texts(parts@) + seq![word@]);
            assert(words_from(line@, st as int) == seq![word@] + words_from(line@, len as int));
        }
        parts.push(word);
    }
    parts
}

/// Tells whether `c` is one of the ten decimal digits.
pub open spec fn is_digit(c: char) -> bool {
    '0' <= c <= '9'
}

/// The value of a decimal digit.
pub open spec fn digit_value(c: char) -> nat
    recommends
        is_digit(c),
{
    (c as u32 - '0' as u32) as nat
}

/// Tells whether every character of `s` is a decimal digit.
pub open spec fn all_digits(s: Seq<char>) -> bool {
    forall|i: int| 0 <= i < s.len() ==> is_digit(#[trigger] s[i])
}

/// The number that a string of decimal digits denotes, the most significant
/// digit first. Leading zeros are allowed.
pub open spec fn decimal_value(s: Seq<char>) -> nat
    recommends
        all_digits(s),
    decreases s.len(),
{
    if s.len() == 0 {
        0
    } else {
        10 * decimal_value(s.drop_last()) + digit_value(s.last())
    }
}

/// A token without the one `+` that may stand in front of its digits.
pub open spec fn unsigned_part(s: Seq<char>) -> Seq<char> {
    if s.len() > 0 && s[0] == '+' {
        s.drop_first()
    } else {
        s
    }
}

/// The number in `0..=255` that a token denotes: an optional `+`, then at
/// least one decimal digit and nothing else. Every other token, and one whose
/// value is above 255, denotes none.
pub open spec fn parse_u8_spec(s: Seq<char>) -> Option<u8> {
    let digits = unsigned_part(s);
    if digits.len() > 0 && all_digits(digits) && decimal_value(digits) <= 255 {
        Some(decimal_value(digits) as u8)
    } else {
        None
    }
}

/// More digits never denote less: the value of a digit string is at least
/// the value of each of its prefixes.
pub proof fn lemma_decimal_value_prefix(s: Seq<char>, n: int)
    requires
        all_digits(s),
        0 <= n <= s.len(),
    ensures
        decimal_value(s.take(n)) <= decimal_value(s),
    decreases s.len() - n,
{
    if n == s.len() {
        assert(s.take(n) =~= s);
    } else {
        lemma_decimal_value_prefix(s, n + 1);
        assert(s.take(n + 1).drop_last() =~= s.take(n));
        assert(is_digit(s[n]));
    }
}

/// Reads a token as a decimal number in `0..=255`.
pub fn parse_u8(token: &str) -> (value: Option<u8>)
    ensures
        value == parse_u8_spec(token@),
{
    let len = token.unicode_len();
    if len == 0 {
        return None;
    }
    let skip: usize = if token.get_char(0) == '+' {
        1
    } else {
        0
    };
    let ghost digits = unsigned_part(token@);
    let mut value: u32 = 0;
    let mut i: usize = 0;
    for c in it: token.chars()
        invariant
            it.seq() == token@,
            len == token@.len(),
            len > 0,
            i == it.index(),
            skip == (if token@[0] == '+' { 1int } else { 0int }),
            digits == unsigned_part(token@),
            i >= skip ==> all_digits(digits.take(i - skip)),
            i >= skip ==> value == decimal_value(digits.take(i - skip)),
            i < skip ==> value == 0,
            value <= 255,
    {
        assert(c == token@[i as int]);
        if i >= skip {
            let ghost k = i - skip;
            assert(digits[k] == c);
            assert(digits.take(k + 1).drop_last() =~= digits.take(k));
            if !('0' <= c && c <= '9') {
                assert(!is_digit(digits[k]));
                return None;
            }
            value = 10 * value + (c as u32 - '0' as u32);
            assert(value == decimal_value(digits.take(k + 1)));
            if value > 255 {
                proof {
                    if all_digits(digits) {
                        lemma_decimal_value_prefix(digits, k + 1);
                    }
                }
                return None;
            }
        }
        i = i + 1;
    }
    assert(digits.take(len - skip) =~= digits);
    if len == skip {
        None
    } else {
        Some(value as u8)
    }
}

} // verus!
