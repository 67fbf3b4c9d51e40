//! Text as sequences of characters: white space, lines, words and suffixes.

use vstd::prelude::*;

verus! {

/// The view of each element of `s`.
pub open spec fn views<T: View>(s: Seq<T>) -> Seq<T::V> {
    s.map_values(|t: T| t@)
}

/// The characters with the Unicode property `White_Space`.
pub open spec fn white_space(c: char) -> bool {
    let u = c as u32;
    ||| 0x09 <= u <= 0x0D
    ||| u == 0x20
    ||| u == 0x85
    ||| u == 0xA0
    ||| u == 0x1680
    ||| 0x2000 <= u <= 0x200A
    ||| u == 0x2028
    ||| u == 0x2029
    ||| u == 0x202F
    ||| u == 0x205F
    ||| u == 0x3000
}

/// The number of characters of `text` that stand before its first line feed.
pub open spec fn line_len(text: Seq<char>) -> nat
    decreases text.len(),
{
    if text.len() == 0 || text[0] == '\n' {
        0
    } else {
        1 + line_len(text.skip(1))
    }
}

/// The first line of `text`, without its line ending.
///
/// A line ends with a line feed, which a carriage return may precede, or with
/// the text. A carriage return at the end of the text belongs to the line.
/// Only the empty text has no first line.
pub open spec fn leading_line(text: Seq<char>) -> Option<Seq<char>> {
    let n = line_len(text) as int;
    if text.len() == 0 {
        None
    } else if 0 < n < text.len() && text[n - 1] == '\r' {
        Some(text.take(n - 1))
    } else {
        Some(text.take(n))
    }
}

/// The number of characters of `s` that stand before its first white space.
pub open spec fn word_len(s: Seq<char>) -> nat
    decreases s.len(),
{
    if s.len() == 0 || white_space(s[0]) {
        0
    } else {
        1 + word_len(s.skip(1))
    }
}

/// The words of `s`: its longest runs of characters other than white space,
/// from left to right.
pub open spec fn words(s: Seq<char>) -> Seq<Seq<char>>
    decreases s.len(),
    via words_decreases
{
    if s.len() == 0 {
        Seq::empty()
    } else if white_space(s[0]) {
        words(s.skip(1))
    } else {
        seq![s.take(word_len(s) as int)] + words(s.skip(word_len(s) as int))
    }
}

#[via_fn]
proof fn words_decreases(s: Seq<char>) {
    if s.len() != 0 && !white_space(s[0]) {
        lemma_word_len_bounds(s);
    }
}

/// `path` without its first character where that is a slash.
pub open spec fn without_slash(path: Seq<char>) -> Seq<char> {
    if path.len() > 0 && path[0] == '/' {
        path.skip(1)
    } else {
        path
    }
}

/// A word as a request line holds it: not empty, and without white space.
pub open spec fn is_word(w: Seq<char>) -> bool {
    w.len() > 0 && forall|j: int| 0 <= j < w.len() ==> !white_space(#[trigger] w[j])
}

/// A word is no longer than the text it starts, and not empty where the text
/// starts with a character other than white space.
pub proof fn lemma_word_len_bounds(s: Seq<char>)
    ensures
        word_len(s) <= s.len(),
        s.len() > 0 && !white_space(s[0]) ==> word_len(s) >= 1,
    decreases s.len(),
{
    if s.len() != 0 && !white_space(s[0]) {
        lemma_word_len_bounds(s.skip(1));
    }
}

/// `k` is the length of the first line where no line feed stands before `k`
/// and one stands at `k`, or the text ends there.
pub proof fn lemma_line_len_is(text: Seq<char>, k: int)
    requires
        0 <= k <= text.len(),
        forall|j: int| 0 <= j < k ==> text[j] != '\n',
        k < text.len() ==> text[k] == '\n',
    ensures
        line_len(text) == k,
    decreases k,
{
    if k > 0 {
        lemma_line_len_is(text.skip(1), k - 1);
    }
}

/// `k` is the length of the first word where no white space stands before `k`
/// and one stands at `k`, or the text ends there.
pub proof fn lemma_word_len_is(s: Seq<char>, k: int)
    requires
        0 <= k <= s.len(),
        forall|j: int| 0 <= j < k ==> !white_space(s[j]),
        k < s.len() ==> white_space(s[k]),
    ensures
        word_len(s) == k,
    decreases k,
{
    if k > 0 {
        lemma_word_len_is(s.skip(1), k - 1);
    }
}

/// Each of the words of a text is a word: not empty, and without white
/// space.
pub proof fn lemma_words_are_words(s: Seq<char>)
    ensures
        forall|k: int| 0 <= k < words(s).len() ==> is_word(#[trigger] words(s)[k]),
    decreases s.len(),
{
    if s.len() == 0 {
    } else if white_space(s[0]) {
        lemma_words_are_words(s.skip(1));
        assert(words(s) == words(s.skip(1)));
    } else {
        let n = word_len(s) as int;
        lemma_word_len_bounds(s);
        lemma_word_has_no_white_space(s);
        lemma_words_are_words(s.skip(n));
        assert forall|k: int| 0 <= k < words(s).len() implies is_word(#[trigger] words(s)[k]) by {
            if k > 0 {
                assert(words(s)[k] == words(s.skip(n))[k - 1]);
            }
        }
    }
}

/// No white space stands in the first word of a text.
pub proof fn lemma_word_has_no_white_space(s: Seq<char>)
    ensures
        forall|j: int| 0 <= j < word_len(s) ==> !white_space(#[trigger] s[j]),
    decreases s.len(),
{
    if s.len() != 0 && !white_space(s[0]) {
        lemma_word_len_bounds(s);
        lemma_word_has_no_white_space(s.skip(1));
        assert forall|j: int| 0 <= j < word_len(s) implies !white_space(#[trigger] s[j]) by {
            if j > 0 {
                assert(s[j] == s.skip(1)[j - 1]);
            }
        }
    }
}

/// White space at the start of a text adds no word.
pub proof fn lemma_words_after_space(c: char, rest: Seq<char>)
    requires
        white_space(c),
    ensures
        words(seq![c] + rest) == words(rest),
{
    assert((seq![c] + rest).skip(1) == rest);
}

/// A word at the start of a text, with white space or nothing behind it, is
/// the first of its words.
pub proof fn lemma_words_after_word(word: Seq<char>, rest: Seq<char>)
    requires
        is_word(word),
        rest.len() == 0 || white_space(rest[0]),
    ensures
        words(word + rest) == seq![word] + words(rest),
{
    let s = word + rest;
    let n = word.len() as int;
    lemma_word_len_is(s, n);
    assert(s.take(n) == word);
    assert(s.skip(n) == rest);
}

/// Tells whether `c` is white space.
pub fn is_whitespace(c: char) -> (b: bool)
    ensures
        b == white_space(c),
{
    let u: u32 = c as u32;
    (0x09 <= u && u <= 0x0D) || u == 0x20 || u == 0x85 || u == 0xA0 || u == 0x1680 || (0x2000 <= u
        && u <= 0x200A) || u == 0x2028 || u == 0x2029 || u == 0x202F || u == 0x205F || u == 0x3000
}

/// The characters of `s`, in order.
pub fn chars_of(s: &str) -> (chars: Vec<char>)
    ensures
        chars@ == s@,
{
    let mut chars: Vec<char> = Vec::new();
    for c in it: s.chars()
        invariant
            chars@ == it.seq().take(it.index() as int),
            it.seq() == s@,
    {
        chars.push(c);
    }
    chars
}

/// The first line of `text`, if it has one.
pub fn first_line<'a>(text: &'a [char]) -> (line: Option<&'a [char]>)
    ensures
        match line {
            Some(l) => leading_line(text@) == Some(l@),
            None => leading_line(text@) is None,
        },
{
    if text.len() == 0 {
        return None;
    }
    let mut n: usize = 0;
    while n < text.len() && text[n] != '\n'
        invariant
            n <= text.len(),
            forall|j: int| 0 <= j < n ==> text@[j] != '\n',
        decreases text.len() - n,
    {
        n += 1;
    }
    proof {
        lemma_line_len_is(text@, n as int);
    }
    if 0 < n && n < text.len() && text[n - 1] == '\r' {
        Some(&text[0..n - 1])
    } else {
        Some(&text[0..n])
    }
}

/// The words of `line`, from left to right.
pub fn split_whitespace<'a>(line: &'a [char]) -> (parts: Vec<&'a [char]>)
    ensures
        views(parts@) == words(line@),
{
    let mut parts: Vec<&'a [char]> = Vec::new();
    let mut i: usize = 0;
    assert(line@.skip(0) == line@);
    while i < line.len()
        invariant
            i <= line.len(),
            views(parts@) + words(line@.skip(i as int)) == words(line@),
        decreases line.len() - i,
    {
        let ghost rest = line@.skip(i as int);
        if is_whitespace(line[i]) {
            assert(rest.skip(1) == line@.skip(i + 1));
            i += 1;
        } else {
            let mut j: usize = i + 1;
            while j < line.len() && !is_whitespace(line[j])
                invariant
                    i < j <= line.len(),
                    forall|k: int| i <= k < j ==> !white_space(line@[k]),
                decreases line.len() - j,
            {
                j += 1;
            }
            let word = &line[i..j];
            proof {
                lemma_word_len_is(rest, j - i);
                assert(rest.take(j - i) == word@);
                assert(rest.skip(j - i) == line@.skip(j as int));
            }
            parts.push(word);
            i = j;
        }
    }
    parts
}

/// `path` without its leading slash, if it has one.
pub fn strip_slash<'a>(path: &'a [char]) -> (rest: &'a [char])
    ensures
        rest@ == without_slash(path@),
{
    if path.len() > 0 && path[0] == '/' {
        &path[1..path.len()]
    } else {
        path
    }
}

/// Tells whether `text` ends with `suffix`.
pub fn ends_with(text: &[char], suffix: &[char]) -> (b: bool)
    ensures
        b == suffix@.is_suffix_of(text@),
{
    if suffix.len() > text.len() {
        return false;
    }
    let start: usize = text.len() - suffix.len();
    let mut i: usize = 0;
    while i < suffix.len()
        invariant
            i <= suffix.len(),
            start + suffix.len() == text.len(),
            forall|j: int| 0 <= j < i ==> suffix@[j] == text@[start + j],
        decreases suffix.len() - i,
    {
        if suffix[i] != text[start + i] {
            return false;
        }
        i += 1;
    }
    true
}

} // verus!
