//! What counts as whitespace, a line and a word, and how the counts of a
//! whole text relate to the counts of its lines.

use vstd::prelude::*;

verus! {

/// Whether `c` has the Unicode `White_Space` property.
pub open spec fn is_whitespace(c: char) -> bool {
    let u = c as u32;
    ||| 0x09 <= u <= 0x0D
    ||| u == 0x20
    ||| u == 0x85
    ||| u == 0xA0
    ||| u == 0x1680
    ||| 0x2000 <= u <= 0x200A
    ||| u == 0x2028
    ||| u == 0x2029
    ||| u == 0x202F
    ||| u == 0x205F
    ||| u == 0x3000
}

/// Position of the first line feed in `s`, or `s.len()` where it has none.
pub open spec fn first_line_feed(s: Seq<char>) -> nat
    decreases s.len(),
{
    if s.len() == 0 || s[0] == '\n' {
        0
    } else {
        1 + first_line_feed(s.drop_first())
    }
}

/// `line` without the carriage return that ends it, if one does.
pub open spec fn without_carriage_return(line: Seq<char>) -> Seq<char> {
    if line.len() > 0 && line.last() == '\r' {
        line.drop_last()
    } else {
        line
    }
}

/// The logical lines of `s`.
///
/// A line ends at a line feed; a carriage return directly before that line
/// feed belongs to the terminator, not to the line. What follows the last
/// line feed is a line of its own only if it is not empty, so the empty
/// text has no lines and a text that ends in a line feed has as many lines
/// as line feeds.
pub open spec fn lines(s: Seq<char>) -> Seq<Seq<char>>
    decreases s.len(),
{
    if s.len() == 0 {
        Seq::empty()
    } else {
        let k = first_line_feed(s);
        if k >= s.len() {
            seq![s]
        } else {
            seq![without_carriage_return(s.take(k as int))] + lines(s.skip(k as int + 1))
        }
    }
}

/// Whether a word starts at position `i` of `s`: the character there is not
/// whitespace, and it is the first one or follows whitespace.
pub open spec fn word_starts_at(s: Seq<char>, i: int) -> bool {
    &&& 0 <= i < s.len()
    &&& !is_whitespace(s[i])
    &&& (i == 0 || is_whitespace(s[i - 1]))
}

/// Number of words that start before position `n` of `s`.
pub open spec fn word_starts_before(s: Seq<char>, n: int) -> nat
    decreases n,
{
    if n <= 0 {
        0
    } else {
        word_starts_before(s, n - 1) + if word_starts_at(s, n - 1) {
            1nat
        } else {
            0nat
        }
    }
}

/// Number of words in `s`: maximal runs of characters that are not
/// whitespace.
pub open spec fn word_count(s: Seq<char>) -> nat {
    word_starts_before(s, s.len() as int)
}

/// Number of words in all of `ls` together.
pub open spec fn words_in(ls: Seq<Seq<char>>) -> nat
    decreases ls.len(),
{
    if ls.len() == 0 {
        0
    } else {
        word_count(ls[0]) + words_in(ls.drop_first())
    }
}

/// Number of line feeds before position `n` of `s`.
pub open spec fn line_feeds_before(s: Seq<char>, n: int) -> nat
    decreases n,
{
    if n <= 0 {
        0
    } else {
        line_feeds_before(s, n - 1) + if n <= s.len() && s[n - 1] == '\n' {
            1nat
        } else {
            0nat
        }
    }
}

/// 1 where `s` ends in text that no line feed closes, else 0.
pub open spec fn open_line(s: Seq<char>) -> nat {
    if s.len() > 0 && s.last() != '\n' {
        1
    } else {
        0
    }
}

/// Tells whether `c` is whitespace.
pub fn char_is_whitespace(c: char) -> (yes: bool)
    ensures
        yes == is_whitespace(c),
{
    let u: u32 = c as u32;
    (0x09 <= u && u <= 0x0D) || u == 0x20 || u == 0x85 || u == 0xA0 || u == 0x1680 || (0x2000 <= u
        && u <= 0x200A) || u == 0x2028 || u == 0x2029 || u == 0x202F || u == 0x205F || u == 0x3000
}

/// The UTF-8 encoding of a text has at least one byte for each character.
pub proof fn lemma_encoding_covers_chars(chars: Seq<char>)
    ensures
        chars.len() <= vstd::utf8::encode_utf8(chars).len(),
    decreases chars.len(),
{
    if chars.len() > 0 {
        lemma_encoding_covers_chars(chars.drop_first());
    }
}

/// The length of `text` in bytes: a text has no more characters than that,
/// and so no more than a `usize` can count.
pub fn byte_len(text: &str) -> (len: usize)
    ensures
        len == vstd::utf8::encode_utf8(text@).len(),
        text@.len() <= len,
{
    proof {
        lemma_encoding_covers_chars(text@);
    }
    text.as_bytes().len()
}

/// The first line feed of `s` lies within `s`, nothing before it is a line
/// feed, and where it lies before the end it is one.
pub proof fn lemma_first_line_feed(s: Seq<char>)
    ensures
        first_line_feed(s) <= s.len(),
        forall|j: int| 0 <= j < first_line_feed(s) ==> s[j] != '\n',
        first_line_feed(s) < s.len() ==> s[first_line_feed(s) as int] == '\n',
    decreases s.len(),
{
    if s.len() > 0 && s[0] != '\n' {
        let t = s.drop_first();
        lemma_first_line_feed(t);
        assert forall|j: int| 0 <= j < first_line_feed(s) implies s[j] != '\n' by {
            if j > 0 {
                assert(s[j] == t[j - 1]);
            }
        }
        assert(first_line_feed(s) < s.len() ==> s[first_line_feed(s) as int] == t[first_line_feed(
            t,
        ) as int]);
    }
}

/// Counting word starts looks only at the characters before the bound.
proof fn lemma_word_starts_prefix(s: Seq<char>, t: Seq<char>, n: int)
    requires
        0 <= n <= s.len(),
        n <= t.len(),
        forall|j: int| 0 <= j < n ==> s[j] == t[j],
    ensures
        word_starts_before(s, n) == word_starts_before(t, n),
    decreases n,
{
    if n > 0 {
        lemma_word_starts_prefix(s, t, n - 1);
    }
}

/// After whitespace at `k`, the word starts of the rest are those of the
/// whole text from `k + 1` on.
proof fn lemma_word_starts_suffix(s: Seq<char>, k: int, n: int)
    requires
        0 <= k < s.len(),
        is_whitespace(s[k]),
        0 <= n <= s.len() - k - 1,
    ensures
        word_starts_before(s.skip(k + 1), n) + word_starts_before(s, k + 1) == word_starts_before(
            s,
            k + 1 + n,
        ),
    decreases n,
{
    if n > 0 {
        lemma_word_starts_suffix(s, k, n - 1);
    }
}

/// A stretch without line feeds adds none to the count.
proof fn lemma_no_line_feeds(s: Seq<char>, n: int)
    requires
        0 <= n <= s.len(),
        forall|j: int| 0 <= j < n ==> s[j] != '\n',
    ensures
        line_feeds_before(s, n) == 0,
    decreases n,
{
    if n > 0 {
        lemma_no_line_feeds(s, n - 1);
    }
}

/// The line feeds of what follows position `k` are those of the whole text
/// from `k + 1` on.
proof fn lemma_line_feeds_suffix(s: Seq<char>, k: int, n: int)
    requires
        0 <= k < s.len(),
        0 <= n <= s.len() - k - 1,
    ensures
        line_feeds_before(s.skip(k + 1), n) + line_feeds_before(s, k + 1) == line_feeds_before(
            s,
            k + 1 + n,
        ),
    decreases n,
{
    if n > 0 {
        lemma_line_feeds_suffix(s, k, n - 1);
    }
}

/// A carriage return at the end of a line is whitespace: the line has the
/// same words with it and without it.
proof fn lemma_carriage_return_is_no_word(line: Seq<char>)
    ensures
        word_count(without_carriage_return(line)) == word_count(line),
{
    if line.len() > 0 && line.last() == '\r' {
        let short = line.drop_last();
        lemma_word_starts_prefix(short, line, short.len() as int);
    }
}

/// The number of lines of a text is the number of its line feeds, and one
/// more where text follows the last of them. The words of its lines are the
/// words of the text: no word spans two lines.
pub proof fn lemma_counts_of_lines(s: Seq<char>)
    ensures
        lines(s).len() == line_feeds_before(s, s.len() as int) + open_line(s),
        words_in(lines(s)) == word_count(s),
    decreases s.len(),
{
    if s.len() > 0 {
        lemma_first_line_feed(s);
        let k = first_line_feed(s) as int;
        if k >= s.len() {
            // One line, and no line feed.
            lemma_no_line_feeds(s, s.len() as int);
            assert(words_in(seq![s].drop_first()) == 0);
        } else {
            // A first line, a line feed, and the lines of the rest.
            let head = s.take(k);
            let rest = s.skip(k + 1);
            lemma_counts_of_lines(rest);
            assert((seq![without_carriage_return(head)] + lines(rest)).drop_first() =~= lines(
                rest,
            ));
            lemma_no_line_feeds(s, k);
            lemma_line_feeds_suffix(s, k, rest.len() as int);
            lemma_carriage_return_is_no_word(head);
            lemma_word_starts_prefix(head, s, k);
            lemma_word_starts_suffix(s, k, rest.len() as int);
        }
    }
}

} // verus!
