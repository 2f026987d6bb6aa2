//! Books, and the line of text that stands for a book in a file.
//!
//! A book is written as its title, its author and its year with commas
//! between them.

use crate::decimal::{
    append_decimal, decimal, is_digit, leading_whitespace, lemma_decimal_round_trip,
    parse_unsigned, trailing_whitespace, trim, trimmed, unsigned_value,
};
use crate::text::byte_len;
use vstd::prelude::*;

verus! {

/// A book.
#[derive(Debug)]
pub struct Book {
    pub title: String,
    pub author: String,
    pub year: u16,
}

/// A [`Book`] as mathematical values.
pub struct BookView {
    pub title: Seq<char>,
    pub author: Seq<char>,
    pub year: nat,
}

impl View for Book {
    type V = BookView;

    open spec fn view(&self) -> BookView {
        BookView { title: self.title@, author: self.author@, year: self.year as nat }
    }
}

/// Position of the first comma in `s`, or `s.len()` where it has none.
pub open spec fn first_comma(s: Seq<char>) -> nat
    decreases s.len(),
{
    if s.len() == 0 || s[0] == ',' {
        0
    } else {
        1 + first_comma(s.drop_first())
    }
}

/// The stretches of `s` between its commas, empty ones included: one more
/// than it has commas.
pub open spec fn fields(s: Seq<char>) -> Seq<Seq<char>>
    decreases s.len(),
{
    let k = first_comma(s);
    if k >= s.len() {
        seq![s]
    } else {
        seq![s.take(k as int)] + fields(s.skip(k as int + 1))
    }
}

/// The year that `field` gives: the number it writes once the whitespace
/// around it is taken off, or 0 where it writes none or one that is more
/// than a year can hold.
pub open spec fn year_of(field: Seq<char>) -> nat {
    match unsigned_value(trimmed(field), u16::MAX as nat) {
        Some(year) => year,
        None => 0,
    }
}

/// The book that `line` stands for: a line of exactly three fields gives a
/// book, any other line none.
pub open spec fn book_of(line: Seq<char>) -> Option<BookView> {
    let parts = fields(line);
    if parts.len() == 3 {
        Some(BookView { title: parts[0], author: parts[1], year: year_of(parts[2]) })
    } else {
        None
    }
}

/// The line that stands for `book`, without a line ending.
pub open spec fn line_of(book: BookView) -> Seq<char> {
    book.title + seq![','] + book.author + seq![','] + decimal(book.year)
}

/// The first comma of `s` lies within `s`, nothing before it is a comma,
/// and where it lies before the end it is one.
proof fn lemma_first_comma(s: Seq<char>)
    ensures
        first_comma(s) <= s.len(),
        forall|j: int| 0 <= j < first_comma(s) ==> s[j] != ',',
        first_comma(s) < s.len() ==> s[first_comma(s) as int] == ',',
    decreases s.len(),
{
    if s.len() > 0 && s[0] != ',' {
        let t = s.drop_first();
        lemma_first_comma(t);
        assert forall|j: int| 0 <= j < first_comma(s) implies s[j] != ',' by {
            if j > 0 {
                assert(s[j] == t[j - 1]);
            }
        }
    }
}

/// The first comma of `s` is at `at` where nothing before `at` is a comma
/// and `at` is one, or the end.
proof fn lemma_first_comma_is(s: Seq<char>, at: int)
    requires
        0 <= at <= s.len(),
        forall|j: int| 0 <= j < at ==> s[j] != ',',
        at < s.len() ==> s[at] == ',',
    ensures
        first_comma(s) == at,
{
    lemma_first_comma(s);
}

/// A text with commas at `first` and `second` and nowhere else has three
/// fields: what is before, between and behind the two.
proof fn lemma_two_commas(s: Seq<char>, first: int, second: int)
    requires
        0 <= first < second < s.len(),
        forall|j: int| 0 <= j < s.len() ==> (s[j] == ',' <==> j == first || j == second),
    ensures
        fields(s) =~= seq![
            s.subrange(0, first),
            s.subrange(first + 1, second),
            s.subrange(second + 1, s.len() as int),
        ],
{
    // The first field ends at the first comma.
    lemma_first_comma_is(s, first);
    // What follows has one comma, where the second field ends.
    let rest = s.skip(first + 1);
    assert(forall|j: int| 0 <= j < rest.len() ==> (rest[j] == ',' <==> j == second - first - 1));
    lemma_first_comma_is(rest, second - first - 1);
    // What follows that has no comma: it is the third field.
    let tail = rest.skip(second - first);
    assert(forall|j: int| 0 <= j < tail.len() ==> tail[j] != ',');
    lemma_first_comma_is(tail, tail.len() as int);
    assert(fields(rest) =~= seq![rest.take(second - first - 1)] + fields(tail));
    assert(rest.take(second - first - 1) =~= s.subrange(first + 1, second));
    assert(tail =~= s.subrange(second + 1, s.len() as int));
}

/// A text has one field more than it has commas.
proof fn lemma_field_count(s: Seq<char>)
    ensures
        fields(s).len() == commas_before(s, s.len() as int) + 1,
    decreases s.len(),
{
    lemma_first_comma(s);
    let k = first_comma(s) as int;
    lemma_no_commas(s, k);
    if k < s.len() {
        let rest = s.skip(k + 1);
        lemma_field_count(rest);
        lemma_commas_suffix(s, k, rest.len() as int);
    }
}

/// Number of commas before position `n` of `s`.
pub open spec fn commas_before(s: Seq<char>, n: int) -> nat
    decreases n,
{
    if n <= 0 {
        0
    } else {
        commas_before(s, n - 1) + if n <= s.len() && s[n - 1] == ',' {
            1nat
        } else {
            0nat
        }
    }
}

/// A stretch without commas adds none to the count.
proof fn lemma_no_commas(s: Seq<char>, n: int)
    requires
        0 <= n <= s.len(),
        forall|j: int| 0 <= j < n ==> s[j] != ',',
    ensures
        commas_before(s, n) == 0,
    decreases n,
{
    if n > 0 {
        lemma_no_commas(s, n - 1);
    }
}

/// The commas of what follows position `k` are those of the whole text
/// from `k + 1` on.
proof fn lemma_commas_suffix(s: Seq<char>, k: int, n: int)
    requires
        0 <= k < s.len(),
        0 <= n <= s.len() - k - 1,
    ensures
        commas_before(s.skip(k + 1), n) + commas_before(s, k + 1) == commas_before(s, k + 1 + n),
    decreases n,
{
    if n > 0 {
        lemma_commas_suffix(s, k, n - 1);
    }
}

/// The book that `line` stands for, if it stands for one.
pub fn parse_book(line: &str) -> (book: Option<Book>)
    ensures
        book is Some <==> book_of(line@) is Some,
        book matches Some(b) ==> book_of(line@) == Some(b@),
{
    let limit = byte_len(line);
    let mut first: usize = 0;
    let mut second: usize = 0;
    let mut commas: usize = 0;
    let mut seen: usize = 0;
    for c in it: line.chars()
        invariant
            it.seq() == line@,
            seen == it.index(),
            line@.len() <= limit,
            commas == commas_before(line@, seen as int),
            commas <= seen,
            commas >= 1 ==> first < seen && line@[first as int] == ',',
            commas >= 2 ==> first < second < seen && line@[second as int] == ',',
            commas <= 2 ==> forall|j: int|
                0 <= j < seen ==> (#[trigger] line@[j] == ',' <==> (commas >= 1 && j == first) || (
                commas >= 2 && j == second)),
    {
        if c == ',' {
            if commas == 0 {
                first = seen;
            } else if commas == 1 {
                second = seen;
            }
            commas = commas + 1;
        }
        seen = seen + 1;
    }
    proof {
        lemma_field_count(line@);
    }
    if commas != 2 {
        return None;
    }
    proof {
        lemma_two_commas(line@, first as int, second as int);
    }
    let title = line.substring_char(0, first).to_owned();
    let author = line.substring_char(first + 1, second).to_owned();
    let year = match parse_unsigned(trim(line.substring_char(second + 1, seen)), 65535) {
        Some(year) => year as u16,
        None => 0,
    };
    Some(Book { title, author, year })
}

/// The line that stands for `book`, without a line ending.
pub fn book_line(book: &Book) -> (line: String)
    ensures
        line@ == line_of(book@),
{
    let mut line = book.title.clone();
    line.append(",");
    line.append(book.author.as_str());
    line.append(",");
    append_decimal(&mut line, book.year as u64);
    proof {
        reveal_strlit(",");
    }
    line
}

/// The digits of a number hold no comma and no whitespace.
proof fn lemma_decimal_is_plain(n: nat)
    ensures
        forall|j: int| 0 <= j < decimal(n).len() ==> #[trigger] decimal(n)[j] != ',',
        trimmed(decimal(n)) == decimal(n),
{
    // A digit is neither a comma nor whitespace.
    lemma_decimal_round_trip(n);
}

/// What is written is read back: the line of a book whose title and author
/// hold no comma stands for that book.
pub proof fn lemma_written_books_are_read_back(book: BookView)
    requires
        forall|j: int| 0 <= j < book.title.len() ==> book.title[j] != ',',
        forall|j: int| 0 <= j < book.author.len() ==> book.author[j] != ',',
        book.year <= u16::MAX,
    ensures
        book_of(line_of(book)) == Some(book),
{
    let line = line_of(book);
    let first = book.title.len() as int;
    let second = first + 1 + book.author.len();
    lemma_decimal_is_plain(book.year);
    lemma_decimal_round_trip(book.year);
    // The commas of the line are the two that were written.
    assert(forall|j: int| 0 <= j < line.len() ==> (line[j] == ',' <==> j == first || j == second));
    lemma_two_commas(line, first, second);
    assert(line.subrange(0, first) =~= book.title);
    assert(line.subrange(first + 1, second) =~= book.author);
    assert(line.subrange(second + 1, line.len() as int) =~= decimal(book.year));
}

} // verus!
