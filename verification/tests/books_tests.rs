use parallel_file_processor::books::{book_line, parse_book, Book};

/// The book that std's splitting and parsing make of `line`.
fn book_by_std(line: &str) -> Option<(String, String, u16)> {
    let parts: Vec<&str> = line.split(',').collect();
    if parts.len() == 3 {
        let title = parts[0].to_string();
        let author = parts[1].to_string();
        let year = parts[2].trim().parse::<u16>().unwrap_or(0);
        Some((title, author, year))
    } else {
        None
    }
}

fn parts_of(book: Option<Book>) -> Option<(String, String, u16)> {
    book.map(|b| (b.title, b.author, b.year))
}

#[test]
fn a_book_is_written_as_one_line() {
    let book = Book {
        title: "Fahrenheit 451".to_string(),
        author: "Ray Bradbury".to_string(),
        year: 1953,
    };
    assert_eq!(book_line(&book), "Fahrenheit 451,Ray Bradbury,1953");
    let book = Book {
        title: "The Cask of Amontillado".to_string(),
        author: "Edgar Allan Poe".to_string(),
        year: 1846,
    };
    assert_eq!(book_line(&book), "The Cask of Amontillado,Edgar Allan Poe,1846");
    let book = Book { title: String::new(), author: String::new(), year: 0 };
    assert_eq!(book_line(&book), ",,0");
    let book = Book { title: "a".to_string(), author: "b".to_string(), year: u16::MAX };
    assert_eq!(book_line(&book), "a,b,65535");
}

#[test]
fn a_line_of_three_fields_is_a_book() {
    let book = parse_book("Fahrenheit 451,Ray Bradbury,1953").unwrap();
    assert_eq!(book.title, "Fahrenheit 451");
    assert_eq!(book.author, "Ray Bradbury");
    assert_eq!(book.year, 1953);

    let book = parse_book(" spaced title , spaced author ,  1846 ").unwrap();
    assert_eq!(book.title, " spaced title ");
    assert_eq!(book.author, " spaced author ");
    assert_eq!(book.year, 1846);

    let book = parse_book(",,").unwrap();
    assert_eq!(book.title, "");
    assert_eq!(book.author, "");
    assert_eq!(book.year, 0);
}

#[test]
fn a_year_that_is_no_year_reads_as_zero() {
    assert_eq!(parse_book("t,a,unknown").unwrap().year, 0);
    assert_eq!(parse_book("t,a,65536").unwrap().year, 0);
    assert_eq!(parse_book("t,a,-5").unwrap().year, 0);
    assert_eq!(parse_book("t,a,19 53").unwrap().year, 0);
    assert_eq!(parse_book("t,a,").unwrap().year, 0);
    assert_eq!(parse_book("t,a,65535").unwrap().year, 65535);
    assert_eq!(parse_book("t,a,+7").unwrap().year, 7);
}

#[test]
fn a_line_with_other_than_three_fields_is_no_book() {
    assert!(parse_book("").is_none());
    assert!(parse_book("just a title").is_none());
    assert!(parse_book("title,author").is_none());
    assert!(parse_book("title,author,1999,extra").is_none());
    assert!(parse_book("Hello, World,by me,2000").is_none());
    assert!(parse_book(",,,").is_none());
    assert!(parse_book(",").is_none());
}

#[test]
fn lines_are_read_as_std_splits_them() {
    let pieces = ["", ",", "a", " ", "12", "é", ", ", "x,y", "+3", "70000"];
    for first in pieces.iter() {
        for second in pieces.iter() {
            for third in pieces.iter() {
                for fourth in pieces.iter() {
                    let line = format!("{}{}{}{}", first, second, third, fourth);
                    assert_eq!(parts_of(parse_book(&line)), book_by_std(&line), "{:?}", line);
                }
            }
        }
    }
}

#[test]
fn a_written_book_is_read_back() {
    let books = [
        ("Fahrenheit 451", "Ray Bradbury", 1953u16),
        ("The Cask of Amontillado", "Edgar Allan Poe", 1846),
        ("", "", 0),
        ("  ", "é", 65535),
    ];
    for (title, author, year) in books.iter() {
        let book = Book { title: title.to_string(), author: author.to_string(), year: *year };
        let read = parse_book(&book_line(&book)).unwrap();
        assert_eq!(read.title, *title);
        assert_eq!(read.author, *author);
        assert_eq!(read.year, *year);
    }
}
