use parallel_file_processor::analysis::{
    analyze_char_frequencies, analyze_text_counts, FileStats,
};
use parallel_file_processor::frequencies::CharFrequencies;
use parallel_file_processor::text::char_is_whitespace;

/// Test the accuracy of line and word counting logic.
#[test]
fn test_text_counts_accuracy() {
    let content = "The quick brown fox jumps.\nOver the lazy dog.\n";
    let (lines, words) = analyze_text_counts(content);

    // Content has 2 lines (plus a trailing newline which the last line includes)
    // Line 1: 5 words
    // Line 2: 4 words
    assert_eq!(lines, 2, "Line count failed.");
    assert_eq!(words, 9, "Word count failed (5 + 4 = 9).");
}

/// Test an empty string and a string with only whitespace.
#[test]
fn test_text_counts_edge_cases() {
    let empty_content = "";
    let (lines_e, words_e) = analyze_text_counts(empty_content);
    assert_eq!(lines_e, 0, "Empty content line count failed.");
    assert_eq!(words_e, 0, "Empty content word count failed.");

    let whitespace_content = "   \n \t \n";
    let (lines_w, words_w) = analyze_text_counts(whitespace_content);
    // lines() iterates over two non-empty logical lines in this case
    assert_eq!(lines_w, 2, "Whitespace line count failed.");
    assert_eq!(words_w, 0, "Whitespace word count failed.");
}

/// Test the accuracy of character frequency mapping.
#[test]
fn test_char_frequency_accuracy() {
    let content = "aaabbc!";
    let freqs = analyze_char_frequencies(content);

    assert_eq!(*freqs.get(&'a').unwrap_or(&0), 3, "Frequency of 'a' incorrect.");
    assert_eq!(*freqs.get(&'b').unwrap_or(&0), 2, "Frequency of 'b' incorrect.");
    assert_eq!(*freqs.get(&'c').unwrap_or(&0), 1, "Frequency of 'c' incorrect.");
    assert_eq!(*freqs.get(&'!').unwrap_or(&0), 1, "Frequency of '!' incorrect.");
    assert_eq!(freqs.get(&'z'), None, "Frequency should not contain 'z'.");
}

/// What std would count, the way the counts are defined: line by line.
fn counts_by_std(content: &str) -> (usize, usize) {
    let mut lines = 0;
    let mut words = 0;
    for line in content.lines() {
        lines += 1;
        words += line.split_whitespace().count();
    }
    (lines, words)
}

#[test]
fn whitespace_is_what_std_calls_whitespace() {
    for code in 0u32..=0x10FFFF {
        if let Some(c) = char::from_u32(code) {
            assert_eq!(char_is_whitespace(c), c.is_whitespace(), "code point {:#x}", code);
        }
    }
}

#[test]
fn a_last_line_without_line_feed_counts() {
    assert_eq!(analyze_text_counts("one"), (1, 1));
    assert_eq!(analyze_text_counts("one\ntwo"), (2, 2));
    assert_eq!(analyze_text_counts("one\ntwo\n"), (2, 2));
    assert_eq!(analyze_text_counts("This is a test file.\nTwo lines, five words."), (2, 9));
}

#[test]
fn empty_lines_are_lines() {
    assert_eq!(analyze_text_counts("\n"), (1, 0));
    assert_eq!(analyze_text_counts("\n\n\n"), (3, 0));
    assert_eq!(analyze_text_counts("a\n\nb"), (3, 2));
}

#[test]
fn carriage_returns_end_no_line_and_start_no_word() {
    assert_eq!(analyze_text_counts("a b\r\nc\r\n"), (2, 3));
    assert_eq!(analyze_text_counts("a\rb"), (1, 2));
    assert_eq!(analyze_text_counts("\r"), (1, 0));
    assert_eq!(analyze_text_counts("x\r\n\r\ny\r"), (3, 2));
}

#[test]
fn unicode_whitespace_parts_words() {
    assert_eq!(analyze_text_counts("a\u{00A0}b\u{2003}c\u{3000}d"), (1, 4));
    assert_eq!(analyze_text_counts("\u{0085}\u{1680}\u{2028}\u{2029}\u{202F}\u{205F}"), (1, 0));
    assert_eq!(analyze_text_counts("z\u{200B}z"), (1, 1));
    assert_eq!(analyze_text_counts("héllo wörld\n"), (1, 2));
}

#[test]
fn counts_agree_with_std_on_many_texts() {
    let pieces = ["", "a", " ", "\n", "\r", "\r\n", "\t", "bc", "\u{2003}", "é", "\n\n", " x "];
    for first in pieces.iter() {
        for second in pieces.iter() {
            for third in pieces.iter() {
                for fourth in pieces.iter() {
                    let text = format!("{}{}{}{}", first, second, third, fourth);
                    assert_eq!(analyze_text_counts(&text), counts_by_std(&text), "{:?}", text);
                }
            }
        }
    }
}

#[test]
fn every_character_is_counted() {
    let freqs = analyze_char_frequencies("a a\n\té!é");
    assert_eq!(freqs.count('a'), 2);
    assert_eq!(freqs.count(' '), 1);
    assert_eq!(freqs.count('\n'), 1);
    assert_eq!(freqs.count('\t'), 1);
    assert_eq!(freqs.count('é'), 2);
    assert_eq!(freqs.count('!'), 1);
    assert_eq!(freqs.count('e'), 0);
    assert_eq!(freqs.get(&'e'), None);
    assert_eq!(freqs.get(&'é'), Some(&2));
}

#[test]
fn empty_text_has_no_frequencies() {
    let freqs = analyze_char_frequencies("");
    assert_eq!(freqs.get(&'a'), None);
    assert_eq!(freqs.count('\0'), 0);
}

#[test]
fn frequencies_add_up_to_the_length() {
    let text = "the quick brown fox jumps over the lazy dog";
    let freqs = analyze_char_frequencies(text);
    let mut total = 0;
    for code in 0u32..128 {
        total += freqs.count(char::from_u32(code).unwrap());
    }
    assert_eq!(total, text.chars().count());
    assert_eq!(freqs.count('o'), 4);
    assert_eq!(freqs.count(' '), 8);
}

#[test]
fn recording_counts_one_at_a_time() {
    let mut freqs = CharFrequencies::new();
    assert_eq!(freqs.get(&'x'), None);
    freqs.record('x');
    assert_eq!(freqs.get(&'x'), Some(&1));
    freqs.record('x');
    freqs.record('y');
    assert_eq!(freqs.count('x'), 2);
    assert_eq!(freqs.count('y'), 1);
    assert_eq!(freqs.count('z'), 0);
}

#[test]
fn fresh_statistics_are_zero() {
    let stats = FileStats::zero();
    assert_eq!(stats.word_count, 0);
    assert_eq!(stats.line_count, 0);
    assert_eq!(stats.size_bytes, 0);
    assert_eq!(stats.char_frequencies.get(&'a'), None);
    let sized = FileStats::sized(4096);
    assert_eq!(sized.size_bytes, 4096);
    assert_eq!(sized.word_count, 0);
    assert_eq!(sized.line_count, 0);
}

#[test]
fn the_entries_are_the_characters_that_occur_each_once() {
    let freqs = analyze_char_frequencies("hello, world");
    let mut entries = freqs.entries();
    entries.sort();
    assert_eq!(
        entries,
        vec![
            (' ', 1),
            (',', 1),
            ('d', 1),
            ('e', 1),
            ('h', 1),
            ('l', 3),
            ('o', 2),
            ('r', 1),
            ('w', 1),
        ]
    );
    assert_eq!(freqs.len(), 9);
    assert!(!freqs.is_empty());
    for (c, n) in freqs.entries() {
        assert_eq!(freqs.get(&c), Some(&n));
    }
}

#[test]
fn counts_of_nothing_have_no_entries() {
    let freqs = CharFrequencies::new();
    assert!(freqs.is_empty());
    assert_eq!(freqs.len(), 0);
    assert!(freqs.entries().is_empty());
    let freqs = analyze_char_frequencies("");
    assert!(freqs.is_empty());
    assert!(freqs.entries().is_empty());
    let mut freqs = CharFrequencies::new();
    freqs.record('\u{10FFFF}');
    freqs.record('\0');
    freqs.record('\0');
    assert_eq!(freqs.len(), 2);
    let mut entries = freqs.entries();
    entries.sort();
    assert_eq!(entries, vec![('\0', 2), ('\u{10FFFF}', 1)]);
}
