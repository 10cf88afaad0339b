use airlogs::datetime::UtcReading;
use airlogs::listing::{
    file_entry, parse_line, parse_listing, parse_size, parse_tokens, split_lines, split_tokens,
};
use airlogs::s3_cli::AWSCliOperations;
use airlogs::text::{chars_of, string_of};
use airlogs::types::{File, FileIndex, Prefix, Timestamp};

fn listed_prefix(name: &str) -> FileIndex {
    FileIndex::Prefix(Prefix { name: name.to_string() })
}

fn listed_file(name: &str, size: u64, secs: i64) -> FileIndex {
    FileIndex::File(File { name: name.to_string(), size, date: Timestamp { secs, nanos: 0 } })
}

fn row_texts(v: &[Vec<char>]) -> Vec<String> {
    v.iter().map(|row| string_of(row)).collect()
}

fn lines_of(text: &str) -> Vec<String> {
    row_texts(&split_lines(&chars_of(text)))
}

fn tokens_of(text: &str) -> Vec<String> {
    row_texts(&split_tokens(&chars_of(text)))
}

#[test]
fn two_tokens_make_a_prefix() {
    assert_eq!(parse_line("PRE 2024-01-01/"), Ok(listed_prefix("2024-01-01/")));
}

#[test]
fn the_prefix_marker_is_not_looked_at() {
    assert_eq!(parse_line("anything name"), Ok(listed_prefix("name")));
    assert_eq!(parse_line("   \t PRE \t  dir/  "), Ok(listed_prefix("dir/")));
}

#[test]
fn four_tokens_make_a_file() {
    assert_eq!(
        parse_line("2024-01-30 12:34:56 1234 a.log.log"),
        Ok(listed_file("a.log.log", 1234, 1706618096))
    );
    assert_eq!(
        parse_line("2023-12-31   23:59:59\t0 b.txt"),
        Ok(listed_file("b.txt", 0, 1704067199))
    );
}

#[test]
fn a_file_before_the_epoch_has_negative_seconds() {
    assert_eq!(parse_line("1969-12-31 23:59:59 7 old"), Ok(listed_file("old", 7, -1)));
}

#[test]
fn a_leap_second_is_kept_in_the_nanoseconds() {
    let entry = parse_line("2016-12-31 23:59:60 1 leap").unwrap();
    assert_eq!(
        entry,
        FileIndex::File(File {
            name: "leap".to_string(),
            size: 1,
            date: Timestamp { secs: 1483228799, nanos: 1_000_000_000 },
        })
    );
}

#[test]
fn the_timestamp_agrees_with_chrono() {
    let expected = chrono::NaiveDate::from_ymd_opt(2024, 1, 30)
        .unwrap()
        .and_hms_opt(12, 34, 56)
        .unwrap()
        .and_utc();
    match parse_line("2024-01-30 12:34:56 1234 a.log.log") {
        Ok(FileIndex::File(f)) => {
            assert_eq!(f.date.secs, expected.timestamp());
            assert_eq!(f.date.nanos, expected.timestamp_subsec_nanos());
        }
        other => panic!("not a file: {:?}", other),
    }
}

#[test]
fn other_token_counts_are_rejected() {
    for line in ["", "   ", "one", "a b c", "a b c d e"] {
        assert_eq!(parse_line(line), Err("Incorrect index detected".to_string()));
    }
}

#[test]
fn a_malformed_date_is_rejected() {
    for line in [
        "2024-13-01 00:00:00 1 x",
        "2024-02-30 00:00:00 1 x",
        "2024-01-01 24:00:00 1 x",
        "yesterday noon 1 x",
        "2024/01/01 00:00:00 1 x",
    ] {
        assert_eq!(parse_line(line), Err("Failed to parse date".to_string()));
    }
}

#[test]
fn a_malformed_size_is_rejected() {
    for line in [
        "2024-01-01 00:00:00 -1 x",
        "2024-01-01 00:00:00 1k x",
        "2024-01-01 00:00:00 18446744073709551616 x",
    ] {
        assert_eq!(parse_line(line), Err("Failed to parse size".to_string()));
    }
}

#[test]
fn the_date_is_judged_before_the_size() {
    assert_eq!(parse_line("nodate notime nosize x"), Err("Failed to parse date".to_string()));
}

#[test]
fn file_entry_reports_each_failure() {
    let at = Timestamp { secs: 5, nanos: 0 };
    let name = || "n".to_string();
    assert_eq!(
        file_entry(name(), Some(1), UtcReading::Malformed),
        Err("Failed to parse date".to_string())
    );
    assert_eq!(
        file_entry(name(), None, UtcReading::Malformed),
        Err("Failed to parse date".to_string())
    );
    assert_eq!(
        file_entry(name(), None, UtcReading::Single(at)),
        Err("Failed to parse size".to_string())
    );
    assert_eq!(
        file_entry(name(), None, UtcReading::Unresolved),
        Err("Failed to parse size".to_string())
    );
    assert_eq!(
        file_entry(name(), None, UtcReading::Ambiguous),
        Err("Failed to parse size".to_string())
    );
    assert_eq!(
        file_entry(name(), Some(1), UtcReading::Unresolved),
        Err("DateTime is None!".to_string())
    );
    assert_eq!(
        file_entry(name(), Some(1), UtcReading::Ambiguous),
        Err("DateTime is ambiguos!".to_string())
    );
    assert_eq!(
        file_entry(name(), Some(9), UtcReading::Single(at)),
        Ok(FileIndex::File(File { name: name(), size: 9, date: at }))
    );
}

#[test]
fn parse_tokens_reads_what_parse_line_reads() {
    let tokens = split_tokens(&chars_of("2024-01-30 12:34:56 1234 a.log.log"));
    assert_eq!(parse_tokens(&tokens), Ok(listed_file("a.log.log", 1234, 1706618096)));
}

#[test]
fn sizes_are_plain_decimal_numbers() {
    let size = |text: &str| parse_size(&chars_of(text));
    assert_eq!(size("0"), Some(0));
    assert_eq!(size("007"), Some(7));
    assert_eq!(size("+5"), Some(5));
    assert_eq!(size("1234567890"), Some(1234567890));
    assert_eq!(size("18446744073709551615"), Some(u64::MAX));
    assert_eq!(size("18446744073709551616"), None);
    assert_eq!(size("99999999999999999999999"), None);
    assert_eq!(size(""), None);
    assert_eq!(size("+"), None);
    assert_eq!(size("++5"), None);
    assert_eq!(size("-0"), None);
    assert_eq!(size("1a"), None);
    assert_eq!(size("1 "), None);
    assert_eq!(size("1_000"), None);
    assert_eq!(size("\u{ff11}"), None);
    assert_eq!(size("\u{661}"), None);
}

#[test]
fn sizes_agree_with_the_standard_parser() {
    for text in [
        "0", "1", "+1", "-1", "", "+", "-", "12345", "0000", "18446744073709551615",
        "18446744073709551616", "184467440737095516150", "1e3", "0x10", " 1", "1\n", "+-1", "١٢",
    ] {
        assert_eq!(parse_size(&chars_of(text)), text.parse::<u64>().ok(), "{:?}", text);
    }
}

#[test]
fn lines_end_at_line_feeds() {
    assert_eq!(lines_of("a\nb\r\nc"), vec!["a", "b", "c"]);
    assert_eq!(lines_of("a\n"), vec!["a"]);
    assert_eq!(lines_of(""), Vec::<String>::new());
    assert_eq!(lines_of("\n"), vec![""]);
    assert_eq!(lines_of("\n\n"), vec!["", ""]);
    assert_eq!(lines_of("baz\r"), vec!["baz\r"]);
    assert_eq!(lines_of("a\r\r\nb"), vec!["a\r", "b"]);
    assert_eq!(lines_of("a\rb\n"), vec!["a\rb"]);
}

#[test]
fn lines_agree_with_the_standard_splitter() {
    for text in [
        "", "\n", "\r\n", "\r", "a", "a\n", "a\r\n", "a\n\nb", "foo\nbar\n\r\nbaz\r",
        "\n\r\n\r", "x\r\ny\rz\n", "PRE a/\nPRE b/\n", "  \n \n",
    ] {
        let expected: Vec<String> = text.lines().map(|l| l.to_string()).collect();
        assert_eq!(lines_of(text), expected, "{:?}", text);
    }
}

#[test]
fn tokens_are_runs_without_whitespace() {
    assert_eq!(tokens_of("PRE dir/"), vec!["PRE", "dir/"]);
    assert_eq!(tokens_of("  a \t b\u{a0}c\u{3000}d  "), vec!["a", "b", "c", "d"]);
    assert_eq!(tokens_of(""), Vec::<String>::new());
    assert_eq!(tokens_of(" \t\r\n"), Vec::<String>::new());
    assert_eq!(tokens_of("one"), vec!["one"]);
}

#[test]
fn tokens_agree_with_the_standard_splitter() {
    for text in [
        "", " ", "a", " a", "a ", "a b", "a  b", "\ta\tb\t", "a\u{2003}b", "a\u{200b}b",
        "2024-01-30 12:34:56 1234 a.log.log", "\u{85}x\u{1680}y", "é ü",
    ] {
        let expected: Vec<String> = text.split_whitespace().map(|t| t.to_string()).collect();
        assert_eq!(tokens_of(text), expected, "{:?}", text);
    }
}

#[test]
fn a_listing_of_two_token_lines_is_all_prefixes() {
    let listing = parse_listing("PRE 2024-01-01/\nPRE 2024-03-05/\r\n   x 2023-12-31/\n");
    assert_eq!(listing, vec![listed_prefix("2024-01-01/"), listed_prefix("2024-03-05/"), listed_prefix("2023-12-31/")]);
}

#[test]
fn a_listing_keeps_the_order_and_drops_noise() {
    let output = "PRE sub/\n\
                  2024-01-30 12:34:56 1234 a.log.log\n\
                  total 3 lines\n\
                  2024-99-30 12:34:56 1 bad-date\n\
                  \n\
                  2024-01-30 12:34:56 many bad-size\n\
                  2023-12-31 23:59:59 0 b.txt\n\
                  PRE other/";
    assert_eq!(
        parse_listing(output),
        vec![
            listed_prefix("sub/"),
            listed_file("a.log.log", 1234, 1706618096),
            listed_file("b.txt", 0, 1704067199),
            listed_prefix("other/"),
        ]
    );
}

#[test]
fn an_empty_listing_is_not_found() {
    for output in ["", "\n\n", "no such thing here\n", "1 2 3"] {
        assert_eq!(
            AWSCliOperations::read_listing("device/", output),
            Err("File or path device/ was not found".to_string())
        );
    }
}

#[test]
fn a_listing_with_one_entry_is_found() {
    assert_eq!(
        AWSCliOperations::read_listing("device/", "noise\nPRE 2024-01-01/\n"),
        Ok(vec![listed_prefix("2024-01-01/")])
    );
}
