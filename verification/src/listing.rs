//! The listing parser: from the backend's textual directory listing to typed
//! entries.
//!
//! A listing is split into lines, a line into whitespace-separated tokens. Two
//! tokens make a prefix, four make a file; any other line is rejected, and a
//! rejected line is left out of the listing.

use vstd::prelude::*;
use crate::datetime::{UtcReading, read_utc, utc_reading};
use crate::text::{chars_of, copy_range, push_all, rows_of, string_of};
use crate::types::{DirectoryEntry, File, FileIndex, LogResult, Prefix, entries_of};

verus! {

/// Whether `c` has the Unicode property `White_Space`.
pub uninterp spec fn is_whitespace(c: char) -> bool;

/// `char::is_whitespace` tells whether a character has the Unicode property
/// `White_Space`; which characters those are is left to the standard library.
pub assume_specification[ char::is_whitespace ](c: char) -> (r: bool)
    ensures
        r == is_whitespace(c),
;

/// The number of characters before the first line feed of `text`, or the
/// length of `text` if it holds none.
pub open spec fn line_len(text: Seq<char>) -> nat
    decreases text.len(),
{
    if text.len() == 0 || text[0] == '\n' {
        0
    } else {
        1 + line_len(text.skip(1))
    }
}

/// `line` without the carriage return at its end, if it has one.
pub open spec fn without_carriage_return(line: Seq<char>) -> Seq<char> {
    if line.len() > 0 && line.last() == '\r' {
        line.drop_last()
    } else {
        line
    }
}

/// The lines of `text`.
///
/// A line ends at a line feed, or at a carriage return directly followed by
/// one; neither belongs to the line. What follows the last line feed is a line
/// of its own unless it is empty, and keeps a carriage return at its end.
pub open spec fn lines(text: Seq<char>) -> Seq<Seq<char>>
    decreases text.len(),
{
    if text.len() == 0 {
        Seq::empty()
    } else {
        let n = line_len(text);
        if n >= text.len() {
            seq![text]
        } else {
            seq![without_carriage_return(text.take(n as int))] + lines(text.skip(n as int + 1))
        }
    }
}

/// The number of characters before the first whitespace of `text`, or the
/// length of `text` if it holds none.
pub open spec fn token_len(text: Seq<char>) -> nat
    decreases text.len(),
{
    if text.len() == 0 || is_whitespace(text[0]) {
        0
    } else {
        1 + token_len(text.skip(1))
    }
}

/// A token is no longer than the text it starts.
pub proof fn lemma_token_len_bound(text: Seq<char>)
    ensures
        token_len(text) <= text.len(),
    decreases text.len(),
{
    if text.len() != 0 && !is_whitespace(text[0]) {
        lemma_token_len_bound(text.skip(1));
    }
}

/// The tokens of `line`: its maximal runs of characters that are not
/// whitespace, from left to right.
pub open spec fn tokens(line: Seq<char>) -> Seq<Seq<char>>
    decreases line.len(),
    via tokens_decreases
{
    if line.len() == 0 {
        Seq::empty()
    } else if is_whitespace(line[0]) {
        tokens(line.skip(1))
    } else {
        let n = token_len(line);
        seq![line.take(n as int)] + tokens(line.skip(n as int))
    }
}

#[via_fn]
proof fn tokens_decreases(line: Seq<char>) {
    lemma_token_len_bound(line);
}

/// Splits `text` into its lines.
pub fn split_lines(text: &[char]) -> (r: Vec<Vec<char>>)
    ensures
        rows_of(r@) == lines(text@),
{
    let mut out: Vec<Vec<char>> = Vec::new();
    let mut start: usize = 0;
    assert(text@.skip(0) == text@);
    while start < text.len()
        invariant
            start <= text.len(),
            lines(text@) == rows_of(out@) + lines(text@.skip(start as int)),
        decreases text.len() - start,
    {
        let ghost rest = text@.skip(start as int);
        let mut end: usize = start;
        while end < text.len() && text[end] != '\n'
            invariant
                start <= end <= text.len(),
                rest == text@.skip(start as int),
                line_len(rest) == (end - start) + line_len(text@.skip(end as int)),
            decreases text.len() - end,
        {
            assert(text@.skip(end as int).skip(1) == text@.skip(end + 1));
            end += 1;
        }
        if end == text.len() {
            let line = copy_range(text, start, end);
            out.push(line);
            start = end;
        } else {
            let mut stop: usize = end;
            if stop > start && text[stop - 1] == '\r' {
                stop = stop - 1;
            }
            let line = copy_range(text, start, stop);
            assert(line@ == without_carriage_return(rest.take(end - start)));
            out.push(line);
            assert(rest.skip(end - start + 1) == text@.skip(end + 1));
            start = end + 1;
        }
    }
    out
}

/// Splits `line` into its tokens.
pub fn split_tokens(line: &[char]) -> (r: Vec<Vec<char>>)
    ensures
        rows_of(r@) == tokens(line@),
{
    let mut out: Vec<Vec<char>> = Vec::new();
    let mut start: usize = 0;
    assert(line@.skip(0) == line@);
    while start < line.len()
        invariant
            start <= line.len(),
            tokens(line@) == rows_of(out@) + tokens(line@.skip(start as int)),
        decreases line.len() - start,
    {
        let ghost rest = line@.skip(start as int);
        if line[start].is_whitespace() {
            assert(rest.skip(1) == line@.skip(start + 1));
            start += 1;
        } else {
            let mut end: usize = start;
            while end < line.len() && !line[end].is_whitespace()
                invariant
                    start <= end <= line.len(),
                    rest == line@.skip(start as int),
                    token_len(rest) == (end - start) + token_len(line@.skip(end as int)),
                decreases line.len() - end,
            {
                assert(line@.skip(end as int).skip(1) == line@.skip(end + 1));
                end += 1;
            }
            let token = copy_range(line, start, end);
            assert(token@ == rest.take(end - start));
            out.push(token);
            assert(rest.skip(end - start) == line@.skip(end as int));
            start = end;
        }
    }
    out
}

/// Whether `c` is one of the ten decimal digits.
pub open spec fn is_digit(c: char) -> bool {
    '0' as u32 <= c as u32 <= '9' as u32
}

/// The number that the digit `c` stands for.
pub open spec fn digit_value(c: char) -> nat {
    (c as u32 - '0' as u32) as nat
}

/// Whether `text` holds decimal digits only.
pub open spec fn all_digits(text: Seq<char>) -> bool {
    forall|i: int| 0 <= i < text.len() ==> is_digit(#[trigger] text[i])
}

/// The number that the decimal digits `digits` write.
pub open spec fn decimal_value(digits: Seq<char>) -> nat
    decreases digits.len(),
{
    if digits.len() == 0 {
        0
    } else {
        decimal_value(digits.drop_last()) * 10 + digit_value(digits.last())
    }
}

/// `token` without the `+` at its start, if it has one.
pub open spec fn unsigned_part(token: Seq<char>) -> Seq<char> {
    if token.len() > 0 && token[0] == '+' {
        token.skip(1)
    } else {
        token
    }
}

/// The size that `token` writes: an optional `+`, then one or more decimal
/// digits whose number fits in 64 bits. Any other token writes no size.
pub open spec fn size_of(token: Seq<char>) -> Option<u64> {
    let digits = unsigned_part(token);
    if digits.len() > 0 && all_digits(digits) && decimal_value(digits) <= u64::MAX {
        Some(decimal_value(digits) as u64)
    } else {
        None
    }
}

/// Leading digits never write more than the whole.
pub proof fn lemma_decimal_value_grows(digits: Seq<char>, n: int)
    requires
        all_digits(digits),
        0 <= n <= digits.len(),
    ensures
        decimal_value(digits.take(n)) <= decimal_value(digits),
    decreases digits.len() - n,
{
    if n < digits.len() {
        lemma_decimal_value_grows(digits, n + 1);
        assert(digits.take(n + 1).drop_last() == digits.take(n));
    } else {
        assert(digits.take(n) == digits);
    }
}

/// Reads the size that `token` writes.
pub fn parse_size(token: &[char]) -> (r: Option<u64>)
    ensures
        r == size_of(token@),
{
    let first: usize = if token.len() > 0 && token[0] == '+' {
        1
    } else {
        0
    };
    let ghost digits = unsigned_part(token@);
    assert(digits == token@.skip(first as int));
    if first == token.len() {
        return None;
    }
    let mut value: u64 = 0;
    let mut i: usize = first;
    while i < token.len()
        invariant
            first <= i <= token.len(),
            digits == unsigned_part(token@),
            digits == token@.skip(first as int),
            all_digits(digits.take(i - first)),
            value == decimal_value(digits.take(i - first)),
        decreases token.len() - i,
    {
        let c = token[i];
        let ghost seen = digits.take(i - first + 1);
        assert(seen.drop_last() == digits.take(i - first));
        assert(seen.last() == c);
        let code: u32 = c as u32;
        if code < '0' as u32 || code > '9' as u32 {
            return None;
        }
        let digit: u64 = (code - '0' as u32) as u64;
        if value > (u64::MAX - digit) / 10 {
            proof {
                if all_digits(digits) {
                    lemma_decimal_value_grows(digits, i - first + 1);
                }
            }
            return None;
        }
        value = value * 10 + digit;
        assert(all_digits(seen));
        i += 1;
    }
    assert(digits.take(token.len() - first) == digits);
    Some(value)
}

/// The format of a file's modification time: date and time, separated by one
/// space.
pub const TIMESTAMP_FORMAT: &'static str = "%Y-%m-%d %H:%M:%S";

/// The outcome of parsing one line, over the entry's view.
pub open spec fn parsed_of(r: LogResult<FileIndex>) -> Result<DirectoryEntry, Seq<char>> {
    match r {
        Ok(entry) => Ok(entry@),
        Err(message) => Err(message@),
    }
}

/// The file entry made of a name, the size its token wrote and the reading of
/// its timestamp; or why there is none. A malformed timestamp is reported
/// before a missing size, and that before a timestamp that is no single moment.
pub open spec fn file_entry_of(name: Seq<char>, size: Option<u64>, reading: UtcReading) -> Result<
    DirectoryEntry,
    Seq<char>,
> {
    match (reading, size) {
        (UtcReading::Malformed, _) => Err("Failed to parse date"@),
        (_, None) => Err("Failed to parse size"@),
        (UtcReading::Unresolved, _) => Err("DateTime is None!"@),
        (UtcReading::Ambiguous, _) => Err("DateTime is ambiguos!"@),
        (UtcReading::Single(date), Some(size)) => Ok(DirectoryEntry::File { name, size, date }),
    }
}

/// The text that holds a file's modification time: the line's first two
/// tokens, joined by one space.
pub open spec fn timestamp_text(date: Seq<char>, time: Seq<char>) -> Seq<char> {
    date.push(' ') + time
}

/// The entry that a line with the tokens `t` writes, or why it writes none.
pub open spec fn entry_of_tokens(t: Seq<Seq<char>>) -> Result<DirectoryEntry, Seq<char>> {
    if t.len() == 2 {
        Ok(DirectoryEntry::Prefix { name: t[1] })
    } else if t.len() == 4 {
        file_entry_of(
            t[3],
            size_of(t[2]),
            utc_reading(timestamp_text(t[0], t[1]), TIMESTAMP_FORMAT@),
        )
    } else {
        Err("Incorrect index detected"@)
    }
}

/// The entry that `line` writes, or why it writes none.
pub open spec fn entry_of(line: Seq<char>) -> Result<DirectoryEntry, Seq<char>> {
    entry_of_tokens(tokens(line))
}

/// Builds the file entry from its name, its size and the reading of its
/// timestamp.
pub fn file_entry(name: String, size: Option<u64>, reading: UtcReading) -> (r: LogResult<FileIndex>)
    ensures
        parsed_of(r) == file_entry_of(name@, size, reading),
{
    match reading {
        UtcReading::Malformed => Err("Failed to parse date".to_owned()),
        UtcReading::Unresolved => match size {
            None => Err("Failed to parse size".to_owned()),
            Some(_) => Err("DateTime is None!".to_owned()),
        },
        UtcReading::Ambiguous => match size {
            None => Err("Failed to parse size".to_owned()),
            Some(_) => Err("DateTime is ambiguos!".to_owned()),
        },
        UtcReading::Single(date) => match size {
            None => Err("Failed to parse size".to_owned()),
            Some(size) => Ok(FileIndex::File(File { name, size, date })),
        },
    }
}

/// Parses the tokens of one line.
pub fn parse_tokens(t: &Vec<Vec<char>>) -> (r: LogResult<FileIndex>)
    ensures
        parsed_of(r) == entry_of_tokens(rows_of(t@)),
{
    if t.len() == 2 {
        Ok(FileIndex::Prefix(Prefix { name: string_of(t[1].as_slice()) }))
    } else if t.len() == 4 {
        let mut stamp: Vec<char> = Vec::new();
        push_all(&mut stamp, t[0].as_slice());
        stamp.push(' ');
        push_all(&mut stamp, t[1].as_slice());
        let stamp = string_of(stamp.as_slice());
        let reading = read_utc(stamp.as_str(), TIMESTAMP_FORMAT);
        let size = parse_size(t[2].as_slice());
        file_entry(string_of(t[3].as_slice()), size, reading)
    } else {
        Err("Incorrect index detected".to_owned())
    }
}

/// Parses one line of a listing.
pub fn parse_line(l: &str) -> (r: LogResult<FileIndex>)
    ensures
        parsed_of(r) == entry_of(l@),
{
    let line = chars_of(l);
    let t = split_tokens(line.as_slice());
    parse_tokens(&t)
}

/// Whether `line` writes an entry.
pub open spec fn is_entry(line: Seq<char>) -> bool {
    entry_of(line) is Ok
}

/// The entries that `lines` write, in the order of the lines; a line that
/// writes none is left out.
pub open spec fn parsed(lines: Seq<Seq<char>>) -> Seq<DirectoryEntry>
    decreases lines.len(),
{
    if lines.len() == 0 {
        Seq::empty()
    } else {
        let before = parsed(lines.drop_last());
        match entry_of(lines.last()) {
            Ok(entry) => before.push(entry),
            Err(_) => before,
        }
    }
}

/// The entries of a listing, from the backend's output.
pub open spec fn listing_entries(output: Seq<char>) -> Seq<DirectoryEntry> {
    parsed(lines(output))
}

/// Parses every line of `output` and keeps the entries.
pub fn parse_listing(output: &str) -> (r: Vec<FileIndex>)
    ensures
        entries_of(r@) == listing_entries(output@),
{
    let text = chars_of(output);
    let rows = split_lines(text.as_slice());
    let mut out: Vec<FileIndex> = Vec::new();
    let mut i: usize = 0;
    while i < rows.len()
        invariant
            i <= rows.len(),
            rows_of(rows@) == lines(output@),
            entries_of(out@) == parsed(lines(output@).take(i as int)),
        decreases rows.len() - i,
    {
        assert(lines(output@).take(i + 1).drop_last() == lines(output@).take(i as int));
        let t = split_tokens(rows[i].as_slice());
        match parse_tokens(&t) {
            Ok(entry) => {
                out.push(entry);
            },
            Err(_) => {},
        }
        i += 1;
    }
    assert(lines(output@).take(rows.len() as int) == lines(output@));
    out
}

/// Where every line holds exactly two tokens, the listing holds one prefix
/// for each line, named by the line's second token.
pub proof fn lemma_two_tokens_give_prefixes(rows: Seq<Seq<char>>)
    requires
        forall|i: int| 0 <= i < rows.len() ==> (#[trigger] tokens(rows[i])).len() == 2,
    ensures
        parsed(rows).len() == rows.len(),
        forall|i: int|
            0 <= i < rows.len() ==> #[trigger] parsed(rows)[i] == (DirectoryEntry::Prefix {
                name: tokens(rows[i])[1],
            }),
    decreases rows.len(),
{
    if rows.len() > 0 {
        lemma_two_tokens_give_prefixes(rows.drop_last());
    }
}

/// The listing holds the entries of exactly the lines that write one, in the
/// order of those lines.
pub proof fn lemma_listing_keeps_order(rows: Seq<Seq<char>>)
    ensures
        parsed(rows) == rows.filter(|line: Seq<char>| is_entry(line)).map_values(
            |line: Seq<char>| entry_of(line)->Ok_0,
        ),
    decreases rows.len(),
{
    reveal(Seq::filter);
    if rows.len() > 0 {
        lemma_listing_keeps_order(rows.drop_last());
    }
}

} // verus!
