//! Reading an S-Record image: the lines of the file and the record that each
//! line holds.

use vstd::prelude::*;
use crate::text::{lemma_split_single, split};

verus! {

/// The line feed that ends a line of an image.
pub const LINE_FEED: u8 = 0x0A;

/// The record type of the terminal record, which makes the module branch to
/// the image it was given.
pub const TERMINAL_RECORD: u8 = 7;

/// The lines of `text`. A line ends at a line feed or at the end of the text;
/// a line feed at the very end ends the last line and opens no new one. So a
/// text of one record and its line feed has one line, and an empty text has
/// none.
pub open spec fn lines_of(text: Seq<u8>) -> Seq<Seq<u8>> {
    let pieces = split(text, LINE_FEED);
    if pieces.last().len() == 0 {
        pieces.drop_last()
    } else {
        pieces
    }
}

/// The value of the hexadecimal digit `c`, in either case.
pub open spec fn hex_value(c: u8) -> Option<u8> {
    if 0x30 <= c <= 0x39 {
        Some((c - 0x30) as u8)
    } else if 0x41 <= c <= 0x46 {
        Some((c - 0x41 + 10) as u8)
    } else if 0x61 <= c <= 0x66 {
        Some((c - 0x61 + 10) as u8)
    } else {
        None
    }
}

/// The byte that the two hexadecimal digits `hi` and `lo` spell.
pub open spec fn hex_pair(hi: u8, lo: u8) -> Option<u8> {
    match (hex_value(hi), hex_value(lo)) {
        (Some(h), Some(l)) => Some((h * 16 + l) as u8),
        _ => None,
    }
}

/// The byte spelled by the `j`th pair of digits of `line` after its first
/// two characters.
pub open spec fn pair_at(line: Seq<u8>, j: int) -> Option<u8> {
    hex_pair(line[2 + 2 * j], line[3 + 2 * j])
}

/// The record type of `line`: the value of its second character.
pub open spec fn record_kind(line: Seq<u8>) -> Option<u8> {
    if line.len() >= 2 {
        hex_value(line[1])
    } else {
        None
    }
}

/// The count byte of `line`: the byte spelled by its third and fourth
/// characters.
pub open spec fn record_count(line: Seq<u8>) -> Option<u8> {
    if line.len() >= 4 {
        pair_at(line, 0)
    } else {
        None
    }
}

/// Whether `line` holds a record: a type digit, a count `n`, and after the
/// count `n` more pairs of hexadecimal digits, the record's own checksum
/// being the last of them.
pub open spec fn is_record(line: Seq<u8>) -> bool {
    &&& record_kind(line) is Some
    &&& record_count(line) matches Some(n)
    &&& line.len() >= 4 + 2 * n
    &&& forall|j: int| 0 <= j <= n ==> (#[trigger] pair_at(line, j)) is Some
}

/// The bytes that the record of `line` puts on the wire: the count byte and
/// the `n` bytes after it, unchanged.
pub open spec fn record_data(line: Seq<u8>) -> Seq<u8> {
    Seq::new((record_count(line).unwrap() + 1) as nat, |j: int| pair_at(line, j).unwrap())
}

/// A text has at most one line if and only if no line feed stands before
/// its last byte.
pub proof fn law_one_line_without_line_feed(text: Seq<u8>)
    ensures
        lines_of(text).len() <= 1 <==> forall|i: int|
            0 <= i < text.len() - 1 ==> text[i] != LINE_FEED,
{
    let pieces = split(text, LINE_FEED);
    lemma_split_single(text, LINE_FEED);
    if text.len() == 0 {
    } else {
        let init = text.drop_last();
        lemma_split_single(init, LINE_FEED);
        assert forall|i: int| 0 <= i < init.len() implies init[i] == text[i] by {}
        if text.last() == LINE_FEED {
            assert(pieces.drop_last() =~= split(init, LINE_FEED));
        } else {
            assert(pieces.last().len() > 0);
            if forall|i: int| 0 <= i < text.len() - 1 ==> text[i] != LINE_FEED {
                assert forall|i: int| 0 <= i < text.len() implies text[i] != LINE_FEED by {}
            }
        }
    }
}

/// One record of an image.
#[derive(Debug, PartialEq, Eq)]
pub struct Record {
    /// The record type, 0 to 15.
    pub kind: u8,
    /// The count byte and the bytes that follow it, decoded.
    pub data: Vec<u8>,
}

/// Cuts `text` into its lines.
pub fn split_lines(text: &[u8]) -> (lines: Vec<Vec<u8>>)
    ensures
        lines.deep_view() == lines_of(text@),
{
    let mut done: Vec<Vec<u8>> = Vec::new();
    let mut current: Vec<u8> = Vec::new();
    let mut i: usize = 0;
    assert(done.deep_view().push(current@) =~= split(text@.take(0), LINE_FEED));
    while i < text.len()
        invariant
            i <= text@.len(),
            done.deep_view().push(current@) == split(text@.take(i as int), LINE_FEED),
        decreases text@.len() - i,
    {
        let byte = text[i];
        proof {
            let next = text@.take(i + 1);
            assert(next.drop_last() =~= text@.take(i as int));
            assert(next.last() == byte);
        }
        let ghost before = done.deep_view();
        let ghost open = current@;
        if byte == LINE_FEED {
            assert(current.deep_view() =~= open);
            done.push(current);
            current = Vec::new();
            assert(done.deep_view() =~= before.push(open));
        } else {
            current.push(byte);
            assert(before.push(open).drop_last() =~= before);
        }
        i += 1;
    }
    proof {
        assert(text@.take(i as int) =~= text@);
    }
    let ghost before = done.deep_view();
    let ghost last = current@;
    if current.len() > 0 {
        assert(current.deep_view() =~= last);
        done.push(current);
        assert(done.deep_view() =~= before.push(last));
    } else {
        assert(before.push(last).drop_last() =~= before);
    }
    done
}

/// Reads one hexadecimal digit.
pub fn hex_digit(c: u8) -> (v: Option<u8>)
    ensures
        v == hex_value(c),
{
    if 0x30 <= c && c <= 0x39 {
        Some(c - 0x30)
    } else if 0x41 <= c && c <= 0x46 {
        Some(c - 0x41 + 10)
    } else if 0x61 <= c && c <= 0x66 {
        Some(c - 0x61 + 10)
    } else {
        None
    }
}

/// Reads the byte that two hexadecimal digits spell.
pub fn hex_byte(hi: u8, lo: u8) -> (v: Option<u8>)
    ensures
        v == hex_pair(hi, lo),
{
    match (hex_digit(hi), hex_digit(lo)) {
        (Some(h), Some(l)) => Some(h * 16 + l),
        _ => None,
    }
}

/// Reads the record that `line` holds, if it holds one.
pub fn parse_record(line: &[u8]) -> (record: Option<Record>)
    ensures
        record is Some <==> is_record(line@),
        record matches Some(r) ==> Some(r.kind) == record_kind(line@) && r.data@ == record_data(
            line@,
        ),
{
    if line.len() < 4 {
        return None;
    }
    let kind = match hex_digit(line[1]) {
        Some(k) => k,
        None => {
            return None;
        },
    };
    let count: usize = match hex_byte(line[2], line[3]) {
        Some(n) => n as usize,
        None => {
            assert(pair_at(line@, 0) is None);
            return None;
        },
    };
    assert(pair_at(line@, 0) == Some(count as u8));
    if line.len() < 4 + 2 * count {
        return None;
    }
    let mut data: Vec<u8> = Vec::new();
    let mut j: usize = 0;
    while j <= count
        invariant
            j <= count + 1,
            count <= 255,
            line@.len() >= 4 + 2 * count,
            record_kind(line@) == Some(kind),
            record_count(line@) == Some(count as u8),
            data@.len() == j,
            forall|k: int| 0 <= k < j ==> (#[trigger] pair_at(line@, k)) == Some(data@[k]),
        decreases count + 1 - j,
    {
        match hex_byte(line[2 + 2 * j], line[3 + 2 * j]) {
            Some(b) => {
                data.push(b);
            },
            None => {
                assert(pair_at(line@, j as int) is None);
                return None;
            },
        }
        j += 1;
    }
    assert(data@ =~= record_data(line@));
    Some(Record { kind, data })
}

} // verus!
