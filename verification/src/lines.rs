//! The lines of a history file, from its bytes.

use crate::text::{option_text, texts};
use vstd::prelude::*;
use vstd::slice::slice_subrange;
use vstd::utf8::{decode_utf8, valid_utf8};

verus! {

/// The byte that ends a line.
pub const NEWLINE: u8 = 0x0A;

/// The byte that may stand before the end of a line without being part of it.
pub const CARRIAGE_RETURN: u8 = 0x0D;

/// Where the scan for lines stands: the lines that are complete, and the bytes
/// of the line that is still open.
pub ghost struct LineScan {
    pub lines: Seq<Seq<u8>>,
    pub open: Seq<u8>,
}

/// A line as it ends at a newline: without the carriage return right before
/// the newline, if there is one.
pub open spec fn chomp(line: Seq<u8>) -> Seq<u8> {
    if line.len() > 0 && line.last() == CARRIAGE_RETURN {
        line.drop_last()
    } else {
        line
    }
}

/// The scan after one more byte: a newline completes the open line, any
/// other byte joins it.
pub open spec fn line_step(scan: LineScan, byte: u8) -> LineScan {
    if byte == NEWLINE {
        LineScan { lines: scan.lines.push(chomp(scan.open)), open: Seq::empty() }
    } else {
        LineScan { lines: scan.lines, open: scan.open.push(byte) }
    }
}

/// The scan after all of `bytes`.
pub open spec fn line_scan(bytes: Seq<u8>) -> LineScan
    decreases bytes.len(),
{
    if bytes.len() == 0 {
        LineScan { lines: Seq::empty(), open: Seq::empty() }
    } else {
        line_step(line_scan(bytes.drop_last()), bytes.last())
    }
}

/// The lines of a file: what stands before each newline, and what follows
/// the last one where that is not empty.
pub open spec fn split_lines(bytes: Seq<u8>) -> Seq<Seq<u8>> {
    let scan = line_scan(bytes);
    if scan.open.len() > 0 {
        scan.lines.push(scan.open)
    } else {
        scan.lines
    }
}

/// The text of a line; none where its bytes are not valid UTF-8.
pub open spec fn decode_line(line: Seq<u8>) -> Option<Seq<char>> {
    if valid_utf8(line) {
        Some(decode_utf8(line))
    } else {
        None
    }
}

/// The texts of the lines that are valid UTF-8, in their order; the others
/// are passed over.
pub open spec fn decode_lines(lines: Seq<Seq<u8>>) -> Seq<Seq<char>>
    decreases lines.len(),
{
    if lines.len() == 0 {
        Seq::empty()
    } else {
        match decode_line(lines.last()) {
            Some(text) => decode_lines(lines.drop_last()).push(text),
            None => decode_lines(lines.drop_last()),
        }
    }
}

/// The lines of text that a file of these bytes holds.
pub open spec fn file_lines(bytes: Seq<u8>) -> Seq<Seq<char>> {
    decode_lines(split_lines(bytes))
}

/// `std::str::from_utf8`: the text that the bytes encode where they are
/// valid UTF-8, and none where they are not.
#[verifier::external_body]
pub(crate) fn decode_text(bytes: &[u8]) -> (text: Option<String>)
    ensures
        option_text(text) == decode_line(bytes@),
{
    match std::str::from_utf8(bytes) {
        Ok(text) => Some(text.to_owned()),
        Err(_) => None,
    }
}

/// Decodes the line `line` and lets it join `lines` where it is valid UTF-8.
fn keep_line(lines: &mut Vec<String>, line: &[u8], Ghost(raw): Ghost<Seq<Seq<u8>>>)
    requires
        texts(old(lines)@) == decode_lines(raw),
    ensures
        texts(final(lines)@) == decode_lines(raw.push(line@)),
{
    assert(raw.push(line@).drop_last() =~= raw);
    match decode_text(line) {
        Some(text) => {
            lines.push(text);
        },
        None => {},
    }
}

/// The lines of text that a file of these bytes holds.
pub fn read_lines(bytes: &[u8]) -> (lines: Vec<String>)
    ensures
        texts(lines@) == file_lines(bytes@),
{
    let n = bytes.len();
    let mut lines: Vec<String> = Vec::new();
    let mut start: usize = 0;
    let mut i: usize = 0;
    while i < n
        invariant
            n == bytes@.len(),
            start <= i <= n,
            texts(lines@) == decode_lines(line_scan(bytes@.take(i as int)).lines),
            line_scan(bytes@.take(i as int)).open == bytes@.subrange(start as int, i as int),
        decreases n - i,
    {
        let ghost scan = line_scan(bytes@.take(i as int));
        assert(bytes@.take(i + 1).drop_last() =~= bytes@.take(i as int));
        if bytes[i] == NEWLINE {
            let end = if i > start && bytes[i - 1] == CARRIAGE_RETURN {
                i - 1
            } else {
                i
            };
            proof {
                let open = bytes@.subrange(start as int, i as int);
                if i > start {
                    assert(open.drop_last() =~= bytes@.subrange(start as int, i - 1));
                }
            }
            keep_line(&mut lines, slice_subrange(bytes, start, end), Ghost(scan.lines));
            start = i + 1;
        }
        i += 1;
    }
    assert(bytes@.take(n as int) =~= bytes@);
    if start < n {
        keep_line(
            &mut lines,
            slice_subrange(bytes, start, n),
            Ghost(line_scan(bytes@).lines),
        );
    }
    lines
}

} // verus!
