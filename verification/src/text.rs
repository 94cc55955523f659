//! The lines of a file's content.
//!
//! A line ends at a line feed. The line feed is not part of the line, nor is a
//! carriage return directly before it. Content after the last line feed is a
//! line of its own unless it is empty.

use crate::model::texts;
use crate::scan::lemma_last_piece;
use crate::scan::lemma_piece_step;
use crate::scan::lemma_pieces_exist;
use crate::scan::pieces;
use vstd::prelude::*;
use vstd::slice::slice_subrange;
use vstd::utf8::decode_utf8;
use vstd::utf8::valid_utf8;

verus! {

pub const LINE_FEED: u8 = 10;

pub const CARRIAGE_RETURN: u8 = 13;

/// `line` without one carriage return at its end.
pub open spec fn without_return(line: Seq<u8>) -> Seq<u8> {
    if line.len() > 0 && line.last() == CARRIAGE_RETURN {
        line.drop_last()
    } else {
        line
    }
}

/// The lines of `bytes`, still as bytes: the pieces between the line feeds,
/// each without a carriage return at its end. What follows the last line feed
/// is a line as it stands, unless it is empty.
pub open spec fn lines_of(bytes: Seq<u8>) -> Seq<Seq<u8>> {
    let parts = pieces(bytes, LINE_FEED);
    let ended = parts.drop_last().map_values(|line: Seq<u8>| without_return(line));
    if parts.last().len() == 0 {
        ended
    } else {
        ended.push(parts.last())
    }
}

/// Whether every line is valid UTF-8.
pub open spec fn all_text(lines: Seq<Seq<u8>>) -> bool {
    forall|i: int| 0 <= i < lines.len() ==> valid_utf8(#[trigger] lines[i])
}

/// Whether the line at `index` is not valid UTF-8 while all before it are.
pub open spec fn first_undecodable(lines: Seq<Seq<u8>>, index: int) -> bool {
    &&& 0 <= index < lines.len()
    &&& !valid_utf8(lines[index])
    &&& all_text(lines.take(index))
}

/// The lines as text.
pub open spec fn decoded(lines: Seq<Seq<u8>>) -> Seq<Seq<char>> {
    lines.map_values(|line: Seq<u8>| decode_utf8(line))
}

/// The content of a file that holds `lines`: each line followed by one line
/// feed.
pub open spec fn rendered(lines: Seq<Seq<char>>) -> Seq<char> {
    lines.map_values(|line: Seq<char>| line.push('\n')).flatten()
}

/// A line of the input is not valid UTF-8. Lines are counted from 1.
#[derive(Debug, Clone, Copy, PartialEq, Eq)]
pub struct LineDecodeError {
    pub line: usize,
}

/// `std::str::from_utf8`. It returns the text exactly where the bytes are
/// valid UTF-8, and the text is what the bytes encode.
#[verifier::external_body]
fn text_of(bytes: &[u8]) -> (res: Option<&str>)
    ensures
        res is Some <==> valid_utf8(bytes@),
        res matches Some(text) ==> text@ == decode_utf8(bytes@),
{
    std::str::from_utf8(bytes).ok()
}

/// Where the lines before the one at `done` are valid and that one is not, it
/// is the first such line.
proof fn lemma_first_undecodable(all: Seq<Seq<u8>>, done: int)
    requires
        0 <= done < all.len(),
        !valid_utf8(all[done]),
        forall|k: int| 0 <= k < done ==> valid_utf8(#[trigger] all[k]),
    ensures
        first_undecodable(all, done),
        !all_text(all),
{
    assert forall|k: int| 0 <= k < done implies all.take(done)[k] == all[k] by {}
}

/// Splits `bytes` into lines and decodes each. It succeeds exactly where every
/// line is valid UTF-8; otherwise the error gives the number of the first line
/// that is not.
pub fn decode_lines(bytes: &[u8]) -> (res: Result<Vec<String>, LineDecodeError>)
    ensures
        res is Ok <==> all_text(lines_of(bytes@)),
        match res {
            Ok(lines) => texts(lines@) == decoded(lines_of(bytes@)),
            Err(error) => error.line >= 1 && first_undecodable(
                lines_of(bytes@),
                error.line - 1,
            ),
        },
{
    let n = bytes.len();
    let ghost parts = pieces(bytes@, LINE_FEED);
    let ghost all = lines_of(bytes@);
    let mut out: Vec<String> = Vec::new();
    let mut start: usize = 0;
    let mut i: usize = 0;
    proof {
        lemma_pieces_exist(bytes@, LINE_FEED);
        assert(bytes@.skip(0) =~= bytes@);
        assert(parts.skip(0) =~= parts);
    }
    while i < n
        invariant
            n == bytes@.len(),
            parts == pieces(bytes@, LINE_FEED),
            all == lines_of(bytes@),
            start <= i <= n,
            forall|j: int| start <= j < i ==> bytes@[j] != LINE_FEED,
            out@.len() <= start,
            out@.len() < parts.len(),
            parts.skip(out@.len() as int) == pieces(bytes@.skip(start as int), LINE_FEED),
            forall|k: int|
                0 <= k < out@.len() ==> valid_utf8(#[trigger] all[k]) && out@[k]@ == decode_utf8(
                    all[k],
                ),
        decreases n - i,
    {
        if bytes[i] == LINE_FEED {
            let mut end = i;
            if end > start && bytes[end - 1] == CARRIAGE_RETURN {
                end = end - 1;
            }
            let piece = slice_subrange(bytes, start, end);
            proof {
                lemma_piece_step(bytes@, LINE_FEED, out@.len() as int, start as int, i as int);
                assert(piece@ =~= without_return(parts[out@.len() as int]));
                assert(piece@ == all[out@.len() as int]);
            }
            match text_of(piece) {
                Some(text) => {
                    out.push(text.to_owned());
                },
                None => {
                    proof {
                        lemma_first_undecodable(all, out@.len() as int);
                    }
                    return Err(LineDecodeError { line: out.len() + 1 });
                },
            }
            start = i + 1;
        }
        i += 1;
    }
    proof {
        lemma_last_piece(bytes@, LINE_FEED, out@.len() as int, start as int);
    }
    if start < n {
        let piece = slice_subrange(bytes, start, n);
        proof {
            assert(piece@ == all[out@.len() as int]);
        }
        match text_of(piece) {
            Some(text) => {
                out.push(text.to_owned());
            },
            None => {
                proof {
                    lemma_first_undecodable(all, out@.len() as int);
                }
                return Err(LineDecodeError { line: out.len() + 1 });
            },
        }
    }
    proof {
        assert(texts(out@) =~= decoded(all));
    }
    Ok(out)
}

/// Writes `lines` out as one text, each line followed by one line feed,
/// whatever ended the lines of the input.
pub fn render_lines(lines: &Vec<String>) -> (res: String)
    ensures
        res@ == rendered(texts(lines@)),
{
    let ghost ended = texts(lines@).map_values(|line: Seq<char>| line.push('\n'));
    let mut out = String::new();
    let mut i: usize = 0;
    while i < lines.len()
        invariant
            i <= lines.len(),
            ended == texts(lines@).map_values(|line: Seq<char>| line.push('\n')),
            out@ == ended.take(i as int).flatten(),
        decreases lines.len() - i,
    {
        out.append(lines[i].as_str());
        out.append("\n");
        proof {
            reveal_strlit("\n");
            assert(ended[i as int] =~= lines@[i as int]@ + "\n"@);
            assert(ended.take(i + 1) =~= ended.take(i as int).push(ended[i as int]));
            ended.take(i as int).lemma_flatten_push(ended[i as int]);
        }
        i += 1;
    }
    proof {
        assert(ended.take(i as int) =~= ended);
    }
    out
}

} // verus!
