//! From the bytes of a compressed variant file to its lines, and on to its
//! score.

use crate::chromosome::line_texts;
use crate::score::{score_lines, ScoreReport};
use crate::text::split_on;
use crate::weights::WeightTable;
use flate2::read::MultiGzDecoder;
use std::io::Read;
use vstd::prelude::*;
use vstd::slice::{slice_subrange, slice_to_vec};
use vstd::utf8::{decode_utf8, valid_utf8};

verus! {

/// The byte that ends a line.
pub const NEWLINE: u8 = 10;

/// The byte that may stand before the end of a line.
pub const CARRIAGE_RETURN: u8 = 13;

/// Why the bytes of a file could not be read as lines.
#[derive(Clone, Copy, Debug, PartialEq, Eq, Structural)]
pub enum InputError {
    /// The bytes are not a well-formed gzip stream.
    Corrupt,
    /// A line of the decompressed content is not UTF-8 text.
    NotText,
}

/// What a gzip stream decompresses to: the content of all its members, one
/// after the other, or nothing where the stream is not well-formed.
pub uninterp spec fn gzip_payload(data: Seq<u8>) -> Option<Seq<u8>>;

/// Decompresses a gzip stream held in memory.
///
/// Trusted: the body reads a flate2 `MultiGzDecoder` over `data` to its end.
/// Nothing is claimed of the content but that it depends on the bytes of
/// `data` alone, under the name [`gzip_payload`]; an error of the decoder is
/// reported as `None`.
#[verifier::external_body]
fn gunzip(data: &[u8]) -> (payload: Option<Vec<u8>>)
    ensures
        match payload {
            Some(bytes) => gzip_payload(data@) == Some(bytes@),
            None => gzip_payload(data@) is None,
        },
{
    let mut bytes: Vec<u8> = Vec::new();
    match MultiGzDecoder::new(data).read_to_end(&mut bytes) {
        Ok(_) => Some(bytes),
        Err(_) => None,
    }
}

/// Turns bytes into text.
///
/// Trusted: the body calls `String::from_utf8`, which succeeds exactly on
/// well-formed UTF-8 and then holds the characters that the bytes encode.
#[verifier::external_body]
fn text_of(bytes: Vec<u8>) -> (text: Option<String>)
    ensures
        match text {
            Some(s) => valid_utf8(bytes@) && s@ == decode_utf8(bytes@),
            None => !valid_utf8(bytes@),
        },
{
    String::from_utf8(bytes).ok()
}

/// The pieces of `bytes` between its newlines.
pub open spec fn pieces(bytes: Seq<u8>) -> Seq<Seq<u8>> {
    split_on(bytes, NEWLINE)
}

/// A piece without the carriage return at its end, if it has one.
pub open spec fn without_return(piece: Seq<u8>) -> Seq<u8> {
    if piece.len() > 0 && piece.last() == CARRIAGE_RETURN {
        piece.drop_last()
    } else {
        piece
    }
}

/// The number of lines of `bytes`: one per newline, and one more where bytes
/// follow the last newline.
pub open spec fn line_count(bytes: Seq<u8>) -> nat {
    let parts = pieces(bytes);
    if parts.last().len() > 0 {
        parts.len()
    } else {
        (parts.len() - 1) as nat
    }
}

/// The lines of `bytes`. A line that a newline ends is the piece before the
/// newline, without one carriage return at its end; what follows the last
/// newline is a line as it stands, unless it is empty.
pub open spec fn byte_lines(bytes: Seq<u8>) -> Seq<Seq<u8>> {
    let parts = pieces(bytes);
    Seq::new(
        line_count(bytes),
        |i: int|
            if i < parts.len() - 1 {
                without_return(parts[i])
            } else {
                parts[i]
            },
    )
}

/// The lines of `bytes` as text, where every line is well-formed UTF-8.
pub open spec fn text_lines(bytes: Seq<u8>) -> Option<Seq<Seq<char>>> {
    let lines = byte_lines(bytes);
    if forall|i: int| 0 <= i < lines.len() ==> valid_utf8(#[trigger] lines[i]) {
        Some(Seq::new(lines.len(), |i: int| decode_utf8(lines[i])))
    } else {
        None
    }
}

/// Finds where each piece of `bytes` starts and ends.
pub fn split_pieces(bytes: &[u8]) -> (bounds: Vec<(usize, usize)>)
    ensures
        bounds@.len() == pieces(bytes@).len(),
        bounds@.len() >= 1,
        forall|i: int|
            0 <= i < bounds@.len() ==> {
                &&& (#[trigger] bounds@[i]).0 <= bounds@[i].1 <= bytes@.len()
                &&& bytes@.subrange(bounds@[i].0 as int, bounds@[i].1 as int) == pieces(bytes@)[i]
            },
{
    let mut bounds: Vec<(usize, usize)> = Vec::new();
    let mut start: usize = 0;
    let mut i: usize = 0;
    proof {
        assert(bytes@.take(0) =~= Seq::<u8>::empty());
        assert(bytes@.subrange(0, 0) =~= Seq::<u8>::empty());
    }
    while i < bytes.len()
        invariant
            start <= i <= bytes@.len(),
            bounds@.len() + 1 == pieces(bytes@.take(i as int)).len(),
            bytes@.subrange(start as int, i as int) == pieces(bytes@.take(i as int)).last(),
            forall|j: int|
                0 <= j < bounds@.len() ==> {
                    &&& (#[trigger] bounds@[j]).0 <= bounds@[j].1 <= bytes@.len()
                    &&& bytes@.subrange(bounds@[j].0 as int, bounds@[j].1 as int) == pieces(
                        bytes@.take(i as int),
                    )[j]
                },
        decreases bytes@.len() - i,
    {
        let b = bytes[i];
        proof {
            assert(bytes@.take(i + 1).drop_last() =~= bytes@.take(i as int));
            assert(bytes@.take(i + 1).last() == b);
        }
        if b == NEWLINE {
            bounds.push((start, i));
            start = i + 1;
            proof {
                assert(bytes@.subrange(start as int, i + 1) =~= Seq::<u8>::empty());
            }
        } else {
            proof {
                assert(bytes@.subrange(start as int, i + 1) =~= bytes@.subrange(
                    start as int,
                    i as int,
                ).push(b));
            }
        }
        i = i + 1;
    }
    proof {
        assert(bytes@.take(i as int) =~= bytes@);
    }
    bounds.push((start, i));
    bounds
}

/// Splits decompressed content into lines of text.
pub fn read_lines(bytes: &[u8]) -> (lines: Result<Vec<String>, InputError>)
    ensures
        match lines {
            Ok(found) => text_lines(bytes@) == Some(line_texts(found@)),
            Err(e) => e == InputError::NotText && text_lines(bytes@) is None,
        },
{
    let bounds = split_pieces(bytes);
    let last = bounds.len() - 1;
    let count: usize = if bounds[last].0 < bounds[last].1 {
        bounds.len()
    } else {
        last
    };
    let ghost wanted = byte_lines(bytes@);
    assert(wanted.len() == count);
    let mut lines: Vec<String> = Vec::new();
    let mut i: usize = 0;
    while i < count
        invariant
            i <= count <= bounds@.len(),
            last == bounds@.len() - 1,
            wanted == byte_lines(bytes@),
            wanted.len() == count,
            bounds@.len() == pieces(bytes@).len(),
            forall|k: int|
                0 <= k < bounds@.len() ==> {
                    &&& (#[trigger] bounds@[k]).0 <= bounds@[k].1 <= bytes@.len()
                    &&& bytes@.subrange(bounds@[k].0 as int, bounds@[k].1 as int) == pieces(
                        bytes@,
                    )[k]
                },
            lines@.len() == i,
            forall|k: int|
                0 <= k < i ==> valid_utf8(#[trigger] wanted[k]) && lines@[k]@ == decode_utf8(
                    wanted[k],
                ),
        decreases count - i,
    {
        let at = bounds[i];
        let piece = slice_subrange(bytes, at.0, at.1);
        let line = if i < last && piece.len() > 0 && piece[piece.len() - 1] == CARRIAGE_RETURN {
            proof {
                assert(piece@.subrange(0, piece@.len() - 1) =~= piece@.drop_last());
            }
            slice_subrange(piece, 0, piece.len() - 1)
        } else {
            piece
        };
        assert(line@ == wanted[i as int]);
        match text_of(slice_to_vec(line)) {
            None => {
                return Err(InputError::NotText);
            },
            Some(text) => {
                lines.push(text);
            },
        }
        i = i + 1;
    }
    proof {
        assert(line_texts(lines@) =~= text_lines(bytes@)->0);
    }
    Ok(lines)
}

/// Scores the decompressed content of a variant file.
///
/// Fails where a line of the content is not text.
pub fn score_text(bytes: &[u8], effect_weights: &WeightTable) -> (report: Result<
    ScoreReport,
    InputError,
>)
    ensures
        match report {
            Ok(r) => text_lines(bytes@) is Some && r.is_score_of(
                text_lines(bytes@)->0,
                effect_weights@,
            ),
            Err(e) => e == InputError::NotText && text_lines(bytes@) is None,
        },
{
    match read_lines(bytes) {
        Err(e) => Err(e),
        Ok(lines) => Ok(score_lines(lines.as_slice(), effect_weights)),
    }
}

/// Scores a gzip-compressed variant file held in memory.
///
/// Fails with [`InputError::Corrupt`] where the bytes do not decompress, and
/// with [`InputError::NotText`] where a line of the content is not text; no
/// partial result is given.
pub fn score_compressed(data: &[u8], effect_weights: &WeightTable) -> (report: Result<
    ScoreReport,
    InputError,
>)
    ensures
        match report {
            Ok(r) => {
                &&& gzip_payload(data@) is Some
                &&& text_lines(gzip_payload(data@)->0) is Some
                &&& r.is_score_of(text_lines(gzip_payload(data@)->0)->0, effect_weights@)
            },
            Err(InputError::Corrupt) => gzip_payload(data@) is None,
            Err(InputError::NotText) => {
                &&& gzip_payload(data@) is Some
                &&& text_lines(gzip_payload(data@)->0) is None
            },
        },
{
    match gunzip(data) {
        None => Err(InputError::Corrupt),
        Some(bytes) => score_text(bytes.as_slice(), effect_weights),
    }
}

} // verus!
