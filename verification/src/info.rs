//! The three statistics of one file, and how they are gathered from what
//! was read of it.

use crate::error::WcError;
use crate::lines::{count_lines, lemma_line_count_bound, line_count};
use crate::words::{count_words, lemma_word_count_bound, word_count};
use vstd::prelude::*;
use vstd::utf8::encode_utf8;

verus! {

/// The statistics of one file: its size in bytes, and the numbers of lines
/// and words of its text.
#[derive(Clone, Copy, Debug, PartialEq, Eq, Structural)]
pub struct FileInformation {
    /// The size of the file in bytes, as the file system gives it.
    pub bytes: u64,
    /// The number of lines of the text.
    pub lines: u32,
    /// The number of words of the text.
    pub words: u32,
}

impl FileInformation {
    /// Builds the record from its three fields.
    pub fn new(bytes: u64, lines: u32, words: u32) -> (info: Self)
        ensures
            info == (FileInformation { bytes, lines, words }),
    {
        FileInformation { bytes, lines, words }
    }

    /// Builds the record from a triple `(bytes, lines, words)`.
    pub fn from(tuple: (u64, u32, u32)) -> (info: Self)
        ensures
            info == (FileInformation { bytes: tuple.0, lines: tuple.1, words: tuple.2 }),
    {
        let (bytes, lines, words) = tuple;
        FileInformation::new(bytes, lines, words)
    }
}

/// The triple `(bytes, lines, words)` of a file of the given size that holds
/// the given text. The size is taken as reported; the two counts are those of
/// the text, as 32-bit counters.
pub open spec fn statistics(text: Seq<char>, bytes: u64) -> (u64, u32, u32) {
    (
        bytes,
        (line_count(text) % 0x1_0000_0000) as u32,
        (word_count(text) % 0x1_0000_0000) as u32,
    )
}

/// A text has at most as many characters as its UTF-8 encoding has bytes.
pub proof fn lemma_text_len_within_bytes(text: Seq<char>)
    ensures
        text.len() <= encode_utf8(text).len(),
    decreases text.len(),
{
    if text.len() > 0 {
        lemma_text_len_within_bytes(text.drop_first());
    }
}

/// Where the size that was reported is the length of the text in UTF-8,
/// neither the lines nor the words outnumber the bytes.
pub proof fn lemma_counts_within_size(text: Seq<char>, bytes: u64)
    requires
        bytes == encode_utf8(text).len(),
    ensures
        statistics(text, bytes).1 <= bytes,
        statistics(text, bytes).2 <= bytes,
{
    lemma_line_count_bound(text);
    lemma_word_count_bound(text);
    lemma_text_len_within_bytes(text);
}

/// Gathers the statistics of a file from the outcomes of reading its content
/// as text and of asking for its size; each outcome is the value or a
/// description of what went wrong.
///
/// A failed read is reported first, whatever became of the size. With the
/// text read, a missing size is reported. Otherwise the result is the triple
/// `(bytes, lines, words)`.
pub fn get_all_information(
    all_text: Result<String, String>,
    count_bytes: Result<u64, String>,
) -> (result: Result<(u64, u32, u32), WcError>)
    ensures
        match (all_text, count_bytes) {
            (Err(cause), _) => result == Err::<(u64, u32, u32), WcError>(WcError::Read(cause)),
            (Ok(_), Err(cause)) => result == Err::<(u64, u32, u32), WcError>(
                WcError::Metadata(cause),
            ),
            (Ok(text), Ok(bytes)) => result == Ok::<(u64, u32, u32), WcError>(
                statistics(text@, bytes),
            ),
        },
{
    let text = match all_text {
        Ok(text) => text,
        Err(cause) => {
            return Err(WcError::Read(cause));
        },
    };
    let bytes = match count_bytes {
        Ok(bytes) => bytes,
        Err(cause) => {
            return Err(WcError::Metadata(cause));
        },
    };
    let lines: u32 = count_lines(text.as_str());
    let words: u32 = count_words(text.as_str());
    Ok((bytes, lines, words))
}

} // verus!
