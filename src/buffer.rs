//! The byte buffer that one run loads, measures and clears.

use vstd::prelude::*;
use vstd::string::StringSliceAdditionalSpecFns;
use crate::report::{reports, Report};
use crate::stats::{
    count_lines, count_words, find_pattern, newline_count, occurrence_count, word_count,
};

verus! {

/// The literal whose occurrences a run counts.
pub const PATTERN: &'static str = "pattern";

/// The bytes of [`PATTERN`].
pub open spec fn pattern_bytes() -> Seq<u8> {
    seq![112u8, 97u8, 116u8, 116u8, 101u8, 114u8, 110u8]
}

/// The whole contents of one input file, owned by the run that loaded it.
pub struct TextBuffer {
    data: Vec<u8>,
}

impl View for TextBuffer {
    type V = Seq<u8>;

    closed spec fn view(&self) -> Seq<u8> {
        self.data@
    }
}

impl TextBuffer {
    /// An empty buffer, as at the start of a run.
    pub fn new() -> (b: TextBuffer)
        ensures
            b@ == Seq::<u8>::empty(),
    {
        TextBuffer { data: Vec::new() }
    }

    /// A buffer holding `data`.
    pub fn from_bytes(data: Vec<u8>) -> (b: TextBuffer)
        ensures
            b@ == data@,
    {
        TextBuffer { data }
    }

    /// Takes the outcome of reading a file: the bytes read, or `None` when
    /// the read failed. The bytes replace the contents wholesale; a failed
    /// read leaves the buffer as it was. Returns whether bytes were taken.
    pub fn load(&mut self, contents: Option<Vec<u8>>) -> (loaded: bool)
        ensures
            loaded == contents.is_some(),
            loaded ==> final(self)@ == contents.unwrap()@,
            !loaded ==> final(self)@ == old(self)@,
    {
        match contents {
            Some(bytes) => {
                self.data = bytes;
                true
            },
            None => false,
        }
    }

    /// The bytes held.
    pub fn as_bytes(&self) -> (r: &[u8])
        ensures
            r@ == self@,
    {
        self.data.as_slice()
    }

    /// Whether the buffer holds no byte.
    pub fn is_empty(&self) -> (r: bool)
        ensures
            r == (self@.len() == 0),
    {
        self.data.len() == 0
    }

    /// Number of `\n` bytes held.
    pub fn count_lines(&self) -> (n: usize)
        ensures
            n == newline_count(self@),
    {
        count_lines(self.data.as_slice())
    }

    /// Number of words held: maximal runs of non-whitespace bytes.
    pub fn count_words(&self) -> (n: usize)
        ensures
            n == word_count(self@),
    {
        count_words(self.data.as_slice())
    }

    /// Number of (possibly overlapping) occurrences of `pattern` in the
    /// bytes held.
    pub fn find_pattern(&self, pattern: &str) -> (n: usize)
        requires
            pattern.spec_bytes().len() > 0 || self@.len() < usize::MAX,
        ensures
            n == occurrence_count(self@, pattern.spec_bytes()),
    {
        find_pattern(self.data.as_slice(), pattern.as_bytes())
    }

    /// The processing step of a run: nothing for an empty buffer, else the
    /// line count, the word count and the occurrences of [`PATTERN`].
    pub fn process(&self) -> (r: Option<Report>)
        ensures
            r is None <==> self@.len() == 0,
            r matches Some(rep) ==> reports(rep, self@),
    {
        if self.is_empty() {
            return None;
        }
        proof {
            reveal_strlit("pattern");
            assert(PATTERN@ =~= seq!['p', 'a', 't', 't', 'e', 'r', 'n']);
            assert(vstd::string::is_ascii(PATTERN));
            vstd::string::is_ascii_spec_bytes(PATTERN);
            assert(PATTERN.spec_bytes() =~= pattern_bytes());
        }
        Some(
            Report {
                lines: self.count_lines(),
                words: self.count_words(),
                patterns: self.find_pattern(PATTERN),
            },
        )
    }

    /// Empties the buffer at the end of a run.
    pub fn clear(&mut self)
        ensures
            final(self)@ == Seq::<u8>::empty(),
    {
        self.data.clear();
    }
}

} // verus!
