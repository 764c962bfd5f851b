//! FASTQ records: four lines each (header, sequence, `+` separator,
//! quality), read from the lines of a file.

use vstd::prelude::*;
use vstd::string::*;
use vstd::utf8::encode_utf8;

verus! {

/// One FASTQ record. The header keeps its leading '@'; the quality scores
/// are the bytes of the quality line.
#[derive(Debug)]
pub struct FastqRecord {
    pub header: String,
    pub sequence: String,
    pub quality: Vec<u8>,
}

#[derive(Debug, Clone, Copy, PartialEq, Eq, Structural)]
pub enum FastqError {
    InvalidQualityScore,
    QualityMismatch,
    MissingHeader,
    MissingSequence,
    MissingQuality,
}

#[derive(Debug)]
pub enum ParseError {
    /// Reading the source failed; the reader's message.
    Io(String),
    Fastq(FastqError),
    InvalidFormat,
}

/// Checks of a record's structure and contents.
pub trait Validate {
    type Error;

    /// Validates the record structure and contents.
    fn validate(&self) -> Result<(), Self::Error>;
}

/// A record as plain values: header, sequence, quality scores.
pub type RecordView = (Seq<char>, Seq<char>, Seq<u8>);

impl FastqRecord {
    pub open spec fn view_of(&self) -> RecordView {
        (self.header@, self.sequence@, self.quality@)
    }
}

/// A quality score in Phred+33, printable ASCII.
pub open spec fn valid_score(q: u8) -> bool {
    33 <= q <= 126
}

/// What validating a record yields: the first failed check, in order.
pub open spec fn validation(r: RecordView) -> Result<(), FastqError> {
    if r.0.len() == 0 {
        Err(FastqError::MissingHeader)
    } else if r.1.len() == 0 {
        Err(FastqError::MissingSequence)
    } else if r.2.len() == 0 {
        Err(FastqError::MissingQuality)
    } else if r.2.len() != encode_utf8(r.1).len() {
        Err(FastqError::QualityMismatch)
    } else if exists|i: int| 0 <= i < r.2.len() && !valid_score(#[trigger] r.2[i]) {
        Err(FastqError::InvalidQualityScore)
    } else {
        Ok(())
    }
}

impl FastqRecord {
    /// Validates the record: header, sequence and quality present, one score
    /// per byte of sequence, every score printable ASCII.
    pub fn check(&self) -> (r: Result<(), FastqError>)
        ensures
            r == validation(self.view_of()),
    {
        if self.header.as_str().is_empty() {
            return Err(FastqError::MissingHeader);
        }
        if self.sequence.as_str().is_empty() {
            return Err(FastqError::MissingSequence);
        }
        if self.quality.len() == 0 {
            return Err(FastqError::MissingQuality);
        }
        if self.quality.len() != self.sequence.as_str().as_bytes().len() {
            return Err(FastqError::QualityMismatch);
        }
        let mut i: usize = 0;
        while i < self.quality.len()
            invariant
                i <= self.quality@.len(),
                self.header@.len() > 0,
                self.sequence@.len() > 0,
                self.quality@.len() > 0,
                self.quality@.len() == encode_utf8(self.sequence@).len(),
                forall|k: int| 0 <= k < i ==> valid_score(#[trigger] self.quality@[k]),
            decreases self.quality@.len() - i,
        {
            let q = self.quality[i];
            if q < 33 || q > 126 {
                assert(!valid_score(self.quality@[i as int]));
                return Err(FastqError::InvalidQualityScore);
            }
            i = i + 1;
        }
        assert(!exists|k: int| 0 <= k < self.quality@.len() && !valid_score(#[trigger] self.quality@[k]));
        Ok(())
    }
}

impl Validate for FastqRecord {
    type Error = FastqError;

    fn validate(&self) -> Result<(), FastqError> {
        self.check()
    }
}

/// The characters that Unicode calls white space.
pub open spec fn is_ws(c: char) -> bool {
    ('\u{9}' <= c <= '\u{d}') || c == ' ' || c == '\u{85}' || c == '\u{a0}' || c == '\u{1680}'
        || ('\u{2000}' <= c <= '\u{200a}') || c == '\u{2028}' || c == '\u{2029}' || c
        == '\u{202f}' || c == '\u{205f}' || c == '\u{3000}'
}

fn char_is_ws(c: char) -> (r: bool)
    ensures
        r == is_ws(c),
{
    ('\u{9}' <= c && c <= '\u{d}') || c == ' ' || c == '\u{85}' || c == '\u{a0}' || c
        == '\u{1680}' || ('\u{2000}' <= c && c <= '\u{200a}') || c == '\u{2028}' || c
        == '\u{2029}' || c == '\u{202f}' || c == '\u{205f}' || c == '\u{3000}'
}

pub open spec fn trim_start(s: Seq<char>) -> Seq<char>
    decreases s.len(),
{
    if s.len() > 0 && is_ws(s[0]) {
        trim_start(s.drop_first())
    } else {
        s
    }
}

pub open spec fn trim_end(s: Seq<char>) -> Seq<char>
    decreases s.len(),
{
    if s.len() > 0 && is_ws(s.last()) {
        trim_end(s.drop_last())
    } else {
        s
    }
}

/// A line without white space at either end.
pub open spec fn trimmed(s: Seq<char>) -> Seq<char> {
    trim_end(trim_start(s))
}

/// `s` without white space at either end.
pub fn trim_line(s: &str) -> (r: String)
    ensures
        r@ == trimmed(s@),
{
    let n = s.unicode_len();
    let mut i: usize = 0;
    assert(s@.subrange(0, n as int) =~= s@);
    while i < n && char_is_ws(s.get_char(i))
        invariant
            n == s@.len(),
            i <= n,
            trim_start(s@) == trim_start(s@.subrange(i as int, n as int)),
        decreases n - i,
    {
        assert(s@.subrange(i as int, n as int).drop_first() =~= s@.subrange(i + 1, n as int));
        i = i + 1;
    }
    assert(trim_start(s@) == s@.subrange(i as int, n as int));
    let mut j: usize = n;
    while j > i && char_is_ws(s.get_char(j - 1))
        invariant
            n == s@.len(),
            i <= j <= n,
            trimmed(s@) == trim_end(s@.subrange(i as int, j as int)),
        decreases j,
    {
        assert(s@.subrange(i as int, j as int).drop_last() =~= s@.subrange(i as int, j - 1));
        j = j - 1;
    }
    String::from_str(s.substring_char(i, j))
}

pub open spec fn starts_with(s: Seq<char>, c: char) -> bool {
    s.len() > 0 && s[0] == c
}

/// The records of a sequence of lines, or the first structural error.
pub open spec fn records_of(ls: Seq<Seq<char>>) -> Result<Seq<RecordView>, FastqError>
    decreases ls.len(),
{
    if ls.len() == 0 {
        Ok(Seq::empty())
    } else if !starts_with(trimmed(ls[0]), '@') {
        Err(FastqError::MissingHeader)
    } else if ls.len() < 2 {
        Err(FastqError::MissingSequence)
    } else if ls.len() < 4 || !starts_with(trimmed(ls[2]), '+') {
        Err(FastqError::MissingQuality)
    } else {
        match records_of(ls.skip(4)) {
            Ok(rest) => Ok(
                seq![(trimmed(ls[0]), trimmed(ls[1]), encode_utf8(trimmed(ls[3])))] + rest,
            ),
            Err(e) => Err(e),
        }
    }
}

/// `done` followed by whatever `rest` holds.
pub open spec fn prepend(done: Seq<RecordView>, rest: Result<Seq<RecordView>, FastqError>) -> Result<
    Seq<RecordView>,
    FastqError,
> {
    match rest {
        Ok(rs) => Ok(done + rs),
        Err(e) => Err(e),
    }
}

/// Reads FASTQ records from the lines of a source.
pub struct FastqReader {
    lines: Vec<String>,
    next: usize,
}

impl FastqReader {
    /// The lines not read yet.
    pub closed spec fn remaining(&self) -> Seq<Seq<char>> {
        self.lines@.subrange(self.next as int, self.lines@.len() as int).map_values(
            |l: String| l@,
        )
    }

    pub closed spec fn wf(&self) -> bool {
        self.next <= self.lines@.len()
    }

    /// A reader over the lines of a source, each without its line break.
    pub fn new(lines: Vec<String>) -> (r: Self)
        ensures
            r.wf(),
            r.remaining() == lines@.map_values(|l: String| l@),
    {
        let r = FastqReader { lines, next: 0 };
        assert(r.lines@.subrange(0, r.lines@.len() as int) =~= r.lines@);
        r
    }

    /// The next line, trimmed; `None` at the end.
    fn read_next_line(&mut self) -> (r: Option<String>)
        requires
            old(self).wf(),
        ensures
            final(self).wf(),
            old(self).remaining().len() == 0 ==> r is None && final(self).remaining()
                == old(self).remaining(),
            old(self).remaining().len() > 0 ==> r is Some && r.unwrap()@ == trimmed(
                old(self).remaining()[0],
            ) && final(self).remaining() == old(self).remaining().drop_first(),
    {
        if self.next >= self.lines.len() {
            return None;
        }
        let line = trim_line(self.lines[self.next].as_str());
        self.next = self.next + 1;
        assert(self.remaining() =~= old(self).remaining().drop_first());
        Some(line)
    }

    /// Collects all remaining records: four lines each, the header starting
    /// with '@' and the third line with '+'.
    pub fn collect_records(&mut self) -> (r: Result<Vec<FastqRecord>, ParseError>)
        requires
            old(self).wf(),
        ensures
            final(self).wf(),
            match (r, records_of(old(self).remaining())) {
                (Ok(v), Ok(rs)) => v@.len() == rs.len() && forall|i: int|
                    0 <= i < rs.len() ==> (#[trigger] v@[i]).view_of() == rs[i],
                (Err(ParseError::Fastq(e)), Err(e2)) => e == e2,
                _ => false,
            },
    {
        let ghost start = self.remaining();
        let mut records: Vec<FastqRecord> = Vec::new();
        loop
            invariant
                self.wf(),
                start == old(self).remaining(),
                records_of(start) == prepend(
                    records@.map_values(|r: FastqRecord| r.view_of()),
                    records_of(self.remaining()),
                ),
            ensures
                self.wf(),
                records_of(start) == Ok::<Seq<RecordView>, FastqError>(
                    records@.map_values(|r: FastqRecord| r.view_of()),
                ),
            decreases self.remaining().len(),
        {
            let ghost ls = self.remaining();
            let ghost done = records@.map_values(|r: FastqRecord| r.view_of());
            let header = match self.read_next_line() {
                Some(line) => {
                    if line.as_str().is_empty() || line.as_str().get_char(0) != '@' {
                        assert(records_of(ls) == Err::<Seq<RecordView>, FastqError>(
                            FastqError::MissingHeader,
                        ));
                        return Err(ParseError::Fastq(FastqError::MissingHeader));
                    }
                    line
                },
                None => {
                    assert(done + Seq::<RecordView>::empty() =~= done);
                    break;
                },
            };
            assert(starts_with(trimmed(ls[0]), '@'));
            let sequence = match self.read_next_line() {
                Some(line) => line,
                None => {
                    assert(records_of(ls) == Err::<Seq<RecordView>, FastqError>(
                        FastqError::MissingSequence,
                    ));
                    return Err(ParseError::Fastq(FastqError::MissingSequence));
                },
            };
            match self.read_next_line() {
                Some(line) => {
                    if line.as_str().is_empty() || line.as_str().get_char(0) != '+' {
                        assert(records_of(ls) == Err::<Seq<RecordView>, FastqError>(
                            FastqError::MissingQuality,
                        ));
                        return Err(ParseError::Fastq(FastqError::MissingQuality));
                    }
                },
                None => {
                    assert(records_of(ls) == Err::<Seq<RecordView>, FastqError>(
                        FastqError::MissingQuality,
                    ));
                    return Err(ParseError::Fastq(FastqError::MissingQuality));
                },
            }
            let quality_line = match self.read_next_line() {
                Some(line) => line,
                None => {
                    assert(records_of(ls) == Err::<Seq<RecordView>, FastqError>(
                        FastqError::MissingQuality,
                    ));
                    return Err(ParseError::Fastq(FastqError::MissingQuality));
                },
            };
            let quality = quality_line.as_str().as_bytes_vec();
            let record = FastqRecord { header, sequence, quality };
            let ghost rv = record.view_of();
            records.push(record);
            proof {
                assert(self.remaining() =~= ls.skip(4));
                assert(records@.map_values(|r: FastqRecord| r.view_of()) =~= done.push(rv));
                match records_of(ls.skip(4)) {
                    Ok(rest) => {
                        assert(done + (seq![rv] + rest) =~= done.push(rv) + rest);
                    },
                    Err(_) => {},
                }
            }
        }
        Ok(records)
    }
}

} // verus!
