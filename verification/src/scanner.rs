//! Streaming line scanner for one object's byte stream.
//!
//! The scanner consumes the (already decompressed) bytes of one object in
//! chunks of any size, splits them into lines on the line-feed byte, decodes
//! each line leniently, evaluates the match predicate, and remembers whether a
//! NUL byte was ever seen. The outcome it reports is a function of the
//! concatenation of the chunks alone, so feeding it a decompressed stream
//! chunk by chunk gives the same result as scanning the equivalent plain
//! bytes whole.

use vstd::prelude::*;

use crate::matching::line_matches;
use crate::matching::spec_line_matches;

verus! {

/// What `String::from_utf8_lossy` returns: the lenient decoding of the
/// bytes, a function of the bytes alone.
pub uninterp spec fn decoded_of(bytes: Seq<u8>) -> Seq<char>;

/// Relies on `String::from_utf8_lossy`: a lenient decoding that never fails,
/// depends on the bytes alone, leaves valid UTF-8 unchanged, and turns an
/// empty slice into an empty string.
#[verifier::external_body]
pub fn decode_lossy(bytes: &[u8]) -> (r: String)
    ensures
        r@ == decoded_of(bytes@),
        bytes@.len() == 0 ==> r@.len() == 0,
        vstd::utf8::valid_utf8(bytes@) ==> vstd::utf8::encode_utf8(r@) == bytes@,
{
    String::from_utf8_lossy(bytes).into_owned()
}

/// A byte stream split into its complete lines and the unterminated tail.
pub ghost struct SplitState {
    /// The lines closed by a line feed, in order, without their terminators.
    pub complete: Seq<Seq<u8>>,
    /// Bytes after the last line feed.
    pub pending: Seq<u8>,
}

/// Splits a byte stream on the line-feed byte.
pub open spec fn scan_split(bytes: Seq<u8>) -> SplitState
    decreases bytes.len(),
{
    if bytes.len() == 0 {
        SplitState { complete: Seq::empty(), pending: Seq::empty() }
    } else {
        let prev = scan_split(bytes.drop_last());
        if bytes.last() == 10 {
            SplitState { complete: prev.complete.push(prev.pending), pending: Seq::empty() }
        } else {
            SplitState { complete: prev.complete, pending: prev.pending.push(bytes.last()) }
        }
    }
}

/// All lines of a stream: the complete lines, and the unterminated final
/// line if there is one.
pub open spec fn all_lines(bytes: Seq<u8>) -> Seq<Seq<u8>> {
    let sp = scan_split(bytes);
    if sp.pending.len() > 0 {
        sp.complete.push(sp.pending)
    } else {
        sp.complete
    }
}

/// The stream contains a NUL byte.
pub open spec fn has_nul(bytes: Seq<u8>) -> bool {
    exists|i: int| 0 <= i < bytes.len() && bytes[i] == 0
}

/// The match predicate applied to one undecoded line.
pub open spec fn line_match_bytes(line: Seq<u8>, pattern: Seq<char>, case_sensitive: bool) -> bool {
    spec_line_matches(decoded_of(line), pattern, case_sensitive)
}

/// One matching line: its 1-based position among all lines, and its decoded
/// text.
pub ghost struct SpecMatch {
    /// 1-based line number within the object.
    pub line: nat,
    /// The decoded text of the line.
    pub text: Seq<char>,
}

/// The matches among `lines`, in line order, each carrying its 1-based line
/// number.
pub open spec fn matches_of(lines: Seq<Seq<u8>>, pattern: Seq<char>, case_sensitive: bool) -> Seq<
    SpecMatch,
>
    decreases lines.len(),
{
    if lines.len() == 0 {
        Seq::empty()
    } else {
        let prev = matches_of(lines.drop_last(), pattern, case_sensitive);
        if line_match_bytes(lines.last(), pattern, case_sensitive) {
            prev.push(SpecMatch { line: lines.len(), text: decoded_of(lines.last()) })
        } else {
            prev
        }
    }
}

/// The outcome of handling one object, in spec form.
pub ghost enum SpecOutcome {
    /// The ordered matching lines; empty when nothing matched, and also when
    /// the object was binary but no line would have matched.
    Matches { matches: Seq<SpecMatch> },
    /// The object contained a NUL byte and at least one line would have
    /// matched; no line content is reported.
    BinaryNotice,
    /// Fetching or decoding the object failed with this message.
    Error { message: Seq<char> },
    /// The key named a container marker and was never scanned.
    SkippedAsContainer,
}

/// What scanning a whole byte stream reports: the ordered matches, except
/// that a stream with a NUL byte reports a single binary notice when any
/// line would have matched, and an empty match list otherwise.
pub open spec fn spec_scan_outcome(bytes: Seq<u8>, pattern: Seq<char>, case_sensitive: bool) -> SpecOutcome {
    let ms = matches_of(all_lines(bytes), pattern, case_sensitive);
    if has_nul(bytes) {
        if ms.len() > 0 {
            SpecOutcome::BinaryNotice
        } else {
            SpecOutcome::Matches { matches: Seq::empty() }
        }
    } else {
        SpecOutcome::Matches { matches: ms }
    }
}

/// One matching line as reported to the caller.
#[derive(Debug)]
pub struct LineMatch {
    /// 1-based line number within the object.
    pub line_number: u64,
    /// The decoded text of the line.
    pub text: String,
}

impl View for LineMatch {
    type V = SpecMatch;

    open spec fn view(&self) -> SpecMatch {
        SpecMatch { line: self.line_number as nat, text: self.text@ }
    }
}

/// The matches of a vector, in spec form.
pub open spec fn abs_matches(ms: Seq<LineMatch>) -> Seq<SpecMatch> {
    ms.map_values(|m: LineMatch| m@)
}

/// The outcome of handling one object.
#[derive(Debug)]
pub enum ObjectOutcome {
    /// The ordered matching lines.
    Matches {
        /// The matches, in ascending line order.
        matches: Vec<LineMatch>,
    },
    /// The object contained a NUL byte and at least one line would have
    /// matched.
    BinaryNotice,
    /// Fetching or decoding the object failed.
    Error {
        /// The failure message, as reported by the storage backend.
        message: String,
    },
    /// The key named a container marker.
    SkippedAsContainer,
}

impl View for ObjectOutcome {
    type V = SpecOutcome;

    open spec fn view(&self) -> SpecOutcome {
        match self {
            ObjectOutcome::Matches { matches } => SpecOutcome::Matches {
                matches: abs_matches(matches@),
            },
            ObjectOutcome::BinaryNotice => SpecOutcome::BinaryNotice,
            ObjectOutcome::Error { message } => SpecOutcome::Error { message: message@ },
            ObjectOutcome::SkippedAsContainer => SpecOutcome::SkippedAsContainer,
        }
    }
}

/// A line count plus a pending line never outnumber the bytes they came
/// from: every complete line consumed at least its terminator.
pub proof fn lemma_scan_split_size(bytes: Seq<u8>)
    ensures
        scan_split(bytes).complete.len() + scan_split(bytes).pending.len() <= bytes.len(),
    decreases bytes.len(),
{
    if bytes.len() > 0 {
        lemma_scan_split_size(bytes.drop_last());
    }
}

/// How the split evolves when one more byte arrives.
pub proof fn lemma_scan_split_push(bytes: Seq<u8>, b: u8)
    ensures
        scan_split(bytes.push(b)) == ({
            let prev = scan_split(bytes);
            if b == 10 {
                SplitState { complete: prev.complete.push(prev.pending), pending: Seq::empty() }
            } else {
                SplitState { complete: prev.complete, pending: prev.pending.push(b) }
            }
        }),
{
    assert(bytes.push(b).drop_last() =~= bytes);
    assert(bytes.push(b).last() == b);
}

/// How NUL detection evolves when one more byte arrives.
pub proof fn lemma_has_nul_push(bytes: Seq<u8>, b: u8)
    ensures
        has_nul(bytes.push(b)) == (has_nul(bytes) || b == 0),
{
    let s = bytes.push(b);
    if has_nul(bytes) {
        let i = choose|i: int| 0 <= i < bytes.len() && bytes[i] == 0;
        assert(s[i] == 0);
    }
    if b == 0 {
        assert(s[bytes.len() as int] == 0);
    }
    if has_nul(s) && !(has_nul(bytes) || b == 0) {
        let i = choose|i: int| 0 <= i < s.len() && s[i] == 0;
        if i < bytes.len() {
            assert(bytes[i] == 0);
        }
    }
}

/// How the match list evolves when one more line completes.
pub proof fn lemma_matches_of_push(
    lines: Seq<Seq<u8>>,
    l: Seq<u8>,
    pattern: Seq<char>,
    case_sensitive: bool,
)
    ensures
        matches_of(lines.push(l), pattern, case_sensitive) == if line_match_bytes(
            l,
            pattern,
            case_sensitive,
        ) {
            matches_of(lines, pattern, case_sensitive).push(
                SpecMatch { line: lines.len() + 1, text: decoded_of(l) },
            )
        } else {
            matches_of(lines, pattern, case_sensitive)
        },
{
    assert(lines.push(l).drop_last() =~= lines);
    assert(lines.push(l).last() == l);
}

/// Mapping to spec form commutes with appending one match.
pub proof fn lemma_abs_matches_push(ms: Seq<LineMatch>, m: LineMatch)
    ensures
        abs_matches(ms.push(m)) == abs_matches(ms).push(m@),
{
    assert(abs_matches(ms.push(m)) =~= abs_matches(ms).push(m@));
}

/// Line numbers are 1-based, strictly increasing, and faithful: every match
/// carries the number and decoded text of a line that matches, and every
/// matching line is reported exactly once, under its own position.
pub proof fn lemma_matches_ordered(lines: Seq<Seq<u8>>, pattern: Seq<char>, case_sensitive: bool)
    ensures
        ({
            let ms = matches_of(lines, pattern, case_sensitive);
            &&& forall|j: int|
                0 <= j < ms.len() ==> 1 <= #[trigger] ms[j].line <= lines.len()
                    && line_match_bytes(lines[ms[j].line - 1], pattern, case_sensitive)
                    && ms[j].text == decoded_of(lines[ms[j].line - 1])
            &&& forall|j: int, k: int|
                0 <= j < k < ms.len() ==> #[trigger] ms[j].line < #[trigger] ms[k].line
            &&& forall|i: int|
                0 <= i < lines.len() && #[trigger] line_match_bytes(
                    lines[i],
                    pattern,
                    case_sensitive,
                ) ==> exists|j: int| 0 <= j < ms.len() && #[trigger] ms[j].line == i + 1
        }),
    decreases lines.len(),
{
    if lines.len() > 0 {
        lemma_matches_ordered(lines.drop_last(), pattern, case_sensitive);
        let prev = matches_of(lines.drop_last(), pattern, case_sensitive);
        let ms = matches_of(lines, pattern, case_sensitive);
        assert(forall|i: int| 0 <= i < lines.len() - 1 ==> lines.drop_last()[i] == lines[i]);
        assert forall|i: int|
            0 <= i < lines.len() && #[trigger] line_match_bytes(
                lines[i],
                pattern,
                case_sensitive,
            ) implies exists|j: int| 0 <= j < ms.len() && #[trigger] ms[j].line == i + 1 by {
            if i < lines.len() - 1 {
                let j = choose|j: int| 0 <= j < prev.len() && #[trigger] prev[j].line == i + 1;
                assert(ms[j].line == i + 1);
            } else {
                assert(lines.last() == lines[i]);
                assert(ms[ms.len() - 1].line == i + 1);
            }
        }
    }
}

/// A stream whose last byte is not a line feed still yields that tail as its
/// final line.
pub proof fn lemma_trailing_line(bytes: Seq<u8>)
    requires
        bytes.len() > 0,
        bytes.last() != 10,
    ensures
        scan_split(bytes).pending.len() > 0,
        all_lines(bytes) == scan_split(bytes).complete.push(scan_split(bytes).pending),
        all_lines(bytes).last() == scan_split(bytes).pending,
{
}

/// The binary policy: a stream with a NUL byte reports a single binary
/// notice when at least one line would have matched, and an empty match list
/// otherwise — never line content.
pub proof fn lemma_binary_policy(bytes: Seq<u8>, pattern: Seq<char>, case_sensitive: bool)
    requires
        has_nul(bytes),
    ensures
        matches_of(all_lines(bytes), pattern, case_sensitive).len() > 0
            ==> spec_scan_outcome(bytes, pattern, case_sensitive) is BinaryNotice,
        spec_scan_outcome(bytes, pattern, case_sensitive) matches SpecOutcome::Matches {
            matches: ms,
        } ==> ms.len() == 0,
{
}

/// The transient state of one object's scan.
///
/// Chunks of the object's byte stream are fed in with [`ScanState::push_chunk`];
/// [`ScanState::finish`] flushes the unterminated final line and reports the
/// outcome. The outcome is determined by the concatenation of the chunks, the
/// pattern and the case mode alone.
pub struct ScanState {
    pattern: String,
    case_sensitive: bool,
    pending: Vec<u8>,
    lines_done: u64,
    binary: bool,
    matches: Vec<LineMatch>,
    consumed: Ghost<Seq<u8>>,
}

impl ScanState {
    /// The bytes fed in so far.
    pub closed spec fn consumed(self) -> Seq<u8> {
        self.consumed@
    }

    /// The pattern this scan looks for.
    pub closed spec fn pattern_view(self) -> Seq<char> {
        self.pattern@
    }

    /// Whether this scan matches literal-case.
    pub closed spec fn is_case_sensitive(self) -> bool {
        self.case_sensitive
    }

    /// The state faithfully mirrors a scan of the bytes fed in so far: the
    /// pending buffer holds the bytes after the last line feed, the line
    /// counter the number of complete lines, the binary flag whether a NUL
    /// byte was seen, and the collected matches those of the complete lines.
    pub closed spec fn wf(self) -> bool {
        let sp = scan_split(self.consumed@);
        &&& self.pending@ == sp.pending
        &&& self.lines_done == sp.complete.len()
        &&& self.binary == has_nul(self.consumed@)
        &&& abs_matches(self.matches@) == matches_of(sp.complete, self.pattern@, self.case_sensitive)
        &&& self.consumed@.len() <= u64::MAX
    }

    /// Starts a scan for `pattern` with nothing consumed yet.
    pub fn new(pattern: &str, case_sensitive: bool) -> (r: ScanState)
        ensures
            r.wf(),
            r.consumed() == Seq::<u8>::empty(),
            r.pattern_view() == pattern@,
            r.is_case_sensitive() == case_sensitive,
    {
        let r = ScanState {
            pattern: String::from_str(pattern),
            case_sensitive,
            pending: Vec::new(),
            lines_done: 0,
            binary: false,
            matches: Vec::new(),
            consumed: Ghost(Seq::empty()),
        };
        proof {
            assert(abs_matches(r.matches@) =~= Seq::<SpecMatch>::empty());
            assert(!has_nul(r.consumed@));
        }
        r
    }

    /// Consumes one chunk of the byte stream: detects NUL bytes, closes each
    /// line on a line feed, and records the lines that match.
    pub fn push_chunk(&mut self, chunk: &[u8])
        requires
            old(self).wf(),
            old(self).consumed().len() + chunk@.len() <= u64::MAX,
        ensures
            final(self).wf(),
            final(self).consumed() == old(self).consumed() + chunk@,
            final(self).pattern_view() == old(self).pattern_view(),
            final(self).is_case_sensitive() == old(self).is_case_sensitive(),
    {
        let ghost orig = self.consumed@;
        let ghost pat = self.pattern@;
        let ghost cs = self.case_sensitive;
        let n = chunk.len();
        let mut idx: usize = 0;
        proof {
            assert(orig + chunk@.subrange(0, 0) =~= orig);
        }
        while idx < n
            invariant
                self.wf(),
                n == chunk@.len(),
                idx <= n,
                self.consumed@ == orig + chunk@.subrange(0, idx as int),
                orig.len() + chunk@.len() <= u64::MAX,
                self.pattern@ == pat,
                self.case_sensitive == cs,
            decreases n - idx,
        {
            let b = chunk[idx];
            proof {
                assert(self.consumed@.len() == orig.len() + idx);
                lemma_scan_split_push(self.consumed@, b);
                lemma_has_nul_push(self.consumed@, b);
                lemma_scan_split_size(self.consumed@);
            }
            if b == 0 {
                self.binary = true;
            }
            if b == 10 {
                let line_number = self.lines_done + 1;
                let text = decode_lossy(self.pending.as_slice());
                proof {
                    lemma_matches_of_push(
                        scan_split(self.consumed@).complete,
                        self.pending@,
                        pat,
                        cs,
                    );
                }
                if line_matches(text.as_str(), self.pattern.as_str(), self.case_sensitive) {
                    let m = LineMatch { line_number, text };
                    proof {
                        lemma_abs_matches_push(self.matches@, m);
                    }
                    self.matches.push(m);
                }
                self.pending.clear();
                self.lines_done = line_number;
            } else {
                self.pending.push(b);
            }
            proof {
                assert(orig + chunk@.subrange(0, idx + 1) =~= (orig + chunk@.subrange(
                    0,
                    idx as int,
                )).push(chunk@[idx as int]));
            }
            self.consumed = Ghost(self.consumed@.push(b));
            idx = idx + 1;
        }
        proof {
            assert(orig + chunk@.subrange(0, n as int) =~= orig + chunk@);
        }
    }

    /// Ends the scan: flushes an unterminated final line, then reports the
    /// outcome under the binary policy — an object in which a NUL byte was
    /// seen never reports line content.
    pub fn finish(self) -> (r: ObjectOutcome)
        requires
            self.wf(),
        ensures
            r@ == spec_scan_outcome(self.consumed(), self.pattern_view(), self.is_case_sensitive()),
    {
        let ScanState { pattern, case_sensitive, pending, lines_done, binary, matches, consumed } =
            self;
        let mut matches = matches;
        let ghost sp = scan_split(consumed@);
        proof {
            lemma_scan_split_size(consumed@);
        }
        if pending.len() > 0 {
            let line_number = lines_done + 1;
            let text = decode_lossy(pending.as_slice());
            proof {
                lemma_matches_of_push(sp.complete, pending@, pattern@, case_sensitive);
            }
            if line_matches(text.as_str(), pattern.as_str(), case_sensitive) {
                let m = LineMatch { line_number, text };
                proof {
                    lemma_abs_matches_push(matches@, m);
                }
                matches.push(m);
            }
        }
        if binary {
            if matches.len() > 0 {
                ObjectOutcome::BinaryNotice
            } else {
                proof {
                    assert(abs_matches(matches@) =~= Seq::<SpecMatch>::empty());
                }
                ObjectOutcome::Matches { matches }
            }
        } else {
            ObjectOutcome::Matches { matches }
        }
    }
}

} // verus!
