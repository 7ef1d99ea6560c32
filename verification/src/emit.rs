//! Formatting of outcomes into output and diagnostic lines.
//!
//! Every outcome becomes a fixed set of lines: matches go to the output
//! channel with the object's fully-qualified location, an optional line
//! number and the line text with its first case-insensitive occurrence of
//! the pattern highlighted; diagnostics go to the error channel. The caller
//! prints each line under its progress-display lock, so lines and progress
//! redraws never interleave.

use vstd::prelude::*;

use colored::Colorize;

use crate::matching::ci_match_at;
use crate::matching::find_ci_match;
use crate::matching::has_ci_match;
use crate::matching::has_substr;
use crate::scanner::LineMatch;
use crate::scanner::ObjectOutcome;
use crate::scanner::SpecMatch;
use crate::scanner::SpecOutcome;
use crate::scanner::abs_matches;

verus! {

/// The decimal digit character for `d`.
pub open spec fn dec_digit(d: int) -> char
    recommends
        0 <= d <= 9,
{
    if d == 0 {
        '0'
    } else if d == 1 {
        '1'
    } else if d == 2 {
        '2'
    } else if d == 3 {
        '3'
    } else if d == 4 {
        '4'
    } else if d == 5 {
        '5'
    } else if d == 6 {
        '6'
    } else if d == 7 {
        '7'
    } else if d == 8 {
        '8'
    } else {
        '9'
    }
}

/// The decimal representation of `n`, most significant digit first, without
/// leading zeroes.
pub open spec fn dec_rep(n: nat) -> Seq<char>
    decreases n,
{
    if n < 10 {
        seq![dec_digit(n as int)]
    } else {
        dec_rep(n / 10) + seq![dec_digit((n % 10) as int)]
    }
}

fn digit_str(d: u64) -> (r: String)
    requires
        d <= 9,
    ensures
        r@ == seq![dec_digit(d as int)],
{
    proof {
        reveal_strlit("0");
        reveal_strlit("1");
        reveal_strlit("2");
        reveal_strlit("3");
        reveal_strlit("4");
        reveal_strlit("5");
        reveal_strlit("6");
        reveal_strlit("7");
        reveal_strlit("8");
        reveal_strlit("9");
    }
    let s: &str = if d == 0 {
        "0"
    } else if d == 1 {
        "1"
    } else if d == 2 {
        "2"
    } else if d == 3 {
        "3"
    } else if d == 4 {
        "4"
    } else if d == 5 {
        "5"
    } else if d == 6 {
        "6"
    } else if d == 7 {
        "7"
    } else if d == 8 {
        "8"
    } else {
        "9"
    };
    proof {
        assert(s@ =~= seq![dec_digit(d as int)]);
    }
    String::from_str(s)
}

/// Writes `n` in decimal.
pub fn u64_to_dec(n: u64) -> (r: String)
    ensures
        r@ == dec_rep(n as nat),
    decreases n,
{
    if n < 10 {
        digit_str(n)
    } else {
        let mut s = u64_to_dec(n / 10);
        let d = digit_str(n % 10);
        s.append(d.as_str());
        s
    }
}

/// The escape sequence that ends a styled span.
pub open spec fn reset_seq() -> Seq<char> {
    "\u{1b}[0m"@
}

/// What the styling call promises of its result `r` for an input `s`: when
/// `s` does not itself contain the reset sequence, `r` is `s` with some
/// (possibly empty) prefix and suffix of style codes around it.
pub open spec fn styled_wraps(s: Seq<char>, r: Seq<char>) -> bool {
    has_substr(s, reset_seq()) || exists|a: Seq<char>, b: Seq<char>| r == a + s + b
}

/// Relies on `colored`'s `Colorize::on_yellow` and `Colorize::black` and the
/// `Display` of the styled string: when styling is disabled the text is
/// written unchanged, otherwise it is wrapped in escape sequences; a text
/// that itself contains the reset sequence may additionally have style codes
/// re-inserted after each reset, so nothing is promised of it.
#[verifier::external_body]
fn paint_match(s: &str) -> (r: String)
    ensures
        styled_wraps(s@, r@),
{
    format!("{}", s.on_yellow().black())
}

/// `r` is `s` with the first case-insensitive occurrence of `p` visually
/// highlighted, the rest of the line kept with its original casing; when no
/// occurrence exists, `r` is `s` itself.
pub open spec fn is_highlighted(s: Seq<char>, p: Seq<char>, r: Seq<char>) -> bool {
    if has_ci_match(s, p) {
        exists|i: int, h: Seq<char>|
            ci_match_at(s, p, i) && (forall|j: int| 0 <= j < i ==> !ci_match_at(s, p, j))
                && styled_wraps(s.subrange(i, i + p.len() as int), h) && r == s.subrange(0, i) + h
                + s.subrange(i + p.len() as int, s.len() as int)
    } else {
        r == s
    }
}

proof fn lemma_highlight_witness(s: Seq<char>, p: Seq<char>, i: int, h: Seq<char>, r: Seq<char>)
    requires
        ci_match_at(s, p, i),
        forall|j: int| 0 <= j < i ==> !ci_match_at(s, p, j),
        styled_wraps(s.subrange(i, i + p.len() as int), h),
        r == s.subrange(0, i) + h + s.subrange(i + p.len() as int, s.len() as int),
    ensures
        is_highlighted(s, p, r),
{
    assert(has_ci_match(s, p));
}

/// Highlights the first case-insensitive occurrence of `pattern` in `line`,
/// preserving the line's original casing; a line without an occurrence is
/// returned unchanged.
pub fn highlight_match(line: &str, pattern: &str) -> (r: String)
    ensures
        is_highlighted(line@, pattern@, r@),
{
    let n = line.unicode_len();
    let m = pattern.unicode_len();
    match find_ci_match(line, pattern) {
        Some(i) => {
            let prefix = line.substring_char(0, i);
            let mid = line.substring_char(i, i + m);
            let suffix = line.substring_char(i + m, n);
            let painted = paint_match(mid);
            let mut out = String::from_str(prefix);
            out.append(painted.as_str());
            out.append(suffix);
            proof {
                assert(out@ == line@.subrange(0, i as int) + painted@ + line@.subrange(
                    i + m as int,
                    line@.len() as int,
                ));
                lemma_highlight_witness(line@, pattern@, i as int, painted@, out@);
            }
            out
        },
        None => String::from_str(line),
    }
}

/// Which channel a formatted line goes to.
#[derive(Clone, Copy, Debug, PartialEq, Eq, Structural)]
pub enum Channel {
    /// The standard output channel: matches and binary notices.
    Output,
    /// The error channel: per-object diagnostics.
    Diagnostic,
}

/// One formatted line, bound for one channel.
#[derive(Debug)]
pub struct EmitLine {
    /// Where the line goes.
    pub channel: Channel,
    /// The line's text, without a terminator.
    pub text: String,
}

/// The fully-qualified location prefix of one object's match lines.
pub open spec fn location_part(bucket: Seq<char>, key: Seq<char>) -> Seq<char> {
    "s3://"@ + bucket + "/"@ + key + ":"@
}

/// The optional line-number field of a match line.
pub open spec fn number_part(line: nat, want_line_numbers: bool) -> Seq<char> {
    if want_line_numbers {
        dec_rep(line) + ":"@
    } else {
        Seq::empty()
    }
}

/// `out` is the printed form of the match `m`: location, optional line
/// number, then the line text with the first case-insensitive occurrence of
/// `p` highlighted.
pub open spec fn is_match_line(
    bucket: Seq<char>,
    key: Seq<char>,
    m: SpecMatch,
    want_line_numbers: bool,
    p: Seq<char>,
    out: Seq<char>,
) -> bool {
    exists|h: Seq<char>|
        #[trigger] is_highlighted(m.text, p, h) && out == location_part(bucket, key) + number_part(
            m.line,
            want_line_numbers,
        ) + h
}

fn format_match(
    bucket: &str,
    key: &str,
    m: &LineMatch,
    want_line_numbers: bool,
    pattern: &str,
) -> (r: String)
    ensures
        is_match_line(bucket@, key@, m@, want_line_numbers, pattern@, r@),
{
    let mut out = String::from_str("s3://");
    out.append(bucket);
    out.append("/");
    out.append(key);
    out.append(":");
    if want_line_numbers {
        let number_text = u64_to_dec(m.line_number);
        out.append(number_text.as_str());
        out.append(":");
    }
    let highlighted = highlight_match(m.text.as_str(), pattern);
    out.append(highlighted.as_str());
    proof {
        assert(out@ =~= location_part(bucket@, key@) + number_part(m@.line, want_line_numbers)
            + highlighted@);
        assert(is_highlighted(m@.text, pattern@, highlighted@));
        assert(is_match_line(bucket@, key@, m@, want_line_numbers, pattern@, out@));
    }
    out
}

/// Formats one object's outcome into its output and diagnostic lines:
/// a skipped container and a failure each give one diagnostic line, a binary
/// notice one output line naming the object, and a match list one output
/// line per match, in order.
pub fn emit_outcome(
    bucket: &str,
    key: &str,
    outcome: &ObjectOutcome,
    want_line_numbers: bool,
    pattern: &str,
) -> (lines: Vec<EmitLine>)
    ensures
        match outcome@ {
            SpecOutcome::SkippedAsContainer => lines@.len() == 1 && lines@[0].channel
                is Diagnostic && lines@[0].text@ == key@ + ": Is a directory"@,
            SpecOutcome::Error { message } => lines@.len() == 1 && lines@[0].channel
                is Diagnostic && lines@[0].text@ == key@ + ": "@ + message,
            SpecOutcome::BinaryNotice => lines@.len() == 1 && lines@[0].channel is Output
                && lines@[0].text@ == "Binary file "@ + key@ + " matches"@,
            SpecOutcome::Matches { matches } => lines@.len() == matches.len() && forall|j: int|
                0 <= j < matches.len() ==> (#[trigger] lines@[j]).channel is Output
                    && is_match_line(
                    bucket@,
                    key@,
                    matches[j],
                    want_line_numbers,
                    pattern@,
                    lines@[j].text@,
                ),
        },
{
    match outcome {
        ObjectOutcome::SkippedAsContainer => {
            let mut text = String::from_str(key);
            text.append(": Is a directory");
            let mut lines: Vec<EmitLine> = Vec::new();
            lines.push(EmitLine { channel: Channel::Diagnostic, text });
            lines
        },
        ObjectOutcome::Error { message } => {
            let mut text = String::from_str(key);
            text.append(": ");
            text.append(message.as_str());
            let mut lines: Vec<EmitLine> = Vec::new();
            lines.push(EmitLine { channel: Channel::Diagnostic, text });
            lines
        },
        ObjectOutcome::BinaryNotice => {
            let mut text = String::from_str("Binary file ");
            text.append(key);
            text.append(" matches");
            let mut lines: Vec<EmitLine> = Vec::new();
            lines.push(EmitLine { channel: Channel::Output, text });
            lines
        },
        ObjectOutcome::Matches { matches } => {
            let mut lines: Vec<EmitLine> = Vec::new();
            let mut idx: usize = 0;
            while idx < matches.len()
                invariant
                    idx <= matches@.len(),
                    lines@.len() == idx,
                    forall|j: int|
                        0 <= j < idx ==> (#[trigger] lines@[j]).channel is Output
                            && is_match_line(
                            bucket@,
                            key@,
                            abs_matches(matches@)[j],
                            want_line_numbers,
                            pattern@,
                            lines@[j].text@,
                        ),
                decreases matches@.len() - idx,
            {
                let m = &matches[idx];
                let text = format_match(bucket, key, m, want_line_numbers, pattern);
                lines.push(EmitLine { channel: Channel::Output, text });
                idx = idx + 1;
            }
            lines
        },
    }
}

/// The diagnostic line for a failure of the listing call itself, which ends
/// the whole enumeration.
pub fn listing_error_line(message: &str) -> (r: EmitLine)
    ensures
        r.channel is Diagnostic,
        r.text@ == "Error searching objects: "@ + message@,
{
    let mut text = String::from_str("Error searching objects: ");
    text.append(message);
    EmitLine { channel: Channel::Diagnostic, text }
}

} // verus!
