//! What a run of `ccache -s` has brought.

use vstd::prelude::*;
use vstd::string::StringExecFns;
use vstd::utf8::{decode_utf8, valid_utf8};

use crate::format::{push_signed, signed_text};
use crate::stats::{parse_ccache_stats, parsed_stats, Stats};
use crate::text::{
    contents, joined_lines, law_text_is_trimmed_once, lines_of, split_lines, to_chars, to_text,
    trim, trimmed,
};
use crate::text_laws::law_joining_puts_a_line_feed_between;

verus! {

/// Captures a ccache invocation failure and its output.
#[derive(Debug)]
pub struct CcacheError {
    /// Process exit code if available.
    pub code: Option<i32>,
    /// Trimmed stderr/stdout or parse error message.
    pub message: String,
}

/// The text that `String::from_utf8_lossy` makes of bytes.
pub uninterp spec fn lossy_text(bytes: Seq<u8>) -> Seq<char>;

/// Decodes bytes with `String::from_utf8_lossy`, which depends on nothing but the bytes. Of bytes
/// that are valid UTF-8 it gives the characters that they encode; where they are not, it puts
/// replacement characters for what cannot be decoded, of which only the name of the result is
/// said here.
#[verifier::external_body]
fn decode_lossy(bytes: &[u8]) -> (decoded: String)
    ensures
        decoded@ == lossy_text(bytes@),
        valid_utf8(bytes@) ==> decoded@ == decode_utf8(bytes@),
{
    String::from_utf8_lossy(bytes).to_string()
}

/// The message of a run that failed: what it wrote to its error output or, where that is blank,
/// what it wrote to its output, without the white space around it.
pub open spec fn failure_message(stdout: Seq<char>, stderr: Seq<char>) -> Seq<char> {
    if trimmed(stderr).len() == 0 {
        trimmed(stdout)
    } else {
        trimmed(stderr)
    }
}

/// Whether this is the outcome of a run with the given exit and the given texts on its two
/// outputs.
pub open spec fn is_outcome(
    outcome: Result<Stats, CcacheError>,
    success: bool,
    code: Option<i32>,
    stdout: Seq<char>,
    stderr: Seq<char>,
) -> bool {
    match outcome {
        Ok(stats) => success && parsed_stats(stdout) == Some(stats@),
        Err(error) => {
            &&& error.code == code
            &&& if success {
                &&& parsed_stats(stdout) is None
                &&& error.message@ == "Failed to parse ccache output"@
            } else {
                error.message@ == failure_message(stdout, stderr)
            }
        },
    }
}

/// Trims a text.
fn trim_text(text: &str) -> (inner: String)
    ensures
        inner@ == trimmed(text@),
{
    let chars = to_chars(text);
    to_text(trim(&chars))
}

/// The error for a run that could not be started.
pub fn start_failure(message: String) -> (error: CcacheError)
    ensures
        error.code is None,
        error.message@ == message@,
{
    CcacheError { code: None, message }
}

/// Interprets the exit and the texts of a run of `ccache -s`.
pub fn interpret_run(success: bool, code: Option<i32>, stdout: &str, stderr: &str) -> (outcome:
    Result<Stats, CcacheError>)
    ensures
        is_outcome(outcome, success, code, stdout@, stderr@),
{
    if !success {
        let mut message = trim_text(stderr);
        if message.as_str().is_empty() {
            message = trim_text(stdout);
        }
        return Err(CcacheError { code, message });
    }
    match parse_ccache_stats(stdout) {
        Some(stats) => Ok(stats),
        None => Err(
            CcacheError { code, message: String::from_str("Failed to parse ccache output") },
        ),
    }
}

/// Reads the stats from what a run of `ccache -s` has left, or returns a structured error.
pub fn read_ccache_stats(success: bool, code: Option<i32>, stdout: &[u8], stderr: &[u8]) -> (outcome:
    Result<Stats, CcacheError>)
    ensures
        is_outcome(outcome, success, code, lossy_text(stdout@), lossy_text(stderr@)),
        valid_utf8(stdout@) && valid_utf8(stderr@) ==> is_outcome(
            outcome,
            success,
            code,
            decode_utf8(stdout@),
            decode_utf8(stderr@),
        ),
{
    let out = decode_lossy(stdout);
    let err = decode_lossy(stderr);
    interpret_run(success, code, out.as_str(), err.as_str())
}

/// The line that tells the exit code of an error.
pub open spec fn code_line(code: Option<i32>) -> Seq<char> {
    match code {
        Some(code) => "Exit code: "@ + signed_text(code as int),
        None => "Exit code: n/a"@,
    }
}

/// The lines that tell the message of an error.
pub open spec fn message_lines(message: Seq<char>) -> Seq<Seq<char>> {
    if trimmed(message).len() == 0 {
        seq!["No error output captured."@]
    } else {
        lines_of(message)
    }
}

/// The text of the error overlay: the exit code, an empty line and the message.
pub open spec fn overlay_of(code: Option<i32>, message: Seq<char>) -> Seq<char> {
    joined_lines(seq![code_line(code), Seq::empty()] + message_lines(message))
}

/// What a failed run has written to its error output is what the overlay shows, line by line,
/// below the exit code.
pub proof fn law_failed_run_shows_its_error_output(
    outcome: Result<Stats, CcacheError>,
    code: Option<i32>,
    stdout: Seq<char>,
    stderr: Seq<char>,
)
    requires
        is_outcome(outcome, false, code, stdout, stderr),
        trimmed(stderr).len() > 0,
    ensures
        outcome matches Err(error) && overlay_of(error.code, error.message@) == joined_lines(
            seq![code_line(code), Seq::empty()] + lines_of(trimmed(stderr)),
        ),
{
    law_text_is_trimmed_once(stderr);
}

/// A run gives statistics just when it was a success and its output can be read, and then they
/// are those of its output. Otherwise it gives its exit code, and a message: that the output could
/// not be read, or what the run has written to its error output or, where that is blank, to its
/// output.
pub proof fn law_outcome_is_told_by_exit_and_outputs(
    outcome: Result<Stats, CcacheError>,
    success: bool,
    code: Option<i32>,
    stdout: Seq<char>,
    stderr: Seq<char>,
)
    requires
        is_outcome(outcome, success, code, stdout, stderr),
    ensures
        outcome is Ok <==> success && parsed_stats(stdout) is Some,
        outcome matches Ok(stats) ==> parsed_stats(stdout) == Some(stats@),
        outcome matches Err(error) ==> error.code == code,
        outcome matches Err(error) ==> success ==> error.message@
            == "Failed to parse ccache output"@,
        outcome matches Err(error) ==> !success && trimmed(stderr).len() > 0 ==> error.message@
            == trimmed(stderr),
        outcome matches Err(error) ==> !success && trimmed(stderr).len() == 0 ==> error.message@
            == trimmed(stdout),
{
}

/// The overlay tells the exit code, then leaves a line empty, and then tells the message line by
/// line, or that there is none where it is blank.
pub proof fn law_overlay_tells_code_and_message(code: i32, message: Seq<char>)
    ensures
        trimmed(message).len() > 0 ==> overlay_of(Some(code), message) == "Exit code: "@
            + signed_text(code as int) + seq!['\n', '\n'] + joined_lines(lines_of(message)),
        trimmed(message).len() > 0 ==> overlay_of(None, message) == "Exit code: n/a"@ + seq![
            '\n',
            '\n',
        ] + joined_lines(lines_of(message)),
        trimmed(message).len() == 0 ==> overlay_of(Some(code), message) == "Exit code: "@
            + signed_text(code as int) + seq!['\n', '\n'] + "No error output captured."@,
        trimmed(message).len() == 0 ==> overlay_of(None, message) == "Exit code: n/a"@ + seq![
            '\n',
            '\n',
        ] + "No error output captured."@,
{
    let shown = message_lines(message);
    lemma_overlay(Some(code), message);
    lemma_overlay(None, message);
    if trimmed(message).len() == 0 {
        assert(joined_lines(shown) == "No error output captured."@);
    }
}

proof fn lemma_text_has_lines(s: Seq<char>)
    ensures
        s.len() > 0 ==> lines_of(s).len() > 0,
{
}

proof fn lemma_overlay(code: Option<i32>, message: Seq<char>)
    ensures
        overlay_of(code, message) == code_line(code) + seq!['\n', '\n'] + joined_lines(
            message_lines(message),
        ),
{
    let shown = message_lines(message);
    let nothing = Seq::<char>::empty();
    let (first, second) = (seq![code_line(code)], seq![nothing]);
    if trimmed(message).len() > 0 {
        if message.len() == 0 {
            assert(trimmed(message) == message);
        }
        lemma_text_has_lines(message);
    }
    law_joining_puts_a_line_feed_between(first, second + shown);
    law_joining_puts_a_line_feed_between(second, shown);
    assert(first + (second + shown) =~= seq![code_line(code), nothing] + shown);
    assert(overlay_of(code, message) =~= code_line(code) + seq!['\n', '\n'] + joined_lines(shown));
}

/// Appends lines to a text that is not empty, each behind a line feed.
fn push_lines(out: &mut String, lines: &Vec<&[char]>, Ghost(before): Ghost<Seq<Seq<char>>>)
    requires
        before.len() > 0,
        old(out)@ == joined_lines(before),
    ensures
        final(out)@ == joined_lines(before + contents(lines@)),
{
    let n: usize = lines.len();
    proof {
        assert(before + contents(lines@).take(0) =~= before);
    }
    for i in 0..n
        invariant
            n == lines@.len(),
            before.len() > 0,
            out@ == joined_lines(before + contents(lines@).take(i as int)),
    {
        let line = to_text(lines[i]);
        out.push('\n');
        out.append(line.as_str());
        proof {
            let longer = before + contents(lines@).take(i + 1);
            assert(contents(lines@)[i as int] == lines@[i as int]@);
            assert(longer.drop_last() =~= before + contents(lines@).take(i as int));
            assert(longer.last() == line@);
            assert(out@ =~= joined_lines(longer));
        }
    }
    proof {
        assert(contents(lines@).take(n as int) =~= contents(lines@));
    }
}

/// Writes the text of the error overlay.
pub fn overlay_text(error: &CcacheError) -> (shown: String)
    ensures
        shown@ == overlay_of(error.code, error.message@),
{
    let mut shown = match error.code {
        Some(code) => {
            let mut line = String::from_str("Exit code: ");
            push_signed(&mut line, code);
            line
        },
        None => String::from_str("Exit code: n/a"),
    };
    let ghost head = seq![code_line(error.code), Seq::<char>::empty()];
    shown.push('\n');
    proof {
        assert(head.drop_last() =~= seq![code_line(error.code)]);
        assert(joined_lines(head.drop_last()) == code_line(error.code));
        assert(shown@ =~= joined_lines(head));
    }
    let message = to_chars(error.message.as_str());
    if trim(&message).len() == 0 {
        shown.push('\n');
        shown.append("No error output captured.");
        proof {
            let all = head + message_lines(error.message@);
            assert(all.drop_last() =~= head);
            assert(shown@ =~= joined_lines(all));
        }
    } else {
        let lines = split_lines(&message);
        push_lines(&mut shown, &lines, Ghost(head));
    }
    shown
}

} // verus!
