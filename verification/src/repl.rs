//! The REPL end-of-execution marker protocol: marker generation, payload
//! construction, output scanning, and assembly of one evaluation's response
//! stream.

use vstd::prelude::*;

use crate::names::is_name_start_char;
use crate::strutil::{push_char, spec_decimal, spec_trim, str_eq, str_starts_with, trim,
    u64_to_string};

verus! {

/// The languages the portal can evaluate.
#[derive(Clone, Copy, PartialEq, Eq, Structural, Debug)]
pub enum Language {
    /// Python, in a subprocess REPL.
    Python,
    /// Node.js, in a subprocess REPL.
    Node,
    /// Rust, in an in-process interpreter.
    Rust,
}

/// Which output stream a line came from.
#[derive(Clone, Copy, PartialEq, Eq, Structural, Debug)]
pub enum Stream {
    /// Standard output.
    Stdout,
    /// Standard error.
    Stderr,
}

/// One line of captured output.
pub struct Line {
    /// The stream the line came from.
    pub stream: Stream,
    /// The text of the line, without its newline.
    pub text: String,
}

/// One message of an evaluation's response stream.
pub enum Resp {
    /// A forwarded output line.
    OutputLine {
        /// The evaluation this line belongs to.
        id: String,
        /// The stream the line came from.
        stream: Stream,
        /// The text of the line.
        text: String,
    },
    /// Terminal message: the evaluation completed.
    Done {
        /// The evaluation that completed.
        id: String,
    },
    /// Terminal message: the evaluation failed or timed out.
    Error {
        /// The evaluation that failed.
        id: String,
        /// Why it failed.
        message: String,
    },
}

impl Resp {
    /// Whether this message ends an evaluation's stream.
    pub open spec fn is_terminal(&self) -> bool {
        self is Done || self is Error
    }

    /// The evaluation the message belongs to.
    pub open spec fn spec_id(&self) -> Seq<char> {
        match self {
            Resp::OutputLine { id, .. } => id@,
            Resp::Done { id } => id@,
            Resp::Error { id, .. } => id@,
        }
    }
}

/// Relies on rand's `Alphanumeric` distribution through
/// `SampleString::sample_string` on the thread RNG: the result holds exactly
/// `n` ASCII alphanumeric characters. Nothing is assumed about which ones.
#[verifier::external_body]
fn sample_alphanumeric(n: usize) -> (r: String)
    ensures
        r@.len() == n as nat,
        forall|i: int| 0 <= i < r@.len() ==> is_name_start_char(#[trigger] r@[i]),
{
    rand::distr::SampleString::sample_string(&rand::distr::Alphanumeric, &mut rand::rng(), n)
}

/// Number of random characters after the `eoe_` prefix of a marker.
pub const MARKER_RANDOM_LEN: usize = 20;

/// Whether `m` has the shape of an end-of-execution marker: `eoe_` followed
/// by twenty alphanumerics.
pub open spec fn is_marker(m: Seq<char>) -> bool {
    &&& m.len() == 4 + MARKER_RANDOM_LEN
    &&& m.subrange(0, 4) == "eoe_"@
    &&& forall|i: int| 4 <= i < m.len() ==> is_name_start_char(#[trigger] m[i])
}

/// Draws a fresh end-of-execution marker: `eoe_` followed by twenty random
/// alphanumerics.
pub fn make_marker() -> (r: String)
    ensures
        is_marker(r@),
{
    let mut m = "eoe_".to_owned();
    let suffix = sample_alphanumeric(MARKER_RANDOM_LEN);
    m.append(suffix.as_str());
    proof {
        reveal_strlit("eoe_");
        assert(m@.subrange(0, 4) =~= "eoe_"@);
    }
    m
}

/// `code` terminated by a newline: unchanged if it already ends in one.
pub open spec fn spec_terminated(code: Seq<char>) -> Seq<char> {
    if code.len() > 0 && code.last() == '\n' {
        code
    } else {
        code.push('\n')
    }
}

/// Appends a newline to `code` unless it already ends in one.
fn terminate_code(code: String) -> (r: String)
    ensures
        r@ == spec_terminated(code@),
{
    let len = code.as_str().unicode_len();
    if len > 0 && code.as_str().get_char(len - 1) == '\n' {
        code
    } else {
        let mut c = code;
        push_char(&mut c, '\n');
        c
    }
}

/// The payload sent to the Python REPL for one evaluation: the terminated
/// code, then a statement that prints the marker.
pub open spec fn spec_python_payload(code: Seq<char>, marker: Seq<char>) -> Seq<char> {
    spec_terminated(code) + "\nprint('"@ + marker + "')\n"@
}

/// Builds the Python payload: the code, newline-terminated, followed by
/// `print('<marker>')` on its own line.
pub fn python_payload(code: String, marker: &str) -> (r: String)
    ensures
        r@ == spec_python_payload(code@, marker@),
{
    let mut p = terminate_code(code);
    p.append("\nprint('");
    p.append(marker);
    p.append("')\n");
    p
}

/// The payload sent to the Node.js REPL for one evaluation: the terminated
/// code, then a statement that logs the marker.
pub open spec fn spec_node_payload(code: Seq<char>, marker: Seq<char>) -> Seq<char> {
    spec_terminated(code) + "\nconsole.log('"@ + marker + "')\n"@
}

/// Builds the Node.js payload: the code, newline-terminated, followed by
/// `console.log('<marker>')` on its own line.
pub fn node_payload(code: String, marker: &str) -> (r: String)
    ensures
        r@ == spec_node_payload(code@, marker@),
{
    let mut p = terminate_code(code);
    p.append("\nconsole.log('");
    p.append(marker);
    p.append("')\n");
    p
}

/// Whether `line` is the end-of-execution marker: its trimmed content equals
/// the marker exactly.
pub fn is_marker_line(line: &str, marker: &str) -> (r: bool)
    ensures
        r == (spec_trim(line@) == marker@),
{
    let t = trim(line);
    str_eq(t.as_str(), marker)
}

/// Whether a Node.js stdout line is a REPL prompt artifact that must not be
/// forwarded: blank once trimmed, or starting with `>` or `..`.
pub open spec fn spec_node_artifact(line: Seq<char>) -> bool {
    ||| spec_trim(line).len() == 0
    ||| ">"@.is_prefix_of(line)
    ||| ".."@.is_prefix_of(line)
}

/// Decides `spec_node_artifact`.
pub fn node_prompt_artifact(line: &str) -> (r: bool)
    ensures
        r == spec_node_artifact(line@),
{
    let t = trim(line);
    if t.as_str().unicode_len() == 0 {
        return true;
    }
    str_starts_with(line, ">") || str_starts_with(line, "..")
}

/// The message reported when an evaluation exceeds its timeout.
pub open spec fn spec_timeout_message(secs: nat) -> Seq<char> {
    "Execution timed out after "@ + spec_decimal(secs) + " seconds"@
}

/// Formats the timeout message for `secs` seconds.
pub fn timeout_message(secs: u64) -> (r: String)
    ensures
        r@ == spec_timeout_message(secs as nat),
{
    let mut m = "Execution timed out after ".to_owned();
    let d = u64_to_string(secs);
    m.append(d.as_str());
    m.append(" seconds");
    m
}

/// The shape of one evaluation's response stream: the first `k` raw lines
/// are forwarded verbatim (none of them trims to the marker), and the stream
/// ends with `Done` when line `k` is the marker line, or with the timeout
/// `Error` when no line is.
pub open spec fn eval_responses_shape(
    r: Seq<Resp>,
    raw: Seq<String>,
    marker: Seq<char>,
    timeout_secs: nat,
    k: int,
) -> bool {
    &&& 0 <= k <= raw.len()
    &&& r.len() == k + 1
    &&& forall|i: int| 0 <= i < k ==> spec_trim(#[trigger] raw[i]@) != marker
    &&& forall|i: int| 0 <= i < k ==> ((#[trigger] r[i]) matches Resp::OutputLine {
        stream,
        text,
        ..
    } && stream == Stream::Stdout && text@ == raw[i]@)
    &&& k < raw.len() ==> spec_trim(raw[k]@) == marker && r.last() is Done
    &&& k == raw.len() ==> (r.last() matches Resp::Error { message, .. }
        && message@ == spec_timeout_message(timeout_secs))
}

/// Assembles the response stream of one evaluation from its raw stdout
/// lines.
///
/// Lines are forwarded in order until the first marker line; the marker line
/// itself is never forwarded. If a marker line is present the stream ends
/// with `Done`; otherwise the evaluation timed out and the stream ends with
/// an `Error` carrying the timeout message.
///
/// Every response stream holds exactly one terminal message, it is the last
/// message, and no forwarded line trims to the marker.
pub fn eval_responses(
    id: &str,
    marker: &str,
    raw_lines: &Vec<String>,
    timed_out: bool,
    timeout_secs: u64,
) -> (r: Vec<Resp>)
    requires
        timed_out || exists|i: int|
            0 <= i < raw_lines@.len() && spec_trim(#[trigger] raw_lines@[i]@) == marker@,
    ensures
        r@.len() >= 1,
        r@.last().is_terminal(),
        r@.last().spec_id() == id@,
        forall|i: int| 0 <= i < r@.len() - 1 ==> !(#[trigger] r@[i]).is_terminal(),
        forall|i: int| 0 <= i < r@.len() - 1 ==> ((#[trigger] r@[i]) matches Resp::OutputLine {
            id: rid,
            stream,
            text,
        } && rid@ == id@ && stream == Stream::Stdout && spec_trim(text@) != marker@),
        exists|k: int| #[trigger] eval_responses_shape(r@, raw_lines@, marker@,
            timeout_secs as nat, k),
{
    let mut out: Vec<Resp> = Vec::new();
    let n = raw_lines.len();
    let mut i: usize = 0;
    while i < n
        invariant
            i <= n,
            n == raw_lines@.len(),
            out@.len() == i,
            forall|k: int| 0 <= k < i
                ==> spec_trim(#[trigger] raw_lines@[k]@) != marker@,
            forall|k: int| 0 <= k < i ==> ((#[trigger] out@[k]) matches Resp::OutputLine {
                id: rid,
                stream,
                text,
            } && rid@ == id@ && stream == Stream::Stdout && text@ == raw_lines@[k]@),
            timed_out || exists|k: int|
                0 <= k < raw_lines@.len() && spec_trim(#[trigger] raw_lines@[k]@) == marker@,
        decreases n - i,
    {
        if is_marker_line(raw_lines[i].as_str(), marker) {
            out.push(Resp::Done { id: id.to_owned() });
            proof {
                let k = i as int;
                assert(out@[k] is Done);
                assert(forall|j: int| 0 <= j < out@.len() - 1
                    ==> !(#[trigger] out@[j]).is_terminal());
                assert(eval_responses_shape(out@, raw_lines@, marker@,
                    timeout_secs as nat, k));
            }
            return out;
        }
        let text = raw_lines[i].clone();
        out.push(Resp::OutputLine { id: id.to_owned(), stream: Stream::Stdout, text });
        i = i + 1;
    }
    let message = timeout_message(timeout_secs);
    out.push(Resp::Error { id: id.to_owned(), message });
    proof {
        let k = n as int;
        assert(out@[k] is Error);
        assert(forall|j: int| 0 <= j < out@.len() - 1
            ==> !(#[trigger] out@[j]).is_terminal());
        assert(eval_responses_shape(out@, raw_lines@, marker@, timeout_secs as nat, k));
    }
    out
}

/// The shape of the collected lines of a response stream: the first `k`
/// responses are non-terminal output lines kept in order; collection stops
/// at the first terminal, an `Error` terminal adding one stderr line.
pub open spec fn collected_lines_shape(r: Seq<Line>, resps: Seq<Resp>, k: int) -> bool {
    &&& 0 <= k <= resps.len()
    &&& forall|i: int| 0 <= i < k ==> !(#[trigger] resps[i]).is_terminal()
    &&& forall|i: int| 0 <= i < k ==> ((#[trigger] resps[i])
        matches Resp::OutputLine { stream, text, .. }
        && r[i].stream == stream && r[i].text@ == text@)
    &&& k < resps.len() ==> resps[k].is_terminal()
    &&& k < resps.len() ==> (resps[k] matches Resp::Error { message, .. }
        ==> r.len() == k + 1 && r[k].stream == Stream::Stderr
            && r[k].text@ == "Error: "@ + message@)
    &&& k < resps.len() ==> (resps[k] is Done ==> r.len() == k)
    &&& k == resps.len() ==> r.len() == k
}

/// Folds a response stream into the lines a caller sees: output lines are
/// kept in order up to the first terminal message; an `Error` terminal adds
/// one stderr line `Error: <message>`.
pub fn collect_lines(resps: &Vec<Resp>) -> (r: Vec<Line>)
    ensures
        exists|k: int| #[trigger] collected_lines_shape(r@, resps@, k),
{
    let mut out: Vec<Line> = Vec::new();
    let n = resps.len();
    let mut i: usize = 0;
    while i < n
        invariant
            i <= n,
            n == resps@.len(),
            out@.len() == i,
            forall|k: int| 0 <= k < i ==> !(#[trigger] resps@[k]).is_terminal(),
            forall|k: int| 0 <= k < i ==> ((#[trigger] resps@[k])
                matches Resp::OutputLine { stream, text, .. }
                && out@[k].stream == stream && out@[k].text@ == text@),
        decreases n - i,
    {
        match &resps[i] {
            Resp::OutputLine { stream, text, .. } => {
                out.push(Line { stream: *stream, text: text.clone() });
            }
            Resp::Done { .. } => {
                proof {
                    assert(collected_lines_shape(out@, resps@, i as int));
                }
                return out;
            }
            Resp::Error { message, .. } => {
                let mut t = "Error: ".to_owned();
                t.append(message.as_str());
                out.push(Line { stream: Stream::Stderr, text: t });
                proof {
                    assert(collected_lines_shape(out@, resps@, i as int));
                }
                return out;
            }
        }
        i = i + 1;
    }
    proof {
        assert(collected_lines_shape(out@, resps@, n as int));
    }
    out
}

/// What a caller finally sees from one evaluation is exactly its output:
/// folding a completed evaluation's response stream yields precisely the raw
/// stdout lines before the marker, in order, on stdout; a timed-out stream
/// yields the raw lines followed by one stderr line carrying the timeout
/// error.
pub proof fn lemma_eval_output_exact(
    r: Seq<Resp>,
    raw: Seq<String>,
    marker: Seq<char>,
    timeout_secs: nat,
    k: int,
    lines: Seq<Line>,
    k2: int,
)
    requires
        eval_responses_shape(r, raw, marker, timeout_secs, k),
        collected_lines_shape(lines, r, k2),
    ensures
        k2 == k,
        k < raw.len() ==> lines.len() == k,
        k == raw.len() ==> lines.len() == k + 1
            && lines[k].stream == Stream::Stderr
            && lines[k].text@ == "Error: "@ + spec_timeout_message(timeout_secs),
        forall|i: int| 0 <= i < k
            ==> (#[trigger] lines[i]).stream == Stream::Stdout && lines[i].text@ == raw[i]@,
{
    assert(r[k].is_terminal());
    if k2 < k {
        assert(!r[k2].is_terminal());
        assert(r[k2].is_terminal());
    }
    if k2 > k {
        assert(!r[k].is_terminal());
    }
    assert(k2 == k);
    assert forall|i: int| 0 <= i < k
        implies (#[trigger] lines[i]).stream == Stream::Stdout && lines[i].text@ == raw[i]@ by {
        assert(r[i] matches Resp::OutputLine { text, .. } && text@ == raw[i]@);
        assert(r[i] matches Resp::OutputLine { stream, text, .. }
            && lines[i].stream == stream && lines[i].text@ == text@);
    }
}

/// The terminal status of one evaluation.
pub enum ExecStatus {
    /// The evaluation ran to completion.
    Done,
    /// The evaluation failed with a message.
    Failed {
        /// Why it failed.
        message: String,
    },
    /// The evaluation exceeded its timeout, in seconds.
    TimedOut {
        /// The timeout that expired.
        seconds: u64,
    },
}

/// One evaluation's result: its id, language, captured lines, and terminal
/// status.
pub struct Execution {
    /// The caller-supplied id.
    pub id: String,
    /// The language it ran in.
    pub language: Language,
    /// The captured output lines, in order.
    pub lines: Vec<Line>,
    /// How it ended.
    pub status: ExecStatus,
}

/// The shape of one evaluation's result: the first `k` raw lines are kept
/// as stdout lines (none trims to the marker); the status is `Done` when
/// line `k` is the marker line, and the timeout otherwise.
pub open spec fn execution_shape(
    lines: Seq<Line>,
    status: ExecStatus,
    raw: Seq<String>,
    marker: Seq<char>,
    timeout_secs: u64,
    k: int,
) -> bool {
    &&& 0 <= k <= raw.len()
    &&& lines.len() == k
    &&& forall|i: int| 0 <= i < k ==> spec_trim(#[trigger] raw[i]@) != marker
    &&& forall|i: int| 0 <= i < k ==> (#[trigger] lines[i]).stream == Stream::Stdout
        && lines[i].text@ == raw[i]@
    &&& k < raw.len() ==> spec_trim(raw[k]@) == marker && status is Done
    &&& k == raw.len() ==> (status matches ExecStatus::TimedOut { seconds }
        && seconds == timeout_secs)
}

/// Builds one evaluation's result from its raw stdout lines, exactly as the
/// response stream would: the lines before the first marker line are kept,
/// the marker line itself is dropped, and the status is `Done` when the
/// marker appeared and `TimedOut` otherwise.
pub fn run_execution(
    id: &str,
    language: Language,
    marker: &str,
    raw_lines: &Vec<String>,
    timed_out: bool,
    timeout_secs: u64,
) -> (r: Execution)
    requires
        timed_out || exists|i: int|
            0 <= i < raw_lines@.len() && spec_trim(#[trigger] raw_lines@[i]@) == marker@,
    ensures
        r.id@ == id@,
        r.language == language,
        forall|i: int| 0 <= i < r.lines@.len()
            ==> spec_trim((#[trigger] r.lines@[i]).text@) != marker@,
        exists|k: int| #[trigger] execution_shape(r.lines@, r.status, raw_lines@, marker@,
            timeout_secs, k),
{
    let mut lines: Vec<Line> = Vec::new();
    let n = raw_lines.len();
    let mut i: usize = 0;
    while i < n
        invariant
            i <= n,
            n == raw_lines@.len(),
            lines@.len() == i,
            forall|k: int| 0 <= k < i
                ==> spec_trim(#[trigger] raw_lines@[k]@) != marker@,
            forall|k: int| 0 <= k < i
                ==> (#[trigger] lines@[k]).stream == Stream::Stdout
                    && lines@[k].text@ == raw_lines@[k]@,
            timed_out || exists|k: int|
                0 <= k < raw_lines@.len() && spec_trim(#[trigger] raw_lines@[k]@) == marker@,
        decreases n - i,
    {
        if is_marker_line(raw_lines[i].as_str(), marker) {
            proof {
                assert(execution_shape(lines@, ExecStatus::Done, raw_lines@, marker@,
                    timeout_secs, i as int));
            }
            return Execution {
                id: id.to_owned(),
                language,
                lines,
                status: ExecStatus::Done,
            };
        }
        lines.push(Line { stream: Stream::Stdout, text: raw_lines[i].clone() });
        i = i + 1;
    }
    proof {
        assert(execution_shape(lines@, ExecStatus::TimedOut { seconds: timeout_secs },
            raw_lines@, marker@, timeout_secs, n as int));
    }
    Execution {
        id: id.to_owned(),
        language,
        lines,
        status: ExecStatus::TimedOut { seconds: timeout_secs },
    }
}

/// The captured text of one stream, each line followed by a newline.
pub open spec fn spec_stream_text(lines: Seq<Line>, stream: Stream) -> Seq<char>
    decreases lines.len(),
{
    if lines.len() == 0 {
        Seq::empty()
    } else {
        let rest = spec_stream_text(lines.subrange(1, lines.len() as int), stream);
        if lines[0].stream == stream {
            lines[0].text@ + "\n"@ + rest
        } else {
            rest
        }
    }
}

impl Execution {
    /// The newline-joined text of one stream of this execution's lines.
    pub fn stream_text(&self, stream: Stream) -> (r: String)
        ensures
            r@ == spec_stream_text(self.lines@, stream),
    {
        let mut out = String::new();
        let n = self.lines.len();
        let mut i: usize = 0;
        proof {
            assert(self.lines@.subrange(0, n as int) =~= self.lines@);
        }
        while i < n
            invariant
                i <= n,
                n == self.lines@.len(),
                spec_stream_text(self.lines@, stream) == out@
                    + spec_stream_text(self.lines@.subrange(i as int, n as int), stream),
            decreases n - i,
        {
            let ghost rest = self.lines@.subrange(i as int, n as int);
            proof {
                assert(rest[0] == self.lines@[i as int]);
                assert(rest.subrange(1, rest.len() as int)
                    =~= self.lines@.subrange(i + 1, n as int));
            }
            let same = match (&self.lines[i].stream, &stream) {
                (Stream::Stdout, Stream::Stdout) => true,
                (Stream::Stderr, Stream::Stderr) => true,
                _ => false,
            };
            if same {
                out.append(self.lines[i].text.as_str());
                out.append("\n");
            }
            i = i + 1;
        }
        proof {
            assert(spec_stream_text(self.lines@.subrange(n as int, n as int), stream)
                =~= Seq::<char>::empty());
            assert(out@ =~= spec_stream_text(self.lines@, stream));
        }
        out
    }

    /// The status label of the result: `completed`, `error` or `timeout`.
    pub fn status_label(&self) -> (r: &'static str)
        ensures
            self.status is Done ==> r@ == "completed"@,
            self.status is Failed ==> r@ == "error"@,
            self.status is TimedOut ==> r@ == "timeout"@,
    {
        match &self.status {
            ExecStatus::Done => "completed",
            ExecStatus::Failed { .. } => "error",
            ExecStatus::TimedOut { .. } => "timeout",
        }
    }

    /// Whether the evaluation ended in anything but completion.
    pub fn has_error(&self) -> (r: bool)
        ensures
            r == !(self.status is Done),
    {
        match &self.status {
            ExecStatus::Done => false,
            _ => true,
        }
    }
}

} // verus!
