//! `bash`: what becomes of a command's output and of its end.
//!
//! The caller runs the command and hands over each chunk of output and, at
//! the end, how the command ended.
use vstd::prelude::*;
use vstd::string::*;
use vstd::utf8::*;

use crate::journal::JournalEventKind;
use crate::output::{cap_output, capped, OUTPUT_CAP};
use crate::text::{
    blank, cat2, cat3, cat5, decimal, decimal_text, is_blank, signed_decimal, signed_decimal_text,
    trim_end, trimmed_end,
};
use crate::tools::fs::result_text;
use crate::tools::TOOL_BASH;

verus! {

/// The largest chunk of output.
pub const CHUNK_SIZE: usize = 8192;

/// How many bytes of a command's output are streamed to the journal before a
/// single marker replaces the rest.
pub const DELTA_STREAM_CAP: usize = 10485760;

/// The seconds a command may run.
pub const DEFAULT_TIMEOUT_SECS: u64 = 120;

/// The marker that replaces the rest of the stream.
pub const STREAM_CAPPED: &'static str = "\n[output capped at 10 MB — further output is suppressed]\n";

/// The refusal of a blank command.
pub const EMPTY_COMMAND: &'static str = "command must not be empty";

/// The hint for a command that timed out without output.
pub const NO_OUTPUT: &'static str = "(no output was received — the command may be buffering through \
             `tail`/`head` or hung before producing output; run long builds \
             with `nohup ... > log 2>&1 &` and poll the log instead)";

/// The note on output beyond the cap.
pub const RETAINED_CAPPED: &'static str = "[output capped at 1 MB — the live UI stream continues]\n";

// ---------------------------------------------------------------------------
// Bytes as text
// ---------------------------------------------------------------------------

/// Bytes as text, with replacement characters for what is not UTF-8.
pub uninterp spec fn lossy_text(bytes: Seq<u8>) -> Seq<char>;

/// Valid UTF-8 reads as the text that it encodes.
pub open spec fn reads_as_encoded(bytes: Seq<u8>) -> bool {
    valid_utf8(bytes) ==> lossy_text(bytes) == decode_utf8(bytes)
}

/// Calls `String::from_utf8_lossy`. Taken on trust: the text depends on the
/// bytes alone, and valid UTF-8 gives the text that it encodes.
#[verifier::external_body]
fn lossy(bytes: &Vec<u8>) -> (r: String)
    ensures
        r@ == lossy_text(bytes@),
        valid_utf8(bytes@) ==> r@ == decode_utf8(bytes@),
{
    String::from_utf8_lossy(bytes).into_owned()
}

// ---------------------------------------------------------------------------
// The running command
// ---------------------------------------------------------------------------

/// What a running command has put out so far.
#[derive(Debug, Clone, PartialEq, Eq)]
pub struct BashOutput {
    /// The first bytes of stdout, up to the cap.
    pub stdout: Vec<u8>,
    /// The first bytes of stderr, up to the cap.
    pub stderr: Vec<u8>,
    /// One of the two reached the cap.
    pub truncated: bool,
    /// How many bytes were streamed.
    pub streamed: usize,
    /// The marker went out in place of the rest of the stream.
    pub stream_capped: bool,
}

/// What is kept of a stream: its first bytes, up to the cap.
pub open spec fn retained(buf: Seq<u8>, chunk: Seq<u8>) -> Seq<u8> {
    let all = buf + chunk;
    if all.len() > OUTPUT_CAP {
        all.take(OUTPUT_CAP as int)
    } else {
        all
    }
}

/// The text that a chunk adds to the live stream: the chunk itself below the
/// budget, then a single marker, then nothing.
pub open spec fn stream_text(streamed: int, stream_capped: bool, chunk: Seq<u8>) -> Option<
    Seq<char>,
> {
    if streamed < DELTA_STREAM_CAP {
        Some(lossy_text(chunk))
    } else if !stream_capped {
        Some(STREAM_CAPPED@)
    } else {
        None
    }
}

/// The event that streams a text of the call `id`.
pub open spec fn is_stream_event(kind: JournalEventKind, id: Seq<char>, text: Seq<char>) -> bool {
    kind matches JournalEventKind::ToolOutputDelta { id: i, name, output } && i@ == id && name@
        == TOOL_BASH@ && output@ == text
}

/// Keeping two chunks one after the other is keeping them as one: what is kept
/// is the beginning of the whole stream.
pub proof fn law_retained_is_the_beginning(buf: Seq<u8>, a: Seq<u8>, b: Seq<u8>)
    ensures
        retained(retained(buf, a), b) == retained(buf, a + b),
{
    assert(retained(retained(buf, a), b) =~= retained(buf, a + b));
}

/// What is kept never exceeds the cap.
pub proof fn law_retained_is_bounded(buf: Seq<u8>, chunk: Seq<u8>)
    ensures
        retained(buf, chunk).len() <= OUTPUT_CAP,
{
}

/// The live stream after some chunks: how many bytes went out, and whether the
/// marker did.
pub open spec fn stream_state(chunks: Seq<Seq<u8>>) -> (int, bool)
    decreases chunks.len(),
{
    if chunks.len() == 0 {
        (0, false)
    } else {
        let (streamed, capped) = stream_state(chunks.drop_last());
        if streamed < DELTA_STREAM_CAP {
            (streamed + chunks.last().len(), capped)
        } else {
            (streamed, true)
        }
    }
}

/// The live stream is bounded: it ends with the chunk that uses its budget up.
pub proof fn law_live_stream_is_bounded(chunks: Seq<Seq<u8>>)
    requires
        forall|i: int| 0 <= i < chunks.len() ==> (#[trigger] chunks[i]).len() <= CHUNK_SIZE,
    ensures
        0 <= stream_state(chunks).0 < DELTA_STREAM_CAP + CHUNK_SIZE,
    decreases chunks.len(),
{
    if chunks.len() > 0 {
        let d = chunks.drop_last();
        assert forall|i: int| 0 <= i < d.len() implies (#[trigger] d[i]).len() <= CHUNK_SIZE by {
            assert(d[i] == chunks[i]);
        }
        assert(chunks[chunks.len() - 1].len() <= CHUNK_SIZE);
        law_live_stream_is_bounded(d);
    }
}

/// One marker stands for everything beyond the budget: behind the first chunk
/// that is suppressed, nothing streams any more.
pub proof fn law_the_marker_goes_out_once(chunks: Seq<Seq<u8>>, i: int, j: int)
    requires
        0 <= i < j < chunks.len(),
        stream_state(chunks.take(i)).0 >= DELTA_STREAM_CAP,
    ensures
        stream_text(
            stream_state(chunks.take(j)).0,
            stream_state(chunks.take(j)).1,
            chunks[j],
        ) is None,
    decreases j,
{
    assert(chunks.take(j).drop_last() =~= chunks.take(j - 1));
    if i < j - 1 {
        law_the_marker_goes_out_once(chunks, i, j - 1);
    }
}

fn retain(buf: &mut Vec<u8>, chunk: &Vec<u8>) -> (r: bool)
    requires
        old(buf)@.len() <= OUTPUT_CAP,
    ensures
        final(buf)@ == retained(old(buf)@, chunk@),
        final(buf)@.len() <= OUTPUT_CAP,
        r == (old(buf)@.len() + chunk@.len() >= OUTPUT_CAP),
{
    let ghost before = buf@;
    let room: usize = OUTPUT_CAP - buf.len();
    let n: usize = if chunk.len() < room {
        chunk.len()
    } else {
        room
    };
    let mut i: usize = 0;
    assert(buf@ =~= before + chunk@.take(0));
    while i < n
        invariant
            i <= n <= chunk.len(),
            buf@ == before + chunk@.take(i as int),
        decreases n - i,
    {
        buf.push(chunk[i]);
        i = i + 1;
        assert(buf@ =~= before + chunk@.take(i as int));
    }
    assert(buf@ =~= retained(before, chunk@));
    chunk.len() >= room
}

/// What a chunk does to the output of a command: its own stream keeps what
/// fits, and the budget of the live stream is used up.
pub open spec fn takes_in(
    before: BashOutput,
    from_stdout: bool,
    chunk: Seq<u8>,
    after: BashOutput,
) -> bool {
    &&& after.streamed == (if before.streamed < DELTA_STREAM_CAP {
        before.streamed + chunk.len()
    } else {
        before.streamed as int
    })
    &&& after.stream_capped == (before.stream_capped || before.streamed >= DELTA_STREAM_CAP)
    &&& after.stdout@ == (if from_stdout {
        retained(before.stdout@, chunk)
    } else {
        before.stdout@
    })
    &&& after.stderr@ == (if from_stdout {
        before.stderr@
    } else {
        retained(before.stderr@, chunk)
    })
    &&& after.truncated == (before.truncated || (if from_stdout {
        before.stdout@.len()
    } else {
        before.stderr@.len()
    }) + chunk.len() >= OUTPUT_CAP)
}

impl BashOutput {
    /// The output stays within its bounds.
    pub open spec fn wf(self) -> bool {
        self.stdout@.len() <= OUTPUT_CAP && self.stderr@.len() <= OUTPUT_CAP && self.streamed
            < DELTA_STREAM_CAP + CHUNK_SIZE
    }

    /// Nothing has been put out.
    pub fn new() -> (r: BashOutput)
        ensures
            r.wf(),
            r.stdout@ == Seq::<u8>::empty(),
            r.stderr@ == Seq::<u8>::empty(),
            !r.truncated,
            r.streamed == 0,
            !r.stream_capped,
            stream_state(Seq::empty()) == (r.streamed as int, r.stream_capped),
    {
        BashOutput {
            stdout: Vec::new(),
            stderr: Vec::new(),
            truncated: false,
            streamed: 0,
            stream_capped: false,
        }
    }

    /// Takes in a chunk of stdout or stderr. Returns the event to journal.
    pub fn on_chunk(&mut self, from_stdout: bool, chunk: &Vec<u8>, tool_call_id: &str) -> (r:
        Option<JournalEventKind>)
        requires
            old(self).wf(),
            chunk@.len() <= CHUNK_SIZE,
        ensures
            final(self).wf(),
            match r {
                Some(kind) => stream_text(
                    old(self).streamed as int,
                    old(self).stream_capped,
                    chunk@,
                ) matches Some(text) && is_stream_event(kind, tool_call_id@, text),
                None => stream_text(
                    old(self).streamed as int,
                    old(self).stream_capped,
                    chunk@,
                ) is None,
            },
            takes_in(*old(self), from_stdout, chunk@, *final(self)),
            forall|chunks: Seq<Seq<u8>>| #[trigger]
                stream_state(chunks) == (old(self).streamed as int, old(self).stream_capped)
                    ==> stream_state(chunks.push(chunk@)) == (
                    final(self).streamed as int,
                    final(self).stream_capped,
                ),
            old(self).streamed < DELTA_STREAM_CAP ==> reads_as_encoded(chunk@),
    {
        let event = if self.streamed < DELTA_STREAM_CAP {
            self.streamed = self.streamed + chunk.len();
            Some(
                JournalEventKind::ToolOutputDelta {
                    id: tool_call_id.to_owned(),
                    name: TOOL_BASH.to_owned(),
                    output: lossy(chunk),
                },
            )
        } else if !self.stream_capped {
            self.stream_capped = true;
            Some(
                JournalEventKind::ToolOutputDelta {
                    id: tool_call_id.to_owned(),
                    name: TOOL_BASH.to_owned(),
                    output: STREAM_CAPPED.to_owned(),
                },
            )
        } else {
            None
        };
        let full = if from_stdout {
            retain(&mut self.stdout, chunk)
        } else {
            retain(&mut self.stderr, chunk)
        };
        if full {
            self.truncated = true;
        }
        proof {
            assert forall|chunks: Seq<Seq<u8>>| #[trigger]
                stream_state(chunks) == (
                old(self).streamed as int,
                old(self).stream_capped,
            ) implies stream_state(chunks.push(chunk@)) == (
                self.streamed as int,
                self.stream_capped,
            ) by {
                assert(chunks.push(chunk@).drop_last() =~= chunks);
                assert(chunks.push(chunk@).last() == chunk@);
            }
        }
        event
    }
}

// ---------------------------------------------------------------------------
// The end of the command
// ---------------------------------------------------------------------------

/// How a command ended.
#[derive(Debug, Clone, PartialEq, Eq)]
pub enum BashEnd {
    /// The shell could not be started.
    SpawnFailed(String),
    /// The command ran out of time, and its process group was killed.
    TimedOut { secs: u64 },
    /// The command could not be waited for.
    WaitFailed(String),
    /// The command ended, with a code unless a signal ended it.
    Exited(Option<i32>),
}

/// A stream of a command that timed out: its heading and its text, unless it
/// is blank.
pub open spec fn partial_stream(heading: Seq<char>, text: Seq<char>) -> Seq<char> {
    if blank(text) {
        Seq::empty()
    } else {
        heading + trimmed_end(text) + "\n"@
    }
}

/// What a command put out before it timed out.
pub open spec fn partial_text(stdout: Seq<char>, stderr: Seq<char>, truncated: bool) -> Seq<char> {
    if blank(stdout) && blank(stderr) {
        NO_OUTPUT@
    } else {
        partial_stream("[partial output]\n"@, stdout) + partial_stream(
            "[partial stderr]\n"@,
            stderr,
        ) + (if truncated {
            RETAINED_CAPPED@
        } else {
            Seq::empty()
        })
    }
}

/// What a command that ended put out: its code, stdout, and stderr if any.
pub open spec fn exit_text(code: Option<i32>, stdout: Seq<char>, stderr: Option<Seq<char>>) -> Seq<
    char,
> {
    "exit code: "@ + signed_decimal(
        match code {
            Some(c) => c as int,
            None => -1,
        },
    ) + "\n"@ + stdout + (match stderr {
        Some(text) => "[stderr]\n"@ + text,
        None => Seq::empty(),
    })
}

/// What a `bash` call returns.
pub open spec fn bash_outcome(command: Seq<char>, output: BashOutput, end: BashEnd) -> Result<
    Seq<char>,
    Seq<char>,
> {
    let stdout = lossy_text(output.stdout@);
    let stderr = lossy_text(output.stderr@);
    if blank(command) {
        Err(EMPTY_COMMAND@)
    } else {
        match end {
            BashEnd::SpawnFailed(e) => Err("failed to spawn sh: "@ + e@),
            BashEnd::WaitFailed(e) => Err("failed to wait for command: "@ + e@),
            BashEnd::TimedOut { secs } => Err(
                "command timed out after "@ + decimal(secs as nat) + "s: "@ + command + "\n"@
                    + partial_text(stdout, stderr, output.truncated),
            ),
            BashEnd::Exited(code) => Ok(
                capped(
                    exit_text(
                        code,
                        stdout,
                        if output.stderr@.len() == 0 {
                            None
                        } else {
                            Some(stderr)
                        },
                    ),
                ),
            ),
        }
    }
}

/// Whether a command can be run: it is not blank.
pub fn check_command(command: &str) -> (r: Result<(), String>)
    ensures
        match r {
            Ok(()) => !blank(command@),
            Err(e) => blank(command@) && e@ == EMPTY_COMMAND@,
        },
{
    if is_blank(command) {
        Err(EMPTY_COMMAND.to_owned())
    } else {
        Ok(())
    }
}

/// What a command put out before it timed out, or a hint where it put out
/// nothing.
pub fn partial_output(stdout: &str, stderr: &str, truncated: bool) -> (r: String)
    ensures
        r@ == partial_text(stdout@, stderr@, truncated),
{
    let no_stdout = is_blank(stdout);
    let no_stderr = is_blank(stderr);
    if no_stdout && no_stderr {
        return NO_OUTPUT.to_owned();
    }
    let mut out = String::new();
    assert(out@ =~= Seq::<char>::empty());
    if !no_stdout {
        out.append("[partial output]\n");
        out.append(trim_end(stdout));
        out.append("\n");
    }
    assert(out@ =~= partial_stream("[partial output]\n"@, stdout@));
    if !no_stderr {
        out.append("[partial stderr]\n");
        out.append(trim_end(stderr));
        out.append("\n");
    }
    assert(out@ =~= partial_stream("[partial output]\n"@, stdout@) + partial_stream(
        "[partial stderr]\n"@,
        stderr@,
    ));
    if truncated {
        out.append(RETAINED_CAPPED);
    }
    assert(out@ =~= partial_text(stdout@, stderr@, truncated));
    out
}

/// What a command that ended put out.
pub fn exit_output(code: Option<i32>, stdout: &str, stderr: Option<&str>) -> (r: String)
    ensures
        r@ == exit_text(
            code,
            stdout@,
            match stderr {
                Some(text) => Some(text@),
                None => None,
            },
        ),
{
    let code: i32 = match code {
        Some(c) => c,
        None => -1,
    };
    let mut text = crate::text::cat4(
        "exit code: ",
        signed_decimal_text(code).as_str(),
        "\n",
        stdout,
    );
    if let Some(err) = stderr {
        let before = text;
        text = cat3(before.as_str(), "[stderr]\n", err);
        assert(text@ =~= before@ + ("[stderr]\n"@ + err@));
    } else {
        assert(text@ + Seq::<char>::empty() =~= text@);
    }
    text
}

/// What a `bash` call returns: the output capped, or why there is none. A
/// command that timed out reports what it had put out.
pub fn bash(command: &str, output: &BashOutput, end: &BashEnd) -> (r: Result<String, String>)
    ensures
        result_text(r) == bash_outcome(command@, *output, *end),
        !blank(command@) && (end is Exited || end is TimedOut) ==> reads_as_encoded(output.stdout@),
        !blank(command@) && (end is Exited && output.stderr@.len() > 0 || end is TimedOut)
            ==> reads_as_encoded(output.stderr@),
{
    if let Err(e) = check_command(command) {
        return Err(e);
    }
    match end {
        BashEnd::SpawnFailed(e) => Err(cat2("failed to spawn sh: ", e.as_str())),
        BashEnd::WaitFailed(e) => Err(cat2("failed to wait for command: ", e.as_str())),
        BashEnd::TimedOut { secs } => {
            let stdout = lossy(&output.stdout);
            let stderr = lossy(&output.stderr);
            let mut text = cat5(
                "command timed out after ",
                decimal_text(*secs).as_str(),
                "s: ",
                command,
                "\n",
            );
            text.append(
                partial_output(stdout.as_str(), stderr.as_str(), output.truncated).as_str(),
            );
            Err(text)
        },
        BashEnd::Exited(code) => {
            let stdout = lossy(&output.stdout);
            let text = if output.stderr.len() == 0 {
                exit_output(*code, stdout.as_str(), None)
            } else {
                let stderr = lossy(&output.stderr);
                exit_output(*code, stdout.as_str(), Some(stderr.as_str()))
            };
            Ok(cap_output(text.as_str()))
        },
    }
}

// ---------------------------------------------------------------------------
// The process group of the running command
// ---------------------------------------------------------------------------

/// The process group of the running command, if any: a cancel stops it.
#[derive(Debug, Clone, Copy, PartialEq, Eq, Structural)]
pub struct ActiveBash {
    pub pgid: Option<u32>,
}

/// The process group of the running command, if any.
pub fn active_bash_pgid(active: &ActiveBash) -> (r: Option<u32>)
    ensures
        r == active.pgid,
{
    active.pgid
}

/// Notes the process group of a command that starts, or that none runs.
pub fn set_active_bash_pgid(active: &mut ActiveBash, pgid: Option<u32>)
    ensures
        final(active).pgid == group_after(BashStep::Started(pgid)),
        final(active).pgid == pgid,
{
    active.pgid = pgid;
}

/// Notes that a command ended, in whichever way.
pub fn bash_ended(active: &mut ActiveBash)
    ensures
        final(active).pgid == group_after(BashStep::Ended),
        final(active).pgid is None,
{
    set_active_bash_pgid(active, None);
}

/// What happens to the commands of a worker.
pub enum BashStep {
    /// A command starts, in this process group.
    Started(Option<u32>),
    /// A command ends.
    Ended,
}

/// The noted process group after a step.
pub open spec fn group_after(step: BashStep) -> Option<u32> {
    match step {
        BashStep::Started(pgid) => pgid,
        BashStep::Ended => None,
    }
}

/// The noted process group after some steps, none at first.
pub open spec fn group_after_all(steps: Seq<BashStep>) -> Option<u32> {
    if steps.len() == 0 {
        None
    } else {
        group_after(steps.last())
    }
}

/// The noted process group never outlives its command: it is that of a command
/// behind whose start nothing has ended, and once a command has ended and none
/// has started since, none is noted.
pub proof fn law_group_does_not_outlive_its_command(steps: Seq<BashStep>)
    ensures
        group_after_all(steps) matches Some(pgid) ==> exists|i: int|
            0 <= i < steps.len() && #[trigger] steps[i] == BashStep::Started(Some(pgid)) && forall|
                j: int,
            | i < j < steps.len() ==> !((#[trigger] steps[j]) is Ended),
        steps.len() > 0 && steps.last() is Ended ==> group_after_all(steps) is None,
{
    if steps.len() > 0 {
        let n = steps.len() - 1;
        assert(steps[n] == steps.last());
        if let Some(pgid) = group_after_all(steps) {
            assert(steps[n] == BashStep::Started(Some(pgid)));
        }
    }
}

} // verus!
