//! What a `bash` call reports, and what it streams and keeps.
use vstd::prelude::*;
use vstd::string::*;

use crate::journal::JournalEventKind;
use crate::output::capped;
use crate::text::{blank, decimal, signed_decimal, trimmed_end};
use crate::tools::bash::{
    bash_outcome, exit_text, group_after_all, is_stream_event, lossy_text, partial_text, retained,
    stream_state, stream_text, takes_in, BashEnd, BashOutput, BashStep, NO_OUTPUT,
    RETAINED_CAPPED, STREAM_CAPPED,
};

verus! {

/// Behind its code a report holds the output of the command: stdout, and where
/// there is any, stderr under its heading.
pub open spec fn reported_streams(stdout: Seq<u8>, stderr: Seq<u8>) -> Seq<char> {
    if stderr.len() == 0 {
        lossy_text(stdout)
    } else {
        lossy_text(stdout) + "[stderr]\n"@ + lossy_text(stderr)
    }
}

/// A command that ended is reported by its code and by both of its streams,
/// whichever code it is; one that a signal ended has the code -1.
pub proof fn law_every_exit_reports_both_streams(
    command: Seq<char>,
    output: BashOutput,
    code: Option<i32>,
)
    requires
        !blank(command),
    ensures
        bash_outcome(command, output, BashEnd::Exited(code)) == Ok::<Seq<char>, Seq<char>>(
            capped(
                "exit code: "@ + signed_decimal(
                    if code is Some {
                        code->0 as int
                    } else {
                        -1
                    },
                ) + "\n"@ + reported_streams(output.stdout@, output.stderr@),
            ),
        ),
{
    let head = "exit code: "@ + signed_decimal(
        if code is Some {
            code->0 as int
        } else {
            -1
        },
    ) + "\n"@;
    let stdout = lossy_text(output.stdout@);
    let stderr = lossy_text(output.stderr@);
    if output.stderr@.len() == 0 {
        assert(exit_text(code, stdout, None) =~= head + stdout);
    } else {
        assert(exit_text(code, stdout, Some(stderr)) =~= head + (stdout + "[stderr]\n"@ + stderr));
    }
}

/// Two reports of the same streams differ in nothing but the code.
pub proof fn law_reports_differ_in_the_code_alone(
    a: Option<i32>,
    b: Option<i32>,
    stdout: Seq<char>,
    stderr: Option<Seq<char>>,
)
    requires
        a is Some,
        b is Some,
    ensures
        exists|streams: Seq<char>|
            exit_text(a, stdout, stderr) == "exit code: "@ + signed_decimal(a->0 as int) + "\n"@
                + streams && exit_text(b, stdout, stderr) == #[trigger] ("exit code: "@
                + signed_decimal(b->0 as int) + "\n"@ + streams),
        stderr matches Some(text) ==> forall|i: int|
            0 <= i < text.len() ==> exit_text(a, stdout, stderr)[exit_text(a, stdout, stderr).len()
                - text.len() + i] == #[trigger] text[i],
{
    let streams = stdout + (match stderr {
        Some(text) => "[stderr]\n"@ + text,
        None => Seq::empty(),
    });
    assert(exit_text(a, stdout, stderr) =~= "exit code: "@ + signed_decimal(a->0 as int) + "\n"@
        + streams);
    assert(exit_text(b, stdout, stderr) =~= "exit code: "@ + signed_decimal(b->0 as int) + "\n"@
        + streams);
}

/// A command that ran out of time is an error: it names the time and the
/// command, and reports what either stream had put out.
pub proof fn law_timeouts_report_what_there_was(
    command: Seq<char>,
    output: BashOutput,
    secs: u64,
)
    requires
        !blank(command),
    ensures
        ({
            let stdout = lossy_text(output.stdout@);
            let stderr = lossy_text(output.stderr@);
            let out = "[partial output]\n"@ + trimmed_end(stdout) + "\n"@;
            let err = "[partial stderr]\n"@ + trimmed_end(stderr) + "\n"@;
            let note = if output.truncated {
                RETAINED_CAPPED@
            } else {
                Seq::empty()
            };
            bash_outcome(command, output, BashEnd::TimedOut { secs }) == Err::<
                Seq<char>,
                Seq<char>,
            >(
                "command timed out after "@ + decimal(secs as nat) + "s: "@ + command + "\n"@ + (
                if blank(stdout) && blank(stderr) {
                    NO_OUTPUT@
                } else if blank(stderr) {
                    out + note
                } else if blank(stdout) {
                    err + note
                } else {
                    out + err + note
                }),
            )
        }),
{
    let stdout = lossy_text(output.stdout@);
    let stderr = lossy_text(output.stderr@);
    let out = "[partial output]\n"@ + trimmed_end(stdout) + "\n"@;
    let err = "[partial stderr]\n"@ + trimmed_end(stderr) + "\n"@;
    let note = if output.truncated {
        RETAINED_CAPPED@
    } else {
        Seq::empty()
    };
    let told = partial_text(stdout, stderr, output.truncated);
    if !blank(stdout) || !blank(stderr) {
        if blank(stderr) {
            assert(told =~= out + note);
        } else if blank(stdout) {
            assert(told =~= err + note);
        } else {
            assert(told =~= out + err + note);
        }
    }
}

/// A blank command is refused, and a command that could not be run says why.
pub proof fn law_failed_commands_say_why(command: Seq<char>, output: BashOutput, end: BashEnd)
    ensures
        blank(command) ==> bash_outcome(command, output, end) == Err::<Seq<char>, Seq<char>>(
            "command must not be empty"@,
        ),
        !blank(command) ==> (end matches BashEnd::SpawnFailed(e) ==> bash_outcome(
            command,
            output,
            end,
        ) == Err::<Seq<char>, Seq<char>>("failed to spawn sh: "@ + e@)),
        !blank(command) ==> (end matches BashEnd::WaitFailed(e) ==> bash_outcome(
            command,
            output,
            end,
        ) == Err::<Seq<char>, Seq<char>>("failed to wait for command: "@ + e@)),
{
}

/// All of a stream is kept up to the first megabyte, in its order.
pub proof fn law_all_that_fits_is_kept(buf: Seq<u8>, chunk: Seq<u8>)
    requires
        buf.len() <= 1048576,
    ensures
        ({
            let kept = retained(buf, chunk);
            &&& kept.len() == (if buf.len() + chunk.len() <= 1048576 {
                buf.len() + chunk.len()
            } else {
                1048576
            })
            &&& forall|i: int| 0 <= i < buf.len() ==> kept[i] == #[trigger] buf[i]
            &&& forall|i: int|
                0 <= i < chunk.len() && buf.len() + i < kept.len() ==> kept[buf.len() + i]
                    == #[trigger] chunk[i]
        }),
{
}

/// Every chunk is streamed as it is until ten megabytes have gone out; then one
/// marker, and nothing behind it.
pub proof fn law_chunks_stream_up_to_the_budget(streamed: int, stream_capped: bool, chunk: Seq<u8>)
    ensures
        streamed < 10485760 ==> stream_text(streamed, stream_capped, chunk) == Some(
            lossy_text(chunk),
        ),
        streamed >= 10485760 && !stream_capped ==> stream_text(streamed, stream_capped, chunk)
            == Some(STREAM_CAPPED@),
        streamed >= 10485760 && stream_capped ==> stream_text(streamed, stream_capped, chunk)
            is None,
{
}

/// A streamed chunk is shown under its call and under the name of the tool.
pub proof fn law_chunks_belong_to_their_call(
    kind: JournalEventKind,
    id: Seq<char>,
    text: Seq<char>,
)
    requires
        is_stream_event(kind, id, text),
    ensures
        kind is ToolOutputDelta,
        kind->ToolOutputDelta_id@ == id,
        kind->ToolOutputDelta_name@ == "bash"@,
        kind->ToolOutputDelta_output@ == text,
{
}

/// What counts against the budget is what was streamed: every chunk by its
/// length until the budget is used up, and nothing behind that.
pub proof fn law_the_budget_counts_every_chunk(chunks: Seq<Seq<u8>>, chunk: Seq<u8>)
    ensures
        stream_state(Seq::empty()) == (0int, false),
        stream_state(chunks).0 < 10485760 ==> stream_state(chunks.push(chunk)) == (
            stream_state(chunks).0 + chunk.len(),
            stream_state(chunks).1,
        ),
        stream_state(chunks).0 >= 10485760 ==> stream_state(chunks.push(chunk)) == (
            stream_state(chunks).0,
            true,
        ),
{
    assert(chunks.push(chunk).drop_last() =~= chunks);
}

/// The group of a command is known from its start until it has ended.
pub proof fn law_the_group_is_known_while_it_runs(steps: Seq<BashStep>, pgid: Option<u32>)
    ensures
        group_after_all(steps.push(BashStep::Started(pgid))) == pgid,
        group_after_all(steps.push(BashStep::Ended)) is None,
        group_after_all(Seq::empty()) is None,
{
    assert(steps.push(BashStep::Started(pgid)).last() == BashStep::Started(pgid));
    assert(steps.push(BashStep::Ended).last() == BashStep::Ended);
}

/// A chunk goes to the stream that it came from, behind what that stream holds,
/// and leaves the other stream alone. The output counts as cut once a stream has
/// reached the cap, and stays so.
pub proof fn law_a_chunk_goes_to_its_own_stream(
    before: BashOutput,
    from_stdout: bool,
    chunk: Seq<u8>,
    after: BashOutput,
)
    requires
        takes_in(before, from_stdout, chunk, after),
    ensures
        from_stdout ==> after.stderr@ == before.stderr@,
        !from_stdout ==> after.stdout@ == before.stdout@,
        from_stdout && before.stdout@.len() + chunk.len() <= 1048576 ==> after.stdout@
            == before.stdout@ + chunk,
        !from_stdout && before.stderr@.len() + chunk.len() <= 1048576 ==> after.stderr@
            == before.stderr@ + chunk,
        from_stdout && before.stdout@.len() + chunk.len() > 1048576 ==> after.stdout@ == (
        before.stdout@ + chunk).take(1048576),
        !from_stdout && before.stderr@.len() + chunk.len() > 1048576 ==> after.stderr@ == (
        before.stderr@ + chunk).take(1048576),
        before.truncated ==> after.truncated,
        !before.truncated && from_stdout ==> (after.truncated <==> before.stdout@.len()
            + chunk.len() >= 1048576),
        !before.truncated && !from_stdout ==> (after.truncated <==> before.stderr@.len()
            + chunk.len() >= 1048576),
        before.streamed < 10485760 ==> after.streamed == before.streamed + chunk.len()
            && after.stream_capped == before.stream_capped,
        before.streamed >= 10485760 ==> after.streamed == before.streamed && after.stream_capped,
{
}

} // verus!
