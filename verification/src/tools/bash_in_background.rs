//! `bash_in_background`: long-lived commands, tracked so that later calls can
//! query or stop them.
//!
//! The caller starts, polls and signals the processes; this module keeps the
//! table of jobs and decides what the model is told.
use vstd::prelude::*;
use vstd::string::*;

use crate::ids::{is_uuid, new_uuid};
use crate::text::{
    blank, cat2, cat3, cat4, cat5, decimal, decimal_text, is_blank, opt_text, same_text,
    signed_decimal, signed_decimal_text,
};
use crate::tools::bash::EMPTY_COMMAND;
use crate::tools::fs::result_text;

verus! {

/// How a process ended.
#[derive(Debug, Clone, PartialEq, Eq)]
pub enum Exit {
    /// With this code.
    Code(i32),
    /// By a signal, as the system words it.
    Signal(String),
}

/// What polling a process gave.
#[derive(Debug, Clone, PartialEq, Eq)]
pub enum Poll {
    Running,
    Exited(Exit),
    Failed(String),
}

/// A tracked job.
#[derive(Debug, Clone, PartialEq, Eq)]
pub struct BackgroundJob {
    /// The id that the model knows the job by.
    pub id: String,
    /// The process group of the command.
    pub pgid: u32,
    /// How the command ended, once that is known.
    pub finished: Option<Exit>,
}

/// The jobs of a worker.
#[derive(Debug, Clone, PartialEq, Eq)]
pub struct Jobs {
    pub jobs: Vec<BackgroundJob>,
}

/// What a `bash_in_background` call asks for.
#[derive(Debug, Clone, PartialEq, Eq)]
pub enum BackgroundRequest {
    Run(String),
    Status(String),
    Kill(String),
}

/// What a kill comes to: the reply, and the process group to signal, if any.
#[derive(Debug, Clone, PartialEq, Eq)]
pub struct KillReply {
    pub signal: Option<u32>,
    pub reply: String,
}

/// How a process ended, in words.
pub open spec fn exit_words(exit: Exit) -> Seq<char> {
    match exit {
        Exit::Code(code) => "exited with code "@ + signed_decimal(code as int),
        Exit::Signal(status) => "terminated by "@ + status@,
    }
}

/// How a process ended, in words.
pub fn describe_exit(exit: &Exit) -> (r: String)
    ensures
        r@ == exit_words(*exit),
{
    match exit {
        Exit::Code(code) => cat2("exited with code ", signed_decimal_text(*code).as_str()),
        Exit::Signal(status) => cat2("terminated by ", status.as_str()),
    }
}

fn copy_exit(exit: &Exit) -> (r: Exit)
    ensures
        r == *exit,
{
    match exit {
        Exit::Code(code) => Exit::Code(*code),
        Exit::Signal(status) => Exit::Signal(status.clone()),
    }
}

// ---------------------------------------------------------------------------
// The table
// ---------------------------------------------------------------------------

/// The job with this id.
pub open spec fn job_with(jobs: Seq<BackgroundJob>, id: Seq<char>) -> Option<BackgroundJob>
    decreases jobs.len(),
{
    if jobs.len() == 0 {
        None
    } else if jobs[0].id@ == id {
        Some(jobs[0])
    } else {
        job_with(jobs.drop_first(), id)
    }
}

/// No id occurs twice.
pub open spec fn distinct_ids(jobs: Seq<BackgroundJob>) -> bool {
    forall|i: int, j: int|
        0 <= i < j < jobs.len() ==> (#[trigger] jobs[i]).id@ != (#[trigger] jobs[j]).id@
}

proof fn lemma_job_at(jobs: Seq<BackgroundJob>, i: int, id: Seq<char>)
    requires
        0 <= i < jobs.len(),
        jobs[i].id@ == id,
        forall|k: int| 0 <= k < i ==> (#[trigger] jobs[k]).id@ != id,
    ensures
        job_with(jobs, id) == Some(jobs[i]),
    decreases jobs.len(),
{
    if i > 0 {
        let rest = jobs.drop_first();
        assert(rest[i - 1] == jobs[i]);
        assert forall|k: int| 0 <= k < i - 1 implies (#[trigger] rest[k]).id@ != id by {
            assert(rest[k] == jobs[k + 1]);
        }
        assert(jobs[0].id@ != id);
        lemma_job_at(rest, i - 1, id);
    }
}

proof fn lemma_no_job(jobs: Seq<BackgroundJob>, id: Seq<char>)
    requires
        forall|k: int| 0 <= k < jobs.len() ==> (#[trigger] jobs[k]).id@ != id,
    ensures
        job_with(jobs, id) is None,
    decreases jobs.len(),
{
    if jobs.len() > 0 {
        let rest = jobs.drop_first();
        assert forall|k: int| 0 <= k < rest.len() implies (#[trigger] rest[k]).id@ != id by {
            assert(rest[k] == jobs[k + 1]);
        }
        lemma_no_job(rest, id);
    }
}

/// Changing a job under its id leaves the others as they are.
proof fn lemma_job_changed(
    jobs: Seq<BackgroundJob>,
    i: int,
    job: BackgroundJob,
    other: Seq<char>,
)
    requires
        0 <= i < jobs.len(),
        job.id@ == jobs[i].id@,
        other != job.id@,
    ensures
        job_with(jobs.update(i, job), other) == job_with(jobs, other),
    decreases jobs.len(),
{
    let next = jobs.update(i, job);
    if i > 0 {
        assert(next.drop_first() =~= jobs.drop_first().update(i - 1, job));
        lemma_job_changed(jobs.drop_first(), i - 1, job, other);
    } else {
        assert(next.drop_first() =~= jobs.drop_first());
    }
}

/// Adding a job leaves the others as they are.
proof fn lemma_job_added(jobs: Seq<BackgroundJob>, job: BackgroundJob, other: Seq<char>)
    requires
        other != job.id@,
    ensures
        job_with(jobs.push(job), other) == job_with(jobs, other),
    decreases jobs.len(),
{
    let next = jobs.push(job);
    if jobs.len() > 0 {
        assert(next.drop_first() =~= jobs.drop_first().push(job));
        lemma_job_added(jobs.drop_first(), job, other);
    } else {
        assert(next.drop_first() =~= jobs);
        assert(next[0] == job);
        assert(job_with(jobs, other) is None);
    }
}

/// The table with this job under its id, and the others as they are.
pub open spec fn put(
    before: Seq<BackgroundJob>,
    after: Seq<BackgroundJob>,
    job: BackgroundJob,
) -> bool {
    &&& job_with(after, job.id@) == Some(job)
    &&& forall|other: Seq<char>|
        other != job.id@ ==> #[trigger] job_with(after, other) == job_with(before, other)
}

/// What a call does to the table.
pub enum TableChange {
    /// It leaves the table as it is.
    Untouched,
    /// It tracks a new job.
    Added { job: BackgroundJob },
    /// It notes what polling a job gave.
    Noted { id: Seq<char>, poll: Poll },
    /// It notes what polling every job gave.
    Swept { polls: Seq<Poll> },
}

/// The change takes the table from `before` to `after`.
pub open spec fn changes(
    before: Seq<BackgroundJob>,
    change: TableChange,
    after: Seq<BackgroundJob>,
) -> bool {
    match change {
        TableChange::Untouched => after == before,
        TableChange::Added { job } => put(before, after, job),
        TableChange::Noted { id, poll } => match job_with(before, id) {
            Some(job) => put(
                before,
                after,
                BackgroundJob { finished: end_after(job, poll), ..job },
            ),
            None => after == before,
        },
        TableChange::Swept { polls } => polls.len() == before.len() && after == polled(
            before,
            polls,
        ),
    }
}

// ---------------------------------------------------------------------------
// What the calls come to
// ---------------------------------------------------------------------------

/// The request of a call's arguments, or what they lack.
pub open spec fn request_of(
    action: Seq<char>,
    command: Option<Seq<char>>,
    process_id: Option<Seq<char>>,
) -> Result<(Seq<char>, Seq<char>), Seq<char>> {
    if action == "run"@ {
        match command {
            Some(c) => Ok((action, c)),
            None => Err("action `run` requires `command`"@),
        }
    } else if action == "status"@ {
        match process_id {
            Some(id) => Ok((action, id)),
            None => Err("action `status` requires `process_id`"@),
        }
    } else if action == "kill"@ {
        match process_id {
            Some(id) => Ok((action, id)),
            None => Err("action `kill` requires `process_id`"@),
        }
    } else {
        Err("unknown action: "@ + action + " (expected `run`, `kill`, or `status`)"@)
    }
}

/// The action and the argument of a request.
pub open spec fn request_text(request: BackgroundRequest) -> (Seq<char>, Seq<char>) {
    match request {
        BackgroundRequest::Run(command) => ("run"@, command@),
        BackgroundRequest::Status(id) => ("status"@, id@),
        BackgroundRequest::Kill(id) => ("kill"@, id@),
    }
}

/// Sorts out the arguments of a `bash_in_background` call.
pub fn execute(action: &str, command: &Option<String>, process_id: &Option<String>) -> (r: Result<
    BackgroundRequest,
    String,
>)
    ensures
        match r {
            Ok(request) => request_of(action@, opt_text(*command), opt_text(*process_id)) == Ok::<
                (Seq<char>, Seq<char>),
                Seq<char>,
            >(request_text(request)),
            Err(e) => request_of(action@, opt_text(*command), opt_text(*process_id)) == Err::<
                (Seq<char>, Seq<char>),
                Seq<char>,
            >(e@),
        },
{
    if same_text(action, "run") {
        match command {
            Some(c) => Ok(BackgroundRequest::Run(c.clone())),
            None => Err("action `run` requires `command`".to_owned()),
        }
    } else if same_text(action, "status") {
        match process_id {
            Some(id) => Ok(BackgroundRequest::Status(id.clone())),
            None => Err("action `status` requires `process_id`".to_owned()),
        }
    } else if same_text(action, "kill") {
        match process_id {
            Some(id) => Ok(BackgroundRequest::Kill(id.clone())),
            None => Err("action `kill` requires `process_id`".to_owned()),
        }
    } else {
        Err(cat3("unknown action: ", action, " (expected `run`, `kill`, or `status`)"))
    }
}

/// A process id as the model sees it.
pub open spec fn is_process_id(id: Seq<char>) -> bool {
    exists|uuid: Seq<char>| is_uuid(uuid) && id == #[trigger] ("bg-"@ + uuid)
}

/// Why a command was not started; `None` where it runs.
pub open spec fn run_failure(command: Seq<char>, spawned: Result<Option<u32>, String>) -> Option<
    Seq<char>,
> {
    if blank(command) {
        Some(EMPTY_COMMAND@)
    } else {
        match spawned {
            Err(e) => Some("failed to spawn sh: "@ + e@),
            Ok(None) => Some("spawned child has no pid"@),
            Ok(Some(_)) => None,
        }
    }
}

/// The job is unknown.
pub open spec fn unknown_text(id: Seq<char>) -> Seq<char> {
    "unknown background process: "@ + id
}

/// The process is gone.
pub open spec fn gone_text(id: Seq<char>, exit: Exit) -> Seq<char> {
    "process "@ + id + " is not running ("@ + exit_words(exit) + ")"@
}

/// The process was gone before the kill.
pub open spec fn already_gone_text(id: Seq<char>, exit: Exit) -> Seq<char> {
    "process "@ + id + " had already finished ("@ + exit_words(exit) + "); no kill was needed"@
}

/// The process could not be polled.
pub open spec fn poll_failed_text(id: Seq<char>, e: Seq<char>) -> Seq<char> {
    "failed to check background process "@ + id + ": "@ + e
}

/// How the job stands after a poll: the first known end stays.
pub open spec fn end_after(job: BackgroundJob, poll: Poll) -> Option<Exit> {
    match job.finished {
        Some(exit) => Some(exit),
        None => match poll {
            Poll::Exited(exit) => Some(exit),
            _ => None,
        },
    }
}

/// What a status call returns.
pub open spec fn status_outcome(
    job: Option<BackgroundJob>,
    id: Seq<char>,
    poll: Poll,
) -> Result<Seq<char>, Seq<char>> {
    match job {
        None => Err(unknown_text(id)),
        Some(job) => match end_after(job, poll) {
            Some(exit) => Ok(gone_text(id, exit)),
            None => match poll {
                Poll::Failed(e) => Err(poll_failed_text(id, e@)),
                _ => Ok("process "@ + id + " is still running"@),
            },
        },
    }
}

/// What a kill call returns.
pub open spec fn kill_outcome(
    job: Option<BackgroundJob>,
    id: Seq<char>,
    poll: Poll,
) -> Result<(Option<u32>, Seq<char>), Seq<char>> {
    match job {
        None => Err(unknown_text(id)),
        Some(job) => match end_after(job, poll) {
            Some(exit) => Ok((None, already_gone_text(id, exit))),
            None => match poll {
                Poll::Failed(e) => Err(poll_failed_text(id, e@)),
                _ => Ok(
                    (
                        Some(job.pgid),
                        "sent SIGKILL to background process "@ + id + " (pid "@ + decimal(
                            job.pgid as nat,
                        ) + ") and its process group"@,
                    ),
                ),
            },
        },
    }
}

/// The jobs after everything was polled.
pub open spec fn polled(jobs: Seq<BackgroundJob>, polls: Seq<Poll>) -> Seq<BackgroundJob> {
    Seq::new(
        jobs.len(),
        |i: int| BackgroundJob { finished: end_after(jobs[i], polls[i]), ..jobs[i] },
    )
}

/// The process groups of the jobs that have not ended, in order.
pub open spec fn unfinished_groups(jobs: Seq<BackgroundJob>) -> Seq<u32>
    decreases jobs.len(),
{
    if jobs.len() == 0 {
        Seq::empty()
    } else {
        let before = unfinished_groups(jobs.drop_last());
        if jobs.last().finished is None {
            before.push(jobs.last().pgid)
        } else {
            before
        }
    }
}

fn new_process_id() -> (r: String)
    ensures
        is_process_id(r@),
{
    let uuid = new_uuid();
    cat2("bg-", uuid.as_str())
}

impl Jobs {
    /// The table holds one job per id.
    pub open spec fn wf(self) -> bool {
        distinct_ids(self.jobs@)
    }

    /// No job.
    pub fn new() -> (r: Jobs)
        ensures
            r.wf(),
            r.jobs@ == Seq::<BackgroundJob>::empty(),
    {
        Jobs { jobs: Vec::new() }
    }

    fn find(&self, id: &str) -> (r: Option<usize>)
        ensures
            match r {
                Some(i) => i < self.jobs.len() && self.jobs@[i as int].id@ == id@ && job_with(
                    self.jobs@,
                    id@,
                ) == Some(self.jobs@[i as int]) && forall|k: int|
                    0 <= k < i ==> (#[trigger] self.jobs@[k]).id@ != id@,
                None => job_with(self.jobs@, id@) is None && forall|k: int|
                    0 <= k < self.jobs@.len() ==> (#[trigger] self.jobs@[k]).id@ != id@,
            },
    {
        let mut i: usize = 0;
        while i < self.jobs.len()
            invariant
                i <= self.jobs.len(),
                forall|k: int| 0 <= k < i ==> (#[trigger] self.jobs@[k]).id@ != id@,
            decreases self.jobs.len() - i,
        {
            if same_text(self.jobs[i].id.as_str(), id) {
                proof {
                    lemma_job_at(self.jobs@, i as int, id@);
                }
                return Some(i);
            }
            i = i + 1;
        }
        proof {
            lemma_no_job(self.jobs@, id@);
        }
        None
    }

    /// Puts a job under its id.
    fn insert(&mut self, job: BackgroundJob)
        requires
            old(self).wf(),
        ensures
            final(self).wf(),
            put(old(self).jobs@, final(self).jobs@, job),
    {
        let ghost before = self.jobs@;
        match self.find(job.id.as_str()) {
            Some(i) => {
                self.jobs.set(i, job);
                proof {
                    lemma_job_at(self.jobs@, i as int, job.id@);
                    assert forall|other: Seq<char>| other != job.id@ implies #[trigger] job_with(
                        self.jobs@,
                        other,
                    ) == job_with(before, other) by {
                        lemma_job_changed(before, i as int, job, other);
                    }
                }
            },
            None => {
                let ghost n = before.len() as int;
                self.jobs.push(job);
                proof {
                    assert forall|k: int| 0 <= k < n implies (#[trigger] self.jobs@[k]).id@
                        != job.id@ by {
                        assert(self.jobs@[k] == before[k]);
                    }
                    lemma_job_at(self.jobs@, n, job.id@);
                    assert forall|other: Seq<char>| other != job.id@ implies #[trigger] job_with(
                        self.jobs@,
                        other,
                    ) == job_with(before, other) by {
                        lemma_job_added(before, job, other);
                    }
                }
            },
        }
    }

    /// Tracks a command that the caller started: `spawned` says in which
    /// process group, or why it did not start. Returns the new process id.
    pub fn run(&mut self, command: &str, spawned: &Result<Option<u32>, String>) -> (r: Result<
        String,
        String,
    >)
        requires
            old(self).wf(),
        ensures
            final(self).wf(),
            match r {
                Ok(id) => run_failure(command@, *spawned) is None && is_process_id(id@) && (
                exists|job: BackgroundJob|
                    #![trigger changes(
                        old(self).jobs@,
                        TableChange::Added { job },
                        final(self).jobs@,
                    )]
                    changes(old(self).jobs@, TableChange::Added { job }, final(self).jobs@)
                        && job.id@ == id@ && job.pgid == spawned->Ok_0->0 && job.finished is None),
                Err(e) => run_failure(command@, *spawned) == Some(e@) && changes(
                    old(self).jobs@,
                    TableChange::Untouched,
                    final(self).jobs@,
                ),
            },
    {
        if is_blank(command) {
            return Err(EMPTY_COMMAND.to_owned());
        }
        let pgid: u32 = match spawned {
            Err(e) => {
                return Err(cat2("failed to spawn sh: ", e.as_str()));
            },
            Ok(None) => {
                return Err("spawned child has no pid".to_owned());
            },
            Ok(Some(pgid)) => *pgid,
        };
        let id = new_process_id();
        let job = BackgroundJob { id: id.clone(), pgid, finished: None };
        let ghost put_in = job;
        let ghost before = self.jobs@;
        self.insert(job);
        assert(changes(before, TableChange::Added { job: put_in }, self.jobs@));
        Ok(id)
    }

    /// Whether the caller must poll the process before a `status` or `kill`.
    pub fn needs_poll(&self, id: &str) -> (r: bool)
        ensures
            r == (job_with(self.jobs@, id@) matches Some(job) && job.finished is None),
    {
        match self.find(id) {
            Some(i) => self.jobs[i].finished.is_none(),
            None => false,
        }
    }

    /// Notes what a poll gave: the first known end stays.
    fn note(&mut self, i: usize, poll: &Poll) -> (r: Option<Exit>)
        requires
            old(self).wf(),
            i < old(self).jobs@.len(),
        ensures
            final(self).wf(),
            final(self).jobs@ == old(self).jobs@.update(
                i as int,
                BackgroundJob {
                    finished: end_after(old(self).jobs@[i as int], *poll),
                    ..old(self).jobs@[i as int]
                },
            ),
            r == end_after(old(self).jobs@[i as int], *poll),
    {
        let ghost before = self.jobs@;
        if let Some(exit) = &self.jobs[i].finished {
            let known = copy_exit(exit);
            assert(self.jobs@ =~= before.update(i as int, before[i as int]));
            return Some(known);
        }
        if let Poll::Exited(exit) = poll {
            let job = BackgroundJob {
                id: self.jobs[i].id.clone(),
                pgid: self.jobs[i].pgid,
                finished: Some(copy_exit(exit)),
            };
            self.jobs.set(i, job);
            return Some(copy_exit(exit));
        }
        assert(self.jobs@ =~= before.update(i as int, before[i as int]));
        None
    }

    /// Reports whether a process still runs. `poll` is what polling it gave.
    pub fn status(&mut self, id: &str, poll: &Poll) -> (r: Result<String, String>)
        requires
            old(self).wf(),
        ensures
            final(self).wf(),
            result_text(r) == status_outcome(job_with(old(self).jobs@, id@), id@, *poll),
            changes(
                old(self).jobs@,
                TableChange::Noted { id: id@, poll: *poll },
                final(self).jobs@,
            ),
    {
        let ghost before = self.jobs@;
        let i: usize = match self.find(id) {
            Some(i) => i,
            None => {
                return Err(cat2("unknown background process: ", id));
            },
        };
        let end = self.note(i, poll);
        proof {
            let job = self.jobs@[i as int];
            lemma_job_at(self.jobs@, i as int, id@);
            assert forall|other: Seq<char>| other != job.id@ implies #[trigger] job_with(
                self.jobs@,
                other,
            ) == job_with(before, other) by {
                lemma_job_changed(before, i as int, job, other);
            }
        }
        match end {
            Some(exit) => Ok(
                cat5("process ", id, " is not running (", describe_exit(&exit).as_str(), ")"),
            ),
            None => match poll {
                Poll::Failed(e) => Err(
                    cat4("failed to check background process ", id, ": ", e.as_str()),
                ),
                _ => Ok(cat3("process ", id, " is still running")),
            },
        }
    }

    /// Stops a process and its group, which the caller signals. `poll` is what
    /// polling it gave. The job stays tracked.
    pub fn kill(&mut self, id: &str, poll: &Poll) -> (r: Result<KillReply, String>)
        requires
            old(self).wf(),
        ensures
            final(self).wf(),
            match r {
                Ok(k) => kill_outcome(job_with(old(self).jobs@, id@), id@, *poll) == Ok::<
                    (Option<u32>, Seq<char>),
                    Seq<char>,
                >((k.signal, k.reply@)),
                Err(e) => kill_outcome(job_with(old(self).jobs@, id@), id@, *poll) == Err::<
                    (Option<u32>, Seq<char>),
                    Seq<char>,
                >(e@),
            },
            changes(
                old(self).jobs@,
                TableChange::Noted { id: id@, poll: *poll },
                final(self).jobs@,
            ),
    {
        let ghost before = self.jobs@;
        let i: usize = match self.find(id) {
            Some(i) => i,
            None => {
                return Err(cat2("unknown background process: ", id));
            },
        };
        let end = self.note(i, poll);
        proof {
            let job = self.jobs@[i as int];
            lemma_job_at(self.jobs@, i as int, id@);
            assert forall|other: Seq<char>| other != job.id@ implies #[trigger] job_with(
                self.jobs@,
                other,
            ) == job_with(before, other) by {
                lemma_job_changed(before, i as int, job, other);
            }
        }
        match end {
            Some(exit) => Ok(
                KillReply {
                    signal: None,
                    reply: cat5(
                        "process ",
                        id,
                        " had already finished (",
                        describe_exit(&exit).as_str(),
                        "); no kill was needed",
                    ),
                },
            ),
            None => match poll {
                Poll::Failed(e) => Err(
                    cat4("failed to check background process ", id, ": ", e.as_str()),
                ),
                _ => {
                    let pgid: u32 = self.jobs[i].pgid;
                    Ok(
                        KillReply {
                            signal: Some(pgid),
                            reply: cat5(
                                "sent SIGKILL to background process ",
                                id,
                                " (pid ",
                                decimal_text(pgid as u64).as_str(),
                                ") and its process group",
                            ),
                        },
                    )
                },
            },
        }
    }

    /// Stops every job that still runs: returns the process groups to signal.
    /// `polls` holds what polling each job gave; a job that cannot be polled
    /// counts as running.
    pub fn kill_all(&mut self, polls: &Vec<Poll>) -> (r: Vec<u32>)
        requires
            old(self).wf(),
            polls@.len() == old(self).jobs@.len(),
        ensures
            final(self).wf(),
            changes(
                old(self).jobs@,
                TableChange::Swept { polls: polls@ },
                final(self).jobs@,
            ),
            r@ == unfinished_groups(polled(old(self).jobs@, polls@)),
    {
        let ghost before = self.jobs@;
        let ghost target = polled(before, polls@);
        let mut groups: Vec<u32> = Vec::new();
        let mut i: usize = 0;
        assert(target.take(0).len() == 0);
        while i < self.jobs.len()
            invariant
                self.wf(),
                i <= self.jobs@.len() == before.len() == polls@.len(),
                target == polled(before, polls@),
                forall|k: int| 0 <= k < i ==> #[trigger] self.jobs@[k] == target[k],
                forall|k: int| i <= k < before.len() ==> #[trigger] self.jobs@[k] == before[k],
                groups@ == unfinished_groups(target.take(i as int)),
            decreases before.len() - i,
        {
            let end = self.note(i, &polls[i]);
            assert(self.jobs@[i as int] == target[i as int]);
            assert(target.take(i + 1).drop_last() =~= target.take(i as int));
            assert(target.take(i + 1).last() == target[i as int]);
            if end.is_none() {
                groups.push(self.jobs[i].pgid);
            }
            i = i + 1;
        }
        assert(target.take(i as int) =~= target);
        assert(self.jobs@ =~= target);
        groups
    }
}

// ---------------------------------------------------------------------------
// Laws
// ---------------------------------------------------------------------------

/// A known end stays: whatever a later poll says, the same status is reported.
pub proof fn law_known_end_stays(job: BackgroundJob, id: Seq<char>, first: Poll, later: Poll)
    requires
        end_after(job, first) is Some,
    ensures
        ({
            let next = BackgroundJob { finished: end_after(job, first), ..job };
            &&& end_after(next, later) == end_after(job, first)
            &&& status_outcome(Some(next), id, later) == status_outcome(Some(job), id, first)
        }),
{
}

proof fn lemma_polled_job(jobs: Seq<BackgroundJob>, polls: Seq<Poll>, id: Seq<char>)
    requires
        polls.len() == jobs.len(),
    ensures
        match job_with(jobs, id) {
            Some(job) => job_with(polled(jobs, polls), id) matches Some(next) && (
            job.finished is Some ==> next.finished == job.finished),
            None => job_with(polled(jobs, polls), id) is None,
        },
    decreases jobs.len(),
{
    if jobs.len() > 0 {
        let next = polled(jobs, polls);
        assert(next[0].id == jobs[0].id);
        assert(next.drop_first() =~= polled(jobs.drop_first(), polls.drop_first()));
        lemma_polled_job(jobs.drop_first(), polls.drop_first(), id);
    }
}

/// The tables that a worker goes through: each call takes one to the next.
pub open spec fn history_of(tables: Seq<Seq<BackgroundJob>>, calls: Seq<TableChange>) -> bool {
    &&& tables.len() == calls.len() + 1
    &&& forall|i: int|
        0 <= i < calls.len() ==> changes(tables[i], #[trigger] calls[i], tables[i + 1])
}

/// None of the calls hands out this id.
pub open spec fn never_handed_out(calls: Seq<TableChange>, id: Seq<char>) -> bool {
    forall|i: int|
        0 <= i < calls.len() ==> ((#[trigger] calls[i]) matches TableChange::Added { job }
            ==> job.id@ != id)
}

/// A known end stays over any later calls: as long as the id is not handed out
/// again, every status reports it in the same words, whatever a poll says.
pub proof fn law_known_end_stays_for_good(
    tables: Seq<Seq<BackgroundJob>>,
    calls: Seq<TableChange>,
    id: Seq<char>,
    exit: Exit,
    poll: Poll,
)
    requires
        history_of(tables, calls),
        never_handed_out(calls, id),
        job_with(tables[0], id) matches Some(job) && job.finished == Some(exit),
    ensures
        job_with(tables.last(), id) matches Some(job) && job.finished == Some(exit),
        status_outcome(job_with(tables.last(), id), id, poll) == Ok::<Seq<char>, Seq<char>>(
            gone_text(id, exit),
        ),
    decreases calls.len(),
{
    if calls.len() > 0 {
        let n = calls.len() - 1;
        let d = calls.drop_last();
        let t = tables.drop_last();
        assert(history_of(t, d)) by {
            assert forall|i: int| 0 <= i < d.len() implies changes(t[i], #[trigger] d[i], t[i + 1]) by {
                assert(d[i] == calls[i]);
            }
        }
        assert(never_handed_out(d, id)) by {
            assert forall|i: int| 0 <= i < d.len() implies ((#[trigger] d[i]) matches
                TableChange::Added { job } ==> job.id@ != id) by {
                assert(d[i] == calls[i]);
            }
        }
        law_known_end_stays_for_good(t, d, id, exit, poll);
        assert(changes(tables[n], calls[n], tables[n + 1]));
        lemma_job_keeps_its_id(tables[n], id);
        if let TableChange::Noted { id: other, .. } = calls[n] {
            lemma_job_keeps_its_id(tables[n], other);
        }
        if let TableChange::Swept { polls } = calls[n] {
            lemma_polled_job(tables[n], polls, id);
        }
    }
}

/// An id that was never handed out stays unknown.
pub proof fn law_unknown_id_stays_unknown(
    tables: Seq<Seq<BackgroundJob>>,
    calls: Seq<TableChange>,
    id: Seq<char>,
    poll: Poll,
)
    requires
        history_of(tables, calls),
        never_handed_out(calls, id),
        job_with(tables[0], id) is None,
    ensures
        job_with(tables.last(), id) is None,
        status_outcome(job_with(tables.last(), id), id, poll) == Err::<Seq<char>, Seq<char>>(
            unknown_text(id),
        ),
    decreases calls.len(),
{
    if calls.len() > 0 {
        let n = calls.len() - 1;
        let d = calls.drop_last();
        let t = tables.drop_last();
        assert(history_of(t, d)) by {
            assert forall|i: int| 0 <= i < d.len() implies changes(t[i], #[trigger] d[i], t[i + 1]) by {
                assert(d[i] == calls[i]);
            }
        }
        assert(never_handed_out(d, id)) by {
            assert forall|i: int| 0 <= i < d.len() implies ((#[trigger] d[i]) matches
                TableChange::Added { job } ==> job.id@ != id) by {
                assert(d[i] == calls[i]);
            }
        }
        law_unknown_id_stays_unknown(t, d, id, poll);
        assert(changes(tables[n], calls[n], tables[n + 1]));
        if let TableChange::Noted { id: other, .. } = calls[n] {
            lemma_job_keeps_its_id(tables[n], other);
        }
        if let TableChange::Swept { polls } = calls[n] {
            lemma_polled_job(tables[n], polls, id);
        }
    }
}

/// A job is found under its own id.
pub proof fn lemma_job_keeps_its_id(jobs: Seq<BackgroundJob>, id: Seq<char>)
    ensures
        job_with(jobs, id) matches Some(job) ==> job.id@ == id,
    decreases jobs.len(),
{
    if jobs.len() > 0 {
        lemma_job_keeps_its_id(jobs.drop_first(), id);
    }
}

/// A process that is known to be gone is never signalled.
pub proof fn law_gone_process_is_not_signalled(job: BackgroundJob, id: Seq<char>, poll: Poll)
    requires
        end_after(job, poll) is Some,
    ensures
        kill_outcome(Some(job), id, poll) matches Ok((signal, _)) && signal is None,
{
}

/// After everything was stopped once and the ends were seen, nothing is left
/// to signal.
pub proof fn law_nothing_left_to_signal(jobs: Seq<BackgroundJob>)
    requires
        forall|i: int| 0 <= i < jobs.len() ==> (#[trigger] jobs[i]).finished is Some,
    ensures
        unfinished_groups(jobs) == Seq::<u32>::empty(),
    decreases jobs.len(),
{
    if jobs.len() > 0 {
        let d = jobs.drop_last();
        assert forall|i: int| 0 <= i < d.len() implies (#[trigger] d[i]).finished is Some by {
            assert(d[i] == jobs[i]);
        }
        assert(jobs[jobs.len() - 1].finished is Some);
        law_nothing_left_to_signal(d);
    }
}

} // verus!
