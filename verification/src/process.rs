//! The process of the service: ending it, finding it, and waiting for it.
use vstd::prelude::*;
use crate::hosts::Answer;
use crate::paths::{file_name, path_name};
use crate::plan::Outcome;
use crate::state::{ServiceState, StateOf};
use crate::text::{
    chars_of, contains_text, decimal, decimal_text, has_part, is_white_space, joined4, lines,
    number, parse_number, same_text, split_lines, texts, trim, trimmed, white_space,
};
use vstd::slice::slice_subrange;

verus! {

// ---------------------------------------------------------------------------
// Ending the process
// ---------------------------------------------------------------------------
/// Which process the service is, if that was found out.
pub enum PidAnswer<S> {
    Unknown,
    Failed(S),
    /// None is noted.
    Nobody,
    Process(u32),
}

/// What is known so far about ending the service.
pub struct TerminateAnswers<S> {
    pub pid: PidAnswer<S>,
    pub running: Option<bool>,
    pub terminated: Answer<S>,
    pub stopped: Answer<S>,
    pub killed: Answer<S>,
    pub stopped_after_kill: Answer<S>,
}

impl View for TerminateAnswers<String> {
    type V = TerminateAnswers<Seq<char>>;

    open spec fn view(&self) -> TerminateAnswers<Seq<char>> {
        TerminateAnswers {
            pid: match self.pid {
                PidAnswer::Unknown => PidAnswer::Unknown,
                PidAnswer::Failed(error) => PidAnswer::Failed(error@),
                PidAnswer::Nobody => PidAnswer::Nobody,
                PidAnswer::Process(pid) => PidAnswer::Process(pid),
            },
            running: self.running,
            terminated: self.terminated@,
            stopped: self.stopped@,
            killed: self.killed@,
            stopped_after_kill: self.stopped_after_kill@,
        }
    }
}

impl TerminateAnswers<String> {
    /// Nothing is known.
    pub fn new() -> (answers: TerminateAnswers<String>)
        ensures
            answers@ == (TerminateAnswers::<Seq<char>> {
                pid: PidAnswer::Unknown,
                running: None,
                terminated: Answer::Unknown,
                stopped: Answer::Unknown,
                killed: Answer::Unknown,
                stopped_after_kill: Answer::Unknown,
            }),
    {
        TerminateAnswers {
            pid: PidAnswer::Unknown,
            running: None,
            terminated: Answer::Unknown,
            stopped: Answer::Unknown,
            killed: Answer::Unknown,
            stopped_after_kill: Answer::Unknown,
        }
    }
}

/// What can be done about the process.
#[derive(Clone, Copy, Debug, PartialEq, Eq, Structural)]
pub enum TerminateTask {
    /// Find out which process it is.
    ReadPid,
    /// Find out whether it runs.
    CheckRunning(u32),
    /// Ask it to end.
    Terminate(u32),
    /// Wait until it ended, for at most so many seconds.
    AwaitStop { pid: u32, seconds: u64 },
    /// Force it to end.
    Kill(u32),
    /// Wait until it ended after that.
    AwaitStopAfterKill { pid: u32, seconds: u64 },
}

/// What to do next, or what came of it.
pub enum TerminateStep<S> {
    Ask(TerminateTask),
    Finished(Outcome<S>),
}

impl View for TerminateStep<String> {
    type V = TerminateStep<Seq<char>>;

    open spec fn view(&self) -> TerminateStep<Seq<char>> {
        match *self {
            TerminateStep::Ask(task) => TerminateStep::Ask(task),
            TerminateStep::Finished(outcome) => TerminateStep::Finished(outcome@),
        }
    }
}

/// The next step of ending the service: it is asked to end, and forced if that
/// did not help in time. An issue is left if it could not be ended; it fails
/// only if it cannot be found out which process it is.
pub open spec fn terminate_step(a: TerminateAnswers<Seq<char>>) -> TerminateStep<Seq<char>> {
    match a.pid {
        PidAnswer::Unknown => TerminateStep::Ask(TerminateTask::ReadPid),
        PidAnswer::Failed(error) => TerminateStep::Finished(Outcome::Failed(error)),
        PidAnswer::Nobody => TerminateStep::Finished(Outcome::Done),
        PidAnswer::Process(pid) => match a.running {
            None => TerminateStep::Ask(TerminateTask::CheckRunning(pid)),
            Some(false) => TerminateStep::Finished(Outcome::Done),
            Some(true) => terminate_running_step(a, pid),
        },
    }
}

/// The next step of ending a service that runs.
pub open spec fn terminate_running_step(a: TerminateAnswers<Seq<char>>, pid: u32) -> TerminateStep<
    Seq<char>,
> {
    match a.terminated {
        Answer::Unknown => TerminateStep::Ask(TerminateTask::Terminate(pid)),
        Answer::Failed(error) => TerminateStep::Finished(
            Outcome::Issue(
                "failed to terminate running service pid "@ + decimal(pid as nat) + ": "@ + error,
            ),
        ),
        Answer::Done => match a.stopped {
            Answer::Unknown => TerminateStep::Ask(TerminateTask::AwaitStop { pid, seconds: 5 }),
            Answer::Done => TerminateStep::Finished(Outcome::Done),
            Answer::Failed(error) => match a.killed {
                Answer::Unknown => TerminateStep::Ask(TerminateTask::Kill(pid)),
                Answer::Failed(force_error) => TerminateStep::Finished(
                    Outcome::Issue(
                        "running service pid "@ + decimal(pid as nat)
                            + " did not stop after SIGTERM ("@ + error
                            + "); SIGKILL also failed: "@ + force_error,
                    ),
                ),
                Answer::Done => match a.stopped_after_kill {
                    Answer::Unknown => TerminateStep::Ask(
                        TerminateTask::AwaitStopAfterKill { pid, seconds: 3 },
                    ),
                    Answer::Done => TerminateStep::Finished(Outcome::Done),
                    Answer::Failed(wait_error) => TerminateStep::Finished(
                        Outcome::Issue(
                            "running service pid "@ + decimal(pid as nat)
                                + " did not stop cleanly after SIGTERM ("@ + error
                                + ") and SIGKILL ("@ + wait_error + ")"@,
                        ),
                    ),
                },
            },
        },
    }
}

/// The next step of ending the service.
pub fn terminate_running_service(a: &TerminateAnswers<String>) -> (step: TerminateStep<String>)
    ensures
        step@ == terminate_step(a@),
{
    let pid: u32 = match &a.pid {
        PidAnswer::Unknown => {
            return TerminateStep::Ask(TerminateTask::ReadPid);
        },
        PidAnswer::Failed(error) => {
            return TerminateStep::Finished(Outcome::Failed(error.clone()));
        },
        PidAnswer::Nobody => {
            return TerminateStep::Finished(Outcome::Done);
        },
        PidAnswer::Process(pid) => *pid,
    };
    match a.running {
        None => {
            return TerminateStep::Ask(TerminateTask::CheckRunning(pid));
        },
        Some(runs) => {
            if !runs {
                return TerminateStep::Finished(Outcome::Done);
            }
        },
    }
    let number = decimal_text(pid as u64);
    match &a.terminated {
        Answer::Unknown => TerminateStep::Ask(TerminateTask::Terminate(pid)),
        Answer::Failed(error) => TerminateStep::Finished(
            Outcome::Issue(
                joined4(
                    "failed to terminate running service pid ",
                    number.as_str(),
                    ": ",
                    error.as_str(),
                ),
            ),
        ),
        Answer::Done => match &a.stopped {
            Answer::Unknown => TerminateStep::Ask(TerminateTask::AwaitStop { pid, seconds: 5 }),
            Answer::Done => TerminateStep::Finished(Outcome::Done),
            Answer::Failed(error) => match &a.killed {
                Answer::Unknown => TerminateStep::Ask(TerminateTask::Kill(pid)),
                Answer::Failed(force_error) => {
                    let mut text = joined4(
                        "running service pid ",
                        number.as_str(),
                        " did not stop after SIGTERM (",
                        error.as_str(),
                    );
                    text.append("); SIGKILL also failed: ");
                    text.append(force_error.as_str());
                    TerminateStep::Finished(Outcome::Issue(text))
                },
                Answer::Done => match &a.stopped_after_kill {
                    Answer::Unknown => TerminateStep::Ask(
                        TerminateTask::AwaitStopAfterKill { pid, seconds: 3 },
                    ),
                    Answer::Done => TerminateStep::Finished(Outcome::Done),
                    Answer::Failed(wait_error) => {
                        let mut text = joined4(
                            "running service pid ",
                            number.as_str(),
                            " did not stop cleanly after SIGTERM (",
                            error.as_str(),
                        );
                        text.append(") and SIGKILL (");
                        text.append(wait_error.as_str());
                        text.append(")");
                        TerminateStep::Finished(Outcome::Issue(text))
                    },
                },
            },
        },
    }
}

/// Nothing counts as ended that may still run: if ending the service leaves no
/// issue and does not fail, there was no process, or it did not run, or it was
/// seen to have stopped.
pub proof fn an_ended_service_has_stopped(a: TerminateAnswers<Seq<char>>)
    requires
        terminate_step(a) == TerminateStep::Finished(Outcome::<Seq<char>>::Done),
    ensures
        a.pid is Nobody || a.running == Some(false) || a.stopped is Done || a.stopped_after_kill
            is Done,
{
}

/// Force comes last: a process is forced to end only after it was asked to and
/// did not in time.
pub proof fn force_comes_last(a: TerminateAnswers<Seq<char>>, pid: u32)
    requires
        terminate_step(a) == TerminateStep::<Seq<char>>::Ask(TerminateTask::Kill(pid)),
    ensures
        a.running == Some(true),
        a.terminated is Done,
        a.stopped is Failed,
{
}

// ---------------------------------------------------------------------------
// Waiting
// ---------------------------------------------------------------------------
/// What to do next while waiting.
pub enum WaitStep<S> {
    /// Look again after a while.
    Wait,
    /// What was waited for is there.
    Ready,
    /// It will not be.
    Failed(S),
}

impl View for WaitStep<String> {
    type V = WaitStep<Seq<char>>;

    open spec fn view(&self) -> WaitStep<Seq<char>> {
        match *self {
            WaitStep::Wait => WaitStep::Wait,
            WaitStep::Ready => WaitStep::Ready,
            WaitStep::Failed(error) => WaitStep::Failed(error@),
        }
    }
}

/// What to do while waiting for the service to run. `state` is what was found
/// out, unless the time was up before.
pub fn wait_until_running(state: Option<&ServiceState>) -> (step: WaitStep<String>)
    ensures
        step@ == match state {
            None => WaitStep::Failed("daemon start timed out"@),
            Some(s) => if s.running {
                WaitStep::Ready
            } else {
                match s.last_error {
                    Some(error) => WaitStep::Failed(error@),
                    None => WaitStep::Wait,
                }
            },
        },
{
    match state {
        None => WaitStep::Failed("daemon start timed out".to_owned()),
        Some(s) => if s.running {
            WaitStep::Ready
        } else {
            match &s.last_error {
                Some(error) => WaitStep::Failed(error.clone()),
                None => WaitStep::Wait,
            }
        },
    }
}

/// What to do while waiting for a process to end, for at most so many seconds.
/// `runs` is what was found out, unless the time was up before.
pub fn wait_until_stopped(pid: u32, seconds: u64, runs: Option<bool>) -> (step: WaitStep<String>)
    ensures
        step@ == match runs {
            None => WaitStep::Failed(
                "process "@ + decimal(pid as nat) + " did not stop within "@ + decimal(
                    seconds as nat,
                ) + "s"@,
            ),
            Some(false) => WaitStep::Ready,
            Some(true) => WaitStep::Wait,
        },
{
    match runs {
        None => {
            let mut text = joined4(
                "process ",
                decimal_text(pid as u64).as_str(),
                " did not stop within ",
                decimal_text(seconds).as_str(),
            );
            text.append("s");
            WaitStep::Failed(text)
        },
        Some(r) => if r {
            WaitStep::Wait
        } else {
            WaitStep::Ready
        },
    }
}

// ---------------------------------------------------------------------------
// Whether the service runs
// ---------------------------------------------------------------------------
/// A state that was read, or not.
pub enum Reading<S> {
    Unknown,
    Failed(S),
    Is(StateOf<S>),
}

impl View for Reading<String> {
    type V = Reading<Seq<char>>;

    open spec fn view(&self) -> Reading<Seq<char>> {
        match *self {
            Reading::Unknown => Reading::Unknown,
            Reading::Failed(error) => Reading::Failed(error@),
            Reading::Is(state) => Reading::Is(state@),
        }
    }
}

/// Whether a process of the service was found that nobody noted.
#[derive(Clone, Copy, Debug, PartialEq, Eq, Structural)]
pub enum Discovery {
    Unknown,
    Nothing,
    Process(u32),
}

/// What is known so far about whether the service runs.
pub struct ReconcileAnswers<S> {
    pub refreshed: Reading<S>,
    pub discovered: Discovery,
    pub pid_written: Answer<S>,
    pub marked: Answer<S>,
    pub refreshed_again: Reading<S>,
    pub ports_ready: Option<bool>,
    pub written: Answer<S>,
}

impl View for ReconcileAnswers<String> {
    type V = ReconcileAnswers<Seq<char>>;

    open spec fn view(&self) -> ReconcileAnswers<Seq<char>> {
        ReconcileAnswers {
            refreshed: self.refreshed@,
            discovered: self.discovered,
            pid_written: self.pid_written@,
            marked: self.marked@,
            refreshed_again: self.refreshed_again@,
            ports_ready: self.ports_ready,
            written: self.written@,
        }
    }
}

impl ReconcileAnswers<String> {
    /// Nothing is known.
    pub fn new() -> (answers: ReconcileAnswers<String>)
        ensures
            answers@ == (ReconcileAnswers::<Seq<char>> {
                refreshed: Reading::Unknown,
                discovered: Discovery::Unknown,
                pid_written: Answer::Unknown,
                marked: Answer::Unknown,
                refreshed_again: Reading::Unknown,
                ports_ready: None,
                written: Answer::Unknown,
            }),
    {
        ReconcileAnswers {
            refreshed: Reading::Unknown,
            discovered: Discovery::Unknown,
            pid_written: Answer::Unknown,
            marked: Answer::Unknown,
            refreshed_again: Reading::Unknown,
            ports_ready: None,
            written: Answer::Unknown,
        }
    }
}

/// What to do next, or what is known of the service.
pub enum ReconcileStep<S> {
    /// Read the noted state.
    Refresh,
    /// Look for a process of the service.
    Discover,
    /// Note that the service is this process.
    WritePid(u32),
    /// Note that this process runs as the service.
    MarkRunning(u32),
    /// Read the noted state again.
    RefreshAgain,
    /// Find out whether somebody listens on the ports of the proxy.
    CheckPorts,
    /// Note this state.
    Write(StateOf<S>),
    Finished(StateOf<S>),
    Failed(S),
}

impl View for ReconcileStep<String> {
    type V = ReconcileStep<Seq<char>>;

    open spec fn view(&self) -> ReconcileStep<Seq<char>> {
        match *self {
            ReconcileStep::Refresh => ReconcileStep::Refresh,
            ReconcileStep::Discover => ReconcileStep::Discover,
            ReconcileStep::WritePid(pid) => ReconcileStep::WritePid(pid),
            ReconcileStep::MarkRunning(pid) => ReconcileStep::MarkRunning(pid),
            ReconcileStep::RefreshAgain => ReconcileStep::RefreshAgain,
            ReconcileStep::CheckPorts => ReconcileStep::CheckPorts,
            ReconcileStep::Write(state) => ReconcileStep::Write(state@),
            ReconcileStep::Finished(state) => ReconcileStep::Finished(state@),
            ReconcileStep::Failed(error) => ReconcileStep::Failed(error@),
        }
    }
}

/// The state of a service that answers although nobody noted it.
pub open spec fn repaired(now: u64) -> StateOf<Seq<char>> {
    StateOf {
        running: true,
        pid: None,
        status_text: "加速中"@,
        last_error: None,
        updated_at: now,
    }
}

/// The next step of finding out whether the service runs: it does if its state
/// says so, or a process of it is found, or somebody listens on its ports.
/// What was found is noted.
pub open spec fn reconcile_step(a: ReconcileAnswers<Seq<char>>, now: u64) -> ReconcileStep<
    Seq<char>,
> {
    match a.refreshed {
        Reading::Unknown => ReconcileStep::Refresh,
        Reading::Failed(error) => ReconcileStep::Failed(error),
        Reading::Is(current) => if current.running {
            ReconcileStep::Finished(current)
        } else {
            match a.discovered {
                Discovery::Unknown => ReconcileStep::Discover,
                Discovery::Process(pid) => adopt_step(a, pid),
                Discovery::Nothing => match a.ports_ready {
                    None => ReconcileStep::CheckPorts,
                    Some(false) => ReconcileStep::Finished(current),
                    Some(true) => match a.written {
                        Answer::Unknown => ReconcileStep::Write(repaired(now)),
                        Answer::Done => ReconcileStep::Finished(repaired(now)),
                        Answer::Failed(error) => ReconcileStep::Failed(error),
                    },
                },
            }
        },
    }
}

/// The next step of noting a process that was found.
pub open spec fn adopt_step(a: ReconcileAnswers<Seq<char>>, pid: u32) -> ReconcileStep<Seq<char>> {
    match a.pid_written {
        Answer::Unknown => ReconcileStep::WritePid(pid),
        Answer::Failed(error) => ReconcileStep::Failed(error),
        Answer::Done => match a.marked {
            Answer::Unknown => ReconcileStep::MarkRunning(pid),
            Answer::Failed(error) => ReconcileStep::Failed(error),
            Answer::Done => match a.refreshed_again {
                Reading::Unknown => ReconcileStep::RefreshAgain,
                Reading::Failed(error) => ReconcileStep::Failed(error),
                Reading::Is(state) => ReconcileStep::Finished(state),
            },
        },
    }
}

fn duplicate_state(state: &ServiceState) -> (copy: ServiceState)
    ensures
        copy@ == state@,
{
    let last_error = match &state.last_error {
        Some(error) => Some(error.clone()),
        None => None,
    };
    StateOf {
        running: state.running,
        pid: state.pid,
        status_text: state.status_text.clone(),
        last_error,
        updated_at: state.updated_at,
    }
}

fn repaired_state(now: u64) -> (state: ServiceState)
    ensures
        state@ == repaired(now),
{
    StateOf {
        running: true,
        pid: None,
        status_text: "加速中".to_owned(),
        last_error: None,
        updated_at: now,
    }
}

/// The next step of finding out whether the service runs.
pub fn reconcile_running_state(a: &ReconcileAnswers<String>, now: u64) -> (step: ReconcileStep<
    String,
>)
    ensures
        step@ == reconcile_step(a@, now),
{
    match &a.refreshed {
        Reading::Unknown => ReconcileStep::Refresh,
        Reading::Failed(error) => ReconcileStep::Failed(error.clone()),
        Reading::Is(current) => {
            if current.running {
                return ReconcileStep::Finished(duplicate_state(current));
            }
            match a.discovered {
                Discovery::Unknown => ReconcileStep::Discover,
                Discovery::Process(pid) => match &a.pid_written {
                    Answer::Unknown => ReconcileStep::WritePid(pid),
                    Answer::Failed(error) => ReconcileStep::Failed(error.clone()),
                    Answer::Done => match &a.marked {
                        Answer::Unknown => ReconcileStep::MarkRunning(pid),
                        Answer::Failed(error) => ReconcileStep::Failed(error.clone()),
                        Answer::Done => match &a.refreshed_again {
                            Reading::Unknown => ReconcileStep::RefreshAgain,
                            Reading::Failed(error) => ReconcileStep::Failed(error.clone()),
                            Reading::Is(state) => ReconcileStep::Finished(duplicate_state(state)),
                        },
                    },
                },
                Discovery::Nothing => match a.ports_ready {
                    None => ReconcileStep::CheckPorts,
                    Some(ready) => if !ready {
                        ReconcileStep::Finished(duplicate_state(current))
                    } else {
                        match &a.written {
                            Answer::Unknown => ReconcileStep::Write(repaired_state(now)),
                            Answer::Done => ReconcileStep::Finished(repaired_state(now)),
                            Answer::Failed(error) => ReconcileStep::Failed(error.clone()),
                        }
                    },
                },
            }
        },
    }
}

/// The service counts as stopped only if its state says so, no process of it
/// is found, and nobody listens on its ports; or if it says so even after its
/// process was noted.
pub proof fn a_running_service_is_found(a: ReconcileAnswers<Seq<char>>, now: u64)
    requires
        reconcile_step(a, now) matches ReconcileStep::Finished(state) && !state.running,
    ensures
        a.refreshed matches Reading::Is(current) && !current.running,
        (a.discovered is Nothing && a.ports_ready == Some(false)) || a.refreshed_again is Is,
{
}

// ---------------------------------------------------------------------------
// Finding the process
// ---------------------------------------------------------------------------
/// The name of the program.
pub open spec fn binary_name(windows: bool) -> Seq<char> {
    if windows {
        "linuxdo-accelerator.exe"@
    } else {
        "linuxdo-accelerator"@
    }
}

/// The name of the program.
pub fn cli_binary_name(windows: bool) -> (name: &'static str)
    ensures
        name@ == binary_name(windows),
{
    if windows {
        "linuxdo-accelerator.exe"
    } else {
        "linuxdo-accelerator"
    }
}

/// `s` up to its first white space.
pub open spec fn first_word(s: Seq<char>) -> Seq<char>
    decreases s.len(),
{
    if s.len() == 0 || white_space(s[0]) {
        Seq::empty()
    } else {
        seq![s[0]] + first_word(s.drop_first())
    }
}

/// A line of the process list, without the white space around it, is for a
/// process with this number and this command.
pub open spec fn process_line(line: Seq<char>) -> Option<(nat, Seq<char>)> {
    let first = first_word(line);
    match number(first, 10, u32::MAX as nat) {
        Some(pid) => Some((pid, trim(line.skip(first.len() as int)))),
        None => None,
    }
}

/// The command is that of the service with this configuration.
pub open spec fn daemon_command(
    command: Seq<char>,
    binary: Seq<char>,
    config_path: Seq<char>,
) -> bool {
    contains_text(command, binary) && contains_text(command, " daemon"@) && contains_text(
        command,
        config_path,
    )
}

/// The processes in a list that may be the service, in order, up to the first
/// line that is not about a process.
pub open spec fn candidates(
    ls: Seq<Seq<char>>,
    binary: Seq<char>,
    config_path: Seq<char>,
) -> Seq<nat>
    decreases ls.len(),
{
    if ls.len() == 0 {
        Seq::empty()
    } else {
        let line = trim(ls[0]);
        let rest = candidates(ls.drop_first(), binary, config_path);
        if line.len() == 0 {
            rest
        } else {
            match process_line(line) {
                None => Seq::empty(),
                Some((pid, command)) => if daemon_command(command, binary, config_path) {
                    seq![pid] + rest
                } else {
                    rest
                },
            }
        }
    }
}

/// The numbers of some processes.
pub open spec fn pid_values(pids: Seq<u32>) -> Seq<nat> {
    pids.map_values(|p: u32| p as nat)
}

fn first_word_len(s: &[char]) -> (n: usize)
    ensures
        n <= s@.len(),
        n == first_word(s@).len(),
        first_word(s@) == s@.take(n as int),
{
    let mut n: usize = 0;
    assert(s@.skip(0) =~= s@);
    assert(s@.take(0) + first_word(s@) =~= first_word(s@));
    while n < s.len() && !is_white_space(s[n])
        invariant
            n <= s@.len(),
            s@.take(n as int) + first_word(s@.skip(n as int)) == first_word(s@),
        decreases s@.len() - n,
    {
        let ghost rest = s@.skip(n as int);
        assert(rest[0] == s@[n as int]);
        assert(rest.drop_first() =~= s@.skip(n as int + 1));
        assert(s@.take(n as int) + (seq![rest[0]] + first_word(rest.drop_first())) =~= s@.take(
            n as int + 1,
        ) + first_word(rest.drop_first()));
        n = n + 1;
    }
    assert(first_word(s@.skip(n as int)) =~= Seq::empty()) by {
        if n < s@.len() {
            assert(s@.skip(n as int)[0] == s@[n as int]);
        }
    }
    assert(s@.take(n as int) + Seq::<char>::empty() =~= s@.take(n as int));
    n
}

/// The processes in the output of `ps` that may be the service, in order: the
/// first of them that runs is it.
pub fn discover_running_daemon_pid(process_list: &str, config_path: &str, windows: bool) -> (
    pids: Vec<u32>)
    ensures
        pid_values(pids@) == candidates(
            lines(process_list@),
            binary_name(windows),
            config_path@,
        ),
{
    let binary = chars_of(cli_binary_name(windows));
    let config = chars_of(config_path);
    let mark = chars_of(" daemon");
    let found = split_lines(chars_of(process_list).as_slice());
    let ghost all = lines(process_list@);
    let ghost wanted = candidates(all, binary@, config@);
    let mut pids: Vec<u32> = Vec::new();
    let mut i: usize = 0;
    assert(all.skip(0) =~= all);
    assert(pid_values(pids@) + wanted =~= wanted);
    while i < found.len()
        invariant
            i <= found@.len(),
            texts(found@) == all,
            all == lines(process_list@),
            binary@ == binary_name(windows),
            config@ == config_path@,
            mark@ == " daemon"@,
            wanted == candidates(all, binary@, config@),
            pid_values(pids@) + candidates(all.skip(i as int), binary@, config@) == wanted,
        decreases found@.len() - i,
    {
        let ghost rest = all.skip(i as int);
        let ghost after = candidates(all.skip(i as int + 1), binary@, config@);
        let ghost before = pids@;
        assert(rest[0] == found@[i as int]@);
        assert(rest.drop_first() =~= all.skip(i as int + 1));
        let chars = chars_of(found[i].as_str());
        let line = trimmed(chars.as_slice());
        i = i + 1;
        if line.len() > 0 {
            let n = first_word_len(line);
            let first = slice_subrange(line, 0, n);
            assert(first@ =~= first_word(line@));
            match parse_number(first, 10, 0xffff_ffff) {
                None => {
                    assert(pid_values(pids@) + Seq::<nat>::empty() =~= pid_values(pids@));
                    return pids;
                },
                Some(pid) => {
                    let tail = slice_subrange(line, n, line.len());
                    assert(tail@ =~= line@.skip(n as int));
                    let command = trimmed(tail);
                    if has_part(command, binary.as_slice()) && has_part(command, mark.as_slice())
                        && has_part(command, config.as_slice()) {
                        pids.push(pid as u32);
                        assert(pid_values(pids@) =~= pid_values(before).push(pid as nat));
                        assert(pid_values(before) + (seq![pid as nat] + after) =~= pid_values(
                            pids@,
                        ) + after);
                    }
                },
            }
        }
    }
    assert(all.skip(i as int) =~= Seq::empty());
    assert(pid_values(pids@) + Seq::<nat>::empty() =~= pid_values(pids@));
    pids
}

/// What `Path::with_file_name` gives, on the operating system that the crate is
/// built for.
pub uninterp spec fn path_sibling(path: Seq<char>, name: Seq<char>) -> Seq<char>;

/// `Path::with_file_name`. Nothing more is claimed of the path than that the
/// two arguments determine it.
#[verifier::external_body]
fn with_file_name(path: &str, name: &str) -> (sibling: String)
    ensures
        sibling@ == path_sibling(path@, name@),
{
    std::path::Path::new(path).with_file_name(name).to_string_lossy().into_owned()
}

/// Where the program is looked for first: beside the running one.
pub fn cli_sibling(exe: &str, windows: bool) -> (path: String)
    ensures
        path@ == path_sibling(exe@, binary_name(windows)),
{
    with_file_name(exe, cli_binary_name(windows))
}

/// The program: the one beside the running one, or else the running one if it
/// has the right name. `exe` is the running one, if that is known.
pub fn current_cli_binary(exe: Option<&str>, sibling_exists: bool, windows: bool) -> (r: Result<
    String,
    String,
>)
    ensures
        match r {
            Ok(path) => exe matches Some(e) && path@ == if sibling_exists {
                path_sibling(e@, binary_name(windows))
            } else {
                e@
            },
            Err(error) => error@ == "failed to locate CLI binary"@,
        },
        r is Ok <==> (exe matches Some(e) && (sibling_exists || path_name(e@) == Some(
            binary_name(windows),
        ))),
{
    if let Some(exe) = exe {
        if sibling_exists {
            return Ok(cli_sibling(exe, windows));
        }
        if let Some(name) = file_name(exe) {
            if same_text(name.as_str(), cli_binary_name(windows)) {
                return Ok(exe.to_owned());
            }
        }
    }
    Err("failed to locate CLI binary".to_owned())
}

/// The arguments of the process of the service.
pub fn daemon_arguments(config_path: &str) -> (arguments: Vec<String>)
    ensures
        texts(arguments@) == seq!["--config"@, config_path@, "daemon"@],
{
    let mut arguments: Vec<String> = Vec::new();
    arguments.push("--config".to_owned());
    arguments.push(config_path.to_owned());
    arguments.push("daemon".to_owned());
    assert(texts(arguments@) =~= seq!["--config"@, config_path@, "daemon"@]);
    arguments
}

} // verus!
