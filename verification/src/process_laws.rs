//! How the process of the service is ended, found and noted, in every situation.
use vstd::prelude::*;
use crate::hosts::Answer;
use crate::plan::Outcome;
use crate::process::{
    adopt_step, binary_name, candidates, daemon_command, first_word, pid_values, process_line,
    reconcile_step, repaired, terminate_step, Discovery, PidAnswer, Reading, ReconcileAnswers,
    ReconcileStep, TerminateAnswers, TerminateStep, TerminateTask,
};
use crate::state::StateOf;
use crate::text::{contains_text, decimal, number, trim, white_space};

verus! {

// ---------------------------------------------------------------------------
// Ending the process
// ---------------------------------------------------------------------------
/// First it is found out which process it is. If that fails, so does ending it; if there
/// is none, nothing is left to do.
pub proof fn the_process_is_looked_for_first(a: TerminateAnswers<Seq<char>>, error: Seq<char>)
    ensures
        a.pid is Unknown ==> terminate_step(a) == TerminateStep::<Seq<char>>::Ask(
            TerminateTask::ReadPid,
        ),
        a.pid == PidAnswer::Failed(error) ==> terminate_step(a) == TerminateStep::Finished(
            Outcome::<Seq<char>>::Failed(error),
        ),
        a.pid is Nobody ==> terminate_step(a) == TerminateStep::Finished(
            Outcome::<Seq<char>>::Done,
        ),
{
}

/// A process that runs is asked to end, and nobody else is; one that does not run is left
/// alone.
pub proof fn a_process_is_asked_to_end(a: TerminateAnswers<Seq<char>>, pid: u32)
    requires
        a.pid == PidAnswer::<Seq<char>>::Process(pid),
    ensures
        a.running is None ==> terminate_step(a) == TerminateStep::<Seq<char>>::Ask(
            TerminateTask::CheckRunning(pid),
        ),
        a.running == Some(false) ==> terminate_step(a) == TerminateStep::Finished(
            Outcome::<Seq<char>>::Done,
        ),
        a.running == Some(true) && a.terminated is Unknown ==> terminate_step(a)
            == TerminateStep::<Seq<char>>::Ask(TerminateTask::Terminate(pid)),
{
}

/// A process that was asked to end has five seconds for it.
pub proof fn a_process_has_time_to_end(a: TerminateAnswers<Seq<char>>, pid: u32)
    requires
        a.pid == PidAnswer::<Seq<char>>::Process(pid),
        a.running == Some(true),
        a.terminated is Done,
    ensures
        a.stopped is Unknown ==> terminate_step(a) == TerminateStep::<Seq<char>>::Ask(
            TerminateTask::AwaitStop { pid, seconds: 5 },
        ),
        a.stopped is Done ==> terminate_step(a) == TerminateStep::Finished(
            Outcome::<Seq<char>>::Done,
        ),
{
}

/// A process that did not end in time is forced to, and then has three more seconds.
pub proof fn a_process_is_forced_to_end(a: TerminateAnswers<Seq<char>>, pid: u32)
    requires
        a.pid == PidAnswer::<Seq<char>>::Process(pid),
        a.running == Some(true),
        a.terminated is Done,
        a.stopped is Failed,
    ensures
        a.killed is Unknown ==> terminate_step(a) == TerminateStep::<Seq<char>>::Ask(
            TerminateTask::Kill(pid),
        ),
        a.killed is Done && a.stopped_after_kill is Unknown ==> terminate_step(a)
            == TerminateStep::<Seq<char>>::Ask(
            TerminateTask::AwaitStopAfterKill { pid, seconds: 3 },
        ),
        a.killed is Done && a.stopped_after_kill is Done ==> terminate_step(a)
            == TerminateStep::Finished(Outcome::<Seq<char>>::Done),
{
}

/// A process that could not be ended leaves an issue, which names it and every error on
/// the way.
pub proof fn a_process_that_stays_is_an_issue(
    a: TerminateAnswers<Seq<char>>,
    pid: u32,
    error: Seq<char>,
    force_error: Seq<char>,
)
    requires
        a.pid == PidAnswer::<Seq<char>>::Process(pid),
        a.running == Some(true),
    ensures
        a.terminated == Answer::Failed(error) ==> terminate_step(a) == TerminateStep::Finished(
            Outcome::Issue(
                "failed to terminate running service pid "@ + decimal(pid as nat) + ": "@ + error,
            ),
        ),
        a.terminated is Done && a.stopped == Answer::Failed(error) && a.killed
            == Answer::Failed(force_error) ==> terminate_step(a) == TerminateStep::Finished(
            Outcome::Issue(
                "running service pid "@ + decimal(pid as nat) + " did not stop after SIGTERM ("@
                    + error + "); SIGKILL also failed: "@ + force_error,
            ),
        ),
        a.terminated is Done && a.stopped == Answer::Failed(error) && a.killed is Done
            && a.stopped_after_kill == Answer::Failed(force_error) ==> terminate_step(a)
            == TerminateStep::Finished(
            Outcome::Issue(
                "running service pid "@ + decimal(pid as nat)
                    + " did not stop cleanly after SIGTERM ("@ + error + ") and SIGKILL ("@
                    + force_error + ")"@,
            ),
        ),
{
}

// ---------------------------------------------------------------------------
// Finding out whether the service runs
// ---------------------------------------------------------------------------
/// The noted state comes first: if it says that the service runs, that is it, and if it
/// cannot be read, nothing is known.
pub proof fn the_noted_state_comes_first(
    a: ReconcileAnswers<Seq<char>>,
    now: u64,
    current: StateOf<Seq<char>>,
    error: Seq<char>,
)
    ensures
        a.refreshed is Unknown ==> reconcile_step(a, now) is Refresh,
        a.refreshed == Reading::<Seq<char>>::Failed(error) ==> reconcile_step(a, now)
            == ReconcileStep::<Seq<char>>::Failed(error),
        a.refreshed == Reading::<Seq<char>>::Is(current) && current.running ==> reconcile_step(
            a,
            now,
        ) == ReconcileStep::<Seq<char>>::Finished(current),
        a.refreshed == Reading::<Seq<char>>::Is(current) && !current.running && a.discovered
            is Unknown ==> reconcile_step(a, now) is Discover,
{
}

/// A process that was found is noted: its number, then that it runs; then the state is
/// read again, and that is what is known. An error on the way is an error of it all.
pub proof fn a_found_process_is_noted(
    a: ReconcileAnswers<Seq<char>>,
    now: u64,
    pid: u32,
    state: StateOf<Seq<char>>,
    error: Seq<char>,
)
    requires
        a.refreshed matches Reading::Is(current) && !current.running,
        a.discovered == Discovery::Process(pid),
    ensures
        a.pid_written is Unknown ==> reconcile_step(a, now) == ReconcileStep::<
            Seq<char>,
        >::WritePid(pid),
        a.pid_written == Answer::Failed(error) ==> reconcile_step(a, now) == ReconcileStep::<
            Seq<char>,
        >::Failed(error),
        a.pid_written is Done && a.marked is Unknown ==> reconcile_step(a, now)
            == ReconcileStep::<Seq<char>>::MarkRunning(pid),
        a.pid_written is Done && a.marked == Answer::Failed(error) ==> reconcile_step(a, now)
            == ReconcileStep::<Seq<char>>::Failed(error),
        a.pid_written is Done && a.marked is Done && a.refreshed_again is Unknown
            ==> reconcile_step(a, now) is RefreshAgain,
        a.pid_written is Done && a.marked is Done && a.refreshed_again == Reading::<
            Seq<char>,
        >::Failed(error) ==> reconcile_step(a, now) == ReconcileStep::<Seq<char>>::Failed(error),
        a.pid_written is Done && a.marked is Done && a.refreshed_again == Reading::<
            Seq<char>,
        >::Is(state) ==> reconcile_step(a, now) == ReconcileStep::<Seq<char>>::Finished(state),
{
    assert(reconcile_step(a, now) == adopt_step(a, pid));
}

/// If no process is found, the ports decide. A service that answers is noted as running,
/// without a number, as of now; one that does not is as it was noted.
pub proof fn the_ports_decide_at_last(
    a: ReconcileAnswers<Seq<char>>,
    now: u64,
    current: StateOf<Seq<char>>,
    error: Seq<char>,
)
    requires
        a.refreshed == Reading::<Seq<char>>::Is(current),
        !current.running,
        a.discovered is Nothing,
    ensures
        ({
            let noted = StateOf::<Seq<char>> {
                running: true,
                pid: None,
                status_text: "加速中"@,
                last_error: None,
                updated_at: now,
            };
            &&& a.ports_ready is None ==> reconcile_step(a, now) is CheckPorts
            &&& a.ports_ready == Some(false) ==> reconcile_step(a, now) == ReconcileStep::<
                Seq<char>,
            >::Finished(current)
            &&& a.ports_ready == Some(true) && a.written is Unknown ==> reconcile_step(a, now)
                == ReconcileStep::<Seq<char>>::Write(noted)
            &&& a.ports_ready == Some(true) && a.written is Done ==> reconcile_step(a, now)
                == ReconcileStep::<Seq<char>>::Finished(noted)
            &&& a.ports_ready == Some(true) && a.written == Answer::Failed(error)
                ==> reconcile_step(a, now) == ReconcileStep::<Seq<char>>::Failed(error)
        }),
{
    assert(repaired(now).updated_at == now);
}

// ---------------------------------------------------------------------------
// The list of processes
// ---------------------------------------------------------------------------
/// The program has the same name everywhere, with an ending on Windows.
pub proof fn the_name_of_the_program()
    ensures
        binary_name(false) == "linuxdo-accelerator"@,
        binary_name(true) == "linuxdo-accelerator.exe"@,
{
}

/// The first word of a text reaches up to the first white space, or to the end.
pub proof fn where_the_first_word_ends(word: Seq<char>, rest: Seq<char>)
    requires
        forall|i: int| 0 <= i < word.len() ==> !white_space(#[trigger] word[i]),
        rest.len() > 0 ==> white_space(rest[0]),
    ensures
        first_word(word + rest) == word,
    decreases word.len(),
{
    let s = word + rest;
    if word.len() == 0 {
        if rest.len() > 0 {
            assert(s[0] == rest[0]);
        }
        assert(first_word(s) =~= word);
    } else {
        assert(s[0] == word[0]);
        assert(!white_space(word[0]));
        assert(s.drop_first() =~= word.drop_first() + rest);
        assert forall|i: int| 0 <= i < word.drop_first().len() implies !white_space(
            #[trigger] word.drop_first()[i],
        ) by {
            assert(word.drop_first()[i] == word[i + 1]);
        }
        where_the_first_word_ends(word.drop_first(), rest);
        assert(seq![word[0]] + word.drop_first() =~= word);
    }
}

/// A line starts with the number of the process; what follows, without the white space
/// around it, is its command. If it starts with no number of thirty-two bits, it is not
/// about a process.
pub proof fn what_a_line_says(word: Seq<char>, rest: Seq<char>)
    requires
        forall|i: int| 0 <= i < word.len() ==> !white_space(#[trigger] word[i]),
        rest.len() > 0 ==> white_space(rest[0]),
    ensures
        number(word, 10, 0xffff_ffff) matches Some(pid) ==> process_line(word + rest) == Some(
            (pid, trim(rest)),
        ),
        number(word, 10, 0xffff_ffff) is None ==> process_line(word + rest) is None,
{
    where_the_first_word_ends(word, rest);
    assert((word + rest).skip(word.len() as int) =~= rest);
}

/// The command of the service names the program, the subcommand and the configuration;
/// none of the three is enough without the others.
pub proof fn what_the_service_is_called(
    command: Seq<char>,
    binary: Seq<char>,
    config_path: Seq<char>,
)
    ensures
        daemon_command(command, binary, config_path) ==> contains_text(command, binary),
        daemon_command(command, binary, config_path) ==> contains_text(command, " daemon"@),
        daemon_command(command, binary, config_path) ==> contains_text(command, config_path),
        contains_text(command, binary) && contains_text(command, " daemon"@) && contains_text(
            command,
            config_path,
        ) ==> daemon_command(command, binary, config_path),
{
}

/// A line is about the process `pid`, which may be the service.
pub open spec fn names_candidate(
    line: Seq<char>,
    binary: Seq<char>,
    config_path: Seq<char>,
    pid: nat,
) -> bool {
    &&& trim(line).len() > 0
    &&& process_line(trim(line)) matches Some((p, command))
    &&& p == pid
    &&& contains_text(command, binary)
    &&& contains_text(command, " daemon"@)
    &&& contains_text(command, config_path)
}

/// A line is empty, or about a process.
pub open spec fn line_is_readable(line: Seq<char>) -> bool {
    trim(line).len() == 0 || process_line(trim(line)) is Some
}

/// Every process of the list whose command is that of the service may be it, and no other:
/// those of all lines before the first that cannot be read.
pub proof fn every_process_of_the_service_is_found(
    ls: Seq<Seq<char>>,
    binary: Seq<char>,
    config_path: Seq<char>,
    pid: nat,
)
    ensures
        candidates(ls, binary, config_path).contains(pid) <==> exists|i: int|
            0 <= i < ls.len() && #[trigger] names_candidate(ls[i], binary, config_path, pid)
                && forall|j: int| 0 <= j < i ==> line_is_readable(#[trigger] ls[j]),
    decreases ls.len(),
{
    let found = candidates(ls, binary, config_path);
    if ls.len() > 0 {
        let tail = ls.drop_first();
        let rest = candidates(tail, binary, config_path);
        every_process_of_the_service_is_found(tail, binary, config_path, pid);
        if found.contains(pid) {
            if names_candidate(ls[0], binary, config_path, pid) {
                assert(forall|j: int| 0 <= j < 0 ==> line_is_readable(#[trigger] ls[j]));
            } else {
                assert(line_is_readable(ls[0]));
                assert(rest.contains(pid)) by {
                    let k = choose|k: int| 0 <= k < found.len() && found[k] == pid;
                    if found =~= rest {
                    } else {
                        assert(found.len() == rest.len() + 1);
                        assert(k > 0);
                        assert(rest[k - 1] == pid);
                    }
                }
                let i = choose|i: int|
                    0 <= i < tail.len() && #[trigger] names_candidate(
                        tail[i],
                        binary,
                        config_path,
                        pid,
                    ) && forall|j: int| 0 <= j < i ==> line_is_readable(#[trigger] tail[j]);
                assert(ls[i + 1] == tail[i]);
                assert(names_candidate(ls[i + 1], binary, config_path, pid));
                assert forall|j: int| 0 <= j < i + 1 implies line_is_readable(
                    #[trigger] ls[j],
                ) by {
                    if j > 0 {
                        assert(ls[j] == tail[j - 1]);
                    }
                }
            }
        }
        if exists|i: int|
            0 <= i < ls.len() && #[trigger] names_candidate(ls[i], binary, config_path, pid)
                && forall|j: int| 0 <= j < i ==> line_is_readable(#[trigger] ls[j]) {
            let i = choose|i: int|
                0 <= i < ls.len() && #[trigger] names_candidate(ls[i], binary, config_path, pid)
                    && forall|j: int| 0 <= j < i ==> line_is_readable(#[trigger] ls[j]);
            if i == 0 {
                assert(found[0] == pid);
            } else {
                assert(line_is_readable(ls[0]));
                assert(tail[i - 1] == ls[i]);
                assert(names_candidate(tail[i - 1], binary, config_path, pid));
                assert forall|j: int| 0 <= j < i - 1 implies line_is_readable(
                    #[trigger] tail[j],
                ) by {
                    assert(tail[j] == ls[j + 1]);
                }
                assert(rest.contains(pid));
                let k = choose|k: int| 0 <= k < rest.len() && rest[k] == pid;
                assert(found[k] == pid || found[k + 1] == pid);
            }
        }
    }
}

/// What may be the service comes in the order of the list.
pub proof fn processes_come_in_the_order_of_the_list(
    first: Seq<char>,
    ls: Seq<Seq<char>>,
    binary: Seq<char>,
    config_path: Seq<char>,
    pid: nat,
)
    ensures
        names_candidate(first, binary, config_path, pid) ==> candidates(
            seq![first] + ls,
            binary,
            config_path,
        ) == seq![pid] + candidates(ls, binary, config_path),
        !line_is_readable(first) ==> candidates(seq![first] + ls, binary, config_path).len() == 0,
        trim(first).len() == 0 ==> candidates(seq![first] + ls, binary, config_path) == candidates(
            ls,
            binary,
            config_path,
        ),
{
    assert((seq![first] + ls).drop_first() =~= ls);
    assert((seq![first] + ls)[0] == first);
}

/// The numbers of processes are kept as they are.
pub proof fn process_numbers_are_kept(pids: Seq<u32>, i: int)
    requires
        0 <= i < pids.len(),
    ensures
        pid_values(pids).len() == pids.len(),
        pid_values(pids)[i] == pids[i],
{
}

} // verus!
