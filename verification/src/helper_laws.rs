//! Whom the helper serves and what it answers, for every request.
use vstd::prelude::*;
use crate::helper_ipc::{
    command_of, config_of, helper_step, refused, served_user, HelperAnswers, HelperCommand,
    HelperRequest, HelperStepView, ResponseView,
};
use crate::hosts::Answer;
use crate::process::Reading;
use crate::state::StateOf;
use crate::text::number;

verus! {

/// The helper serves the user who raised its rights, if that is known and a number of
/// thirty-two bits, and else the one that it runs as.
pub proof fn whom_the_helper_serves(sudo_uid: Seq<char>, process_uid: u32)
    ensures
        number(sudo_uid, 10, 0xffff_ffff) matches Some(uid) ==> served_user(
            Some(sudo_uid),
            process_uid,
        ) == uid,
        number(sudo_uid, 10, 0xffff_ffff) is None ==> served_user(Some(sudo_uid), process_uid)
            == process_uid,
        served_user(None, process_uid) == process_uid,
{
}

/// A connection is refused exactly if it is known to be somebody's whom the helper does
/// not serve; a helper of the superuser refuses nobody.
pub proof fn who_is_refused(peer: u32, served: u32)
    ensures
        !refused(None, served),
        !refused(Some(peer), 0),
        !refused(Some(served), served),
        served > 0 && peer < served ==> refused(Some(peer), served),
        served > 0 && peer > served ==> refused(Some(peer), served),
{
}

/// A request is for the command and the configuration that it names.
pub proof fn what_a_request_asks_for(path: String)
    ensures
        command_of(HelperRequest::Start { config_path: path }) == HelperCommand::Start,
        command_of(HelperRequest::Stop { config_path: path }) == HelperCommand::Stop,
        command_of(HelperRequest::Status { config_path: path }) == HelperCommand::Status,
        config_of(HelperRequest::Start { config_path: path }) == path@,
        config_of(HelperRequest::Stop { config_path: path }) == path@,
        config_of(HelperRequest::Status { config_path: path }) == path@,
{
}

/// A start is told of as one, and a failure of it with its error, whatever else is known.
pub proof fn what_is_answered_to_a_start(
    path: Seq<char>,
    a: HelperAnswers<Seq<char>>,
    error: Seq<char>,
)
    ensures
        a.started is Unknown ==> helper_step(HelperCommand::Start, path, a) == (
        HelperStepView::Run { command: HelperCommand::Start, config_path: path }),
        a.started is Done ==> helper_step(HelperCommand::Start, path, a)
            == HelperStepView::Respond(
            ResponseView { success: true, message: "加速服务已启动"@, status: None },
        ),
        a.started == Answer::Failed(error) ==> helper_step(HelperCommand::Start, path, a)
            == HelperStepView::Respond(
            ResponseView { success: false, message: error, status: None },
        ),
{
}

/// A stop is told of as one, and a failure of it with its error, whatever else is known.
pub proof fn what_is_answered_to_a_stop(
    path: Seq<char>,
    a: HelperAnswers<Seq<char>>,
    error: Seq<char>,
)
    ensures
        a.stopped is Unknown ==> helper_step(HelperCommand::Stop, path, a) == (
        HelperStepView::Run { command: HelperCommand::Stop, config_path: path }),
        a.stopped is Done ==> helper_step(HelperCommand::Stop, path, a) == HelperStepView::Respond(
            ResponseView { success: true, message: "加速服务已停止"@, status: None },
        ),
        a.stopped == Answer::Failed(error) ==> helper_step(HelperCommand::Stop, path, a)
            == HelperStepView::Respond(
            ResponseView { success: false, message: error, status: None },
        ),
{
}

/// A request for the state is answered with the very state that was read, and a failure of
/// it with its error, whatever else is known.
pub proof fn what_is_answered_about_the_state(
    path: Seq<char>,
    a: HelperAnswers<Seq<char>>,
    state: StateOf<Seq<char>>,
    error: Seq<char>,
)
    ensures
        a.state is Unknown ==> helper_step(HelperCommand::Status, path, a) == (
        HelperStepView::Run { command: HelperCommand::Status, config_path: path }),
        a.state == Reading::<Seq<char>>::Is(state) ==> helper_step(HelperCommand::Status, path, a)
            == HelperStepView::Respond(
            ResponseView { success: true, message: "ok"@, status: Some(state) },
        ),
        a.state == Reading::<Seq<char>>::Failed(error) ==> helper_step(
            HelperCommand::Status,
            path,
            a,
        ) == HelperStepView::Respond(
            ResponseView { success: false, message: error, status: None },
        ),
{
}

} // verus!
