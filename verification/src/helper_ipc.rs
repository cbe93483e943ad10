//! Talking to the privileged helper: one request and one response, each on a
//! line of its own.
use vstd::prelude::*;
use crate::hosts::Answer;
use crate::paths::{join_path, parse_uid, path_join};
use crate::process::Reading;
use crate::state::{ServiceState, StateOf};
use crate::text::{
    decimal, decimal_text, joined, joined4, number, option_str, trim, trim_end, trim_start,
    trimmed_text, white_space,
};

verus! {

/// What the helper is asked for.
#[derive(Debug, Clone)]
pub enum HelperRequest {
    Start { config_path: String },
    Stop { config_path: String },
    Status { config_path: String },
}

/// What the helper answers.
#[derive(Debug, Clone)]
pub struct HelperResponse {
    pub success: bool,
    pub message: String,
    pub status: Option<ServiceState>,
}

/// What a [`HelperResponse`] holds.
#[verifier::ext_equal]
pub struct ResponseView {
    pub success: bool,
    pub message: Seq<char>,
    pub status: Option<StateOf<Seq<char>>>,
}

impl View for HelperResponse {
    type V = ResponseView;

    open spec fn view(&self) -> ResponseView {
        ResponseView {
            success: self.success,
            message: self.message@,
            status: match self.status {
                Some(state) => Some(state@),
                None => None,
            },
        }
    }
}

/// A response that is only a message.
pub open spec fn told(success: bool, message: Seq<char>) -> ResponseView {
    ResponseView { success, message, status: None }
}

fn tell(success: bool, message: String) -> (response: HelperResponse)
    ensures
        response@ == told(success, message@),
{
    HelperResponse { success, message, status: None }
}

/// The socket of the helper.
pub fn socket_path() -> (path: String)
    ensures
        path@ == path_join("/tmp"@, "io.linuxdo.accelerator.helper.sock"@),
{
    join_path("/tmp", "io.linuxdo.accelerator.helper.sock")
}

/// The user that the helper serves: the one who raised its rights, or else the
/// one that it runs as.
pub open spec fn served_user(sudo_uid: Option<Seq<char>>, process_uid: u32) -> nat {
    match sudo_uid {
        Some(text) => match number(text, 10, u32::MAX as nat) {
            Some(uid) => uid,
            None => process_uid as nat,
        },
        None => process_uid as nat,
    }
}

/// The user that the helper serves.
pub fn real_user_uid(sudo_uid: Option<&str>, process_uid: u32) -> (uid: u32)
    ensures
        uid == served_user(option_str(sudo_uid), process_uid),
{
    match sudo_uid {
        Some(text) => match parse_uid(text) {
            Some(uid) => uid,
            None => process_uid,
        },
        None => process_uid,
    }
}

/// A connection is refused: it is known whose it is, the helper serves one user
/// in particular, and that is another.
pub open spec fn refused(peer_uid: Option<u32>, real_uid: u32) -> bool {
    real_uid != 0 && (peer_uid matches Some(peer) && peer != real_uid)
}

/// Answers a connection that is refused.
pub fn refuse_peer(peer_uid: Option<u32>, real_uid: u32) -> (response: Option<HelperResponse>)
    ensures
        response is Some <==> refused(peer_uid, real_uid),
        response matches Some(r) ==> r@ == told(
            false,
            "rejected: peer uid "@ + decimal(peer_uid->0 as nat) + " != expected "@ + decimal(
                real_uid as nat,
            ),
        ),
{
    match peer_uid {
        Some(peer) => if real_uid != 0 && peer != real_uid {
            let text = joined4(
                "rejected: peer uid ",
                decimal_text(peer as u64).as_str(),
                " != expected ",
                decimal_text(real_uid as u64).as_str(),
            );
            Some(tell(false, text))
        } else {
            None
        },
        None => None,
    }
}

/// Answers a request that could not be read.
pub fn invalid_request(error: &str) -> (response: HelperResponse)
    ensures
        response@ == told(false, "invalid request: "@ + error@),
{
    tell(false, joined("invalid request: ", error))
}

/// What the helper can do.
#[derive(Clone, Copy, Debug, PartialEq, Eq, Structural)]
pub enum HelperCommand {
    Start,
    Stop,
    Status,
}

/// The command that a request asks for.
pub open spec fn command_of(request: HelperRequest) -> HelperCommand {
    match request {
        HelperRequest::Start { config_path: _ } => HelperCommand::Start,
        HelperRequest::Stop { config_path: _ } => HelperCommand::Stop,
        HelperRequest::Status { config_path: _ } => HelperCommand::Status,
    }
}

/// The configuration that a request is about.
pub open spec fn config_of(request: HelperRequest) -> Seq<char> {
    match request {
        HelperRequest::Start { config_path } => config_path@,
        HelperRequest::Stop { config_path } => config_path@,
        HelperRequest::Status { config_path } => config_path@,
    }
}

/// The command that a request asks for, and the configuration to run it with.
pub fn requested_command(request: &HelperRequest) -> (r: (HelperCommand, String))
    ensures
        r.0 == command_of(*request),
        r.1@ == config_of(*request),
{
    match request {
        HelperRequest::Start { config_path } => (HelperCommand::Start, config_path.clone()),
        HelperRequest::Stop { config_path } => (HelperCommand::Stop, config_path.clone()),
        HelperRequest::Status { config_path } => (HelperCommand::Status, config_path.clone()),
    }
}

/// What came of each command, if it was run for the request.
pub struct HelperAnswers<S> {
    pub started: Answer<S>,
    pub stopped: Answer<S>,
    pub state: Reading<S>,
}

impl View for HelperAnswers<String> {
    type V = HelperAnswers<Seq<char>>;

    open spec fn view(&self) -> HelperAnswers<Seq<char>> {
        HelperAnswers {
            started: self.started@,
            stopped: self.stopped@,
            state: self.state@,
        }
    }
}

impl HelperAnswers<String> {
    /// No command was run.
    pub fn new() -> (answers: HelperAnswers<String>)
        ensures
            answers@ == (HelperAnswers::<Seq<char>> {
                started: Answer::Unknown,
                stopped: Answer::Unknown,
                state: Reading::Unknown,
            }),
    {
        HelperAnswers {
            started: Answer::Unknown,
            stopped: Answer::Unknown,
            state: Reading::Unknown,
        }
    }
}

/// What the helper does next about a request.
pub enum HelperStep {
    /// Run the command with this configuration.
    Run { command: HelperCommand, config_path: String },
    Respond(HelperResponse),
}

/// What a [`HelperStep`] says.
pub enum HelperStepView {
    Run { command: HelperCommand, config_path: Seq<char> },
    Respond(ResponseView),
}

impl View for HelperStep {
    type V = HelperStepView;

    open spec fn view(&self) -> HelperStepView {
        match *self {
            HelperStep::Run { command, config_path } => HelperStepView::Run {
                command,
                config_path: config_path@,
            },
            HelperStep::Respond(response) => HelperStepView::Respond(response@),
        }
    }
}

/// The response once a command was run that only works or not.
pub open spec fn reported(answer: Answer<Seq<char>>, message: Seq<char>) -> Option<ResponseView> {
    match answer {
        Answer::Unknown => None,
        Answer::Done => Some(told(true, message)),
        Answer::Failed(error) => Some(told(false, error)),
    }
}

/// The response to a request for a command, once that very command was run.
pub open spec fn response_to(
    command: HelperCommand,
    a: HelperAnswers<Seq<char>>,
) -> Option<ResponseView> {
    match command {
        HelperCommand::Start => reported(a.started, "加速服务已启动"@),
        HelperCommand::Stop => reported(a.stopped, "加速服务已停止"@),
        HelperCommand::Status => match a.state {
            Reading::Unknown => None,
            Reading::Is(state) => Some(
                ResponseView { success: true, message: "ok"@, status: Some(state) },
            ),
            Reading::Failed(error) => Some(told(false, error)),
        },
    }
}

/// What the helper does next about a request: it runs the command that is asked
/// for with the configuration that the request names, and responds with what
/// came of it.
pub open spec fn helper_step(
    command: HelperCommand,
    config_path: Seq<char>,
    a: HelperAnswers<Seq<char>>,
) -> HelperStepView {
    match response_to(command, a) {
        None => HelperStepView::Run { command, config_path },
        Some(response) => HelperStepView::Respond(response),
    }
}

fn report(answer: Answer<String>, message: &str) -> (response: Option<HelperResponse>)
    ensures
        match response {
            Some(r) => reported(answer@, message@) == Some(r@),
            None => reported(answer@, message@) is None,
        },
{
    match answer {
        Answer::Unknown => None,
        Answer::Done => Some(tell(true, message.to_owned())),
        Answer::Failed(error) => Some(tell(false, error)),
    }
}

/// Says what the helper does next about a request.
pub fn run_privileged_helper(request: &HelperRequest, answers: HelperAnswers<String>) -> (
    step: HelperStep)
    ensures
        step@ == helper_step(command_of(*request), config_of(*request), answers@),
{
    let (command, config_path) = requested_command(request);
    let response = match command {
        HelperCommand::Start => report(answers.started, "加速服务已启动"),
        HelperCommand::Stop => report(answers.stopped, "加速服务已停止"),
        HelperCommand::Status => match answers.state {
            Reading::Unknown => None,
            Reading::Is(state) => Some(
                HelperResponse { success: true, message: "ok".to_owned(), status: Some(state) },
            ),
            Reading::Failed(error) => Some(tell(false, error)),
        },
    };
    match response {
        None => HelperStep::Run { command, config_path },
        Some(response) => HelperStep::Respond(response),
    }
}

/// The line for a message.
pub fn frame_message(payload: &str) -> (line: String)
    ensures
        line@ == payload@.push('\n'),
{
    let mut line = payload.to_owned();
    line.push('\n');
    line
}

/// The message in a line.
pub fn message_of_line(line: &str) -> (payload: String)
    ensures
        payload@ == trim(line@),
{
    trimmed_text(line)
}

// ---------------------------------------------------------------------------
// Laws
// ---------------------------------------------------------------------------
proof fn trim_start_ignores_an_end(s: Seq<char>, c: char)
    requires
        white_space(c),
    ensures
        trim_end(trim_start(s.push(c))) == trim_end(trim_start(s)),
    decreases s.len(),
{
    let t = s.push(c);
    if s.len() == 0 {
        assert(s =~= Seq::empty());
        assert(t.drop_first() =~= s);
        assert(t[0] == c);
        assert(trim_start(t) == trim_start(s));
    } else if white_space(s[0]) {
        assert(t[0] == s[0]);
        assert(t.drop_first() =~= s.drop_first().push(c));
        trim_start_ignores_an_end(s.drop_first(), c);
    } else {
        assert(t[0] == s[0]);
        assert(t.last() == c);
        assert(t.drop_last() =~= s);
        assert(trim_end(t) == trim_end(s));
    }
}

/// A message that was put on a line is found on it again.
pub proof fn a_framed_message_is_read_back(payload: Seq<char>)
    requires
        trim(payload) == payload,
    ensures
        trim(payload.push('\n')) == payload,
{
    trim_start_ignores_an_end(payload, '\n');
}

/// Nobody but the served user and those that cannot be told apart from them is
/// let in, unless the helper serves everybody.
pub proof fn only_the_served_user_is_let_in(peer_uid: u32, real_uid: u32)
    requires
        real_uid != 0,
    ensures
        !refused(Some(peer_uid), real_uid) <==> peer_uid == real_uid,
{
}

/// The command came to this end: it worked, with a state if it was asked for
/// one, or it failed with this error.
pub open spec fn end_of(command: HelperCommand, a: HelperAnswers<Seq<char>>) -> Option<
    Result<Option<StateOf<Seq<char>>>, Seq<char>>,
> {
    match command {
        HelperCommand::Start => end_of_answer(a.started),
        HelperCommand::Stop => end_of_answer(a.stopped),
        HelperCommand::Status => match a.state {
            Reading::Unknown => None,
            Reading::Is(state) => Some(Ok(Some(state))),
            Reading::Failed(error) => Some(Err(error)),
        },
    }
}

/// How a command ended that only works or not.
pub open spec fn end_of_answer(answer: Answer<Seq<char>>) -> Option<
    Result<Option<StateOf<Seq<char>>>, Seq<char>>,
> {
    match answer {
        Answer::Unknown => None,
        Answer::Done => Some(Ok(None)),
        Answer::Failed(error) => Some(Err(error)),
    }
}

/// A request runs its own command on the configuration that it names, and no
/// other, and does so until that command has come to an end.
pub proof fn a_request_runs_its_own_command(
    command: HelperCommand,
    config_path: Seq<char>,
    a: HelperAnswers<Seq<char>>,
)
    ensures
        helper_step(command, config_path, a) is Run <==> end_of(command, a) is None,
        helper_step(command, config_path, a) is Run ==> helper_step(command, config_path, a)
            == (HelperStepView::Run { command, config_path }),
{
}

/// A response says that the command worked if and only if it did; it holds a
/// state exactly if one was asked for and found, and then that one; and the
/// message of a failure is its error.
pub proof fn success_is_told_truly(
    command: HelperCommand,
    config_path: Seq<char>,
    a: HelperAnswers<Seq<char>>,
    response: ResponseView,
)
    requires
        helper_step(command, config_path, a) == HelperStepView::Respond(response),
    ensures
        response.success <==> end_of(command, a)->0 is Ok,
        response.status matches Some(state) ==> command is Status && end_of(command, a) == Some(
            Ok::<Option<StateOf<Seq<char>>>, Seq<char>>(Some(state)),
        ),
        command is Status && end_of(command, a)->0 is Ok ==> response.status is Some,
        end_of(command, a) matches Some(Err(error)) ==> response.message == error,
{
}

} // verus!
