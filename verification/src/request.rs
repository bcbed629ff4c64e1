//! The life of one compilation request, as a machine that decides and never
//! acts: it is told what happened, and answers with the state the request is
//! in and the process to run next, if any. Whoever drives it runs the
//! process and reports back.

use vstd::prelude::*;
use crate::compiler::{
    cache_eligibility, compile_arguments, eligibility, preprocess_arguments, CCompilerImpl,
    Cacheable, CompilerArguments, CompilerArgumentsModel, Failure, Invocation, InvocationModel,
    OBJECT, ParsedArguments, ParsedModel, ProcessResult, Rejection, RejectionModel,
};

verus! {

/// What comes with a request: the command line as the build system issued
/// it, the compiler to run, and all that the compiler may see of its
/// surroundings.
#[derive(Clone, Debug)]
pub struct Request {
    pub executable: String,
    pub arguments: Vec<String>,
    pub cwd: String,
    pub env_vars: Vec<(String, String)>,
}

/// The mathematical content of a [`Request`].
pub struct RequestModel {
    pub executable: Seq<char>,
    pub arguments: Seq<Seq<char>>,
    pub cwd: Seq<char>,
    pub env_vars: Seq<(Seq<char>, Seq<char>)>,
}

impl View for Request {
    type V = RequestModel;

    open spec fn view(&self) -> RequestModel {
        RequestModel {
            executable: self.executable@,
            arguments: self.arguments.deep_view(),
            cwd: self.cwd@,
            env_vars: self.env_vars.deep_view(),
        }
    }
}

/// Why a request goes past the cache.
#[derive(Clone, Debug)]
pub enum Bypass {
    /// It is no compilation: it is run as it is.
    NotACompilation,
    /// It is a compilation that cannot be cached.
    CannotCache(Rejection),
}

/// The mathematical content of a [`Bypass`].
pub enum BypassModel {
    NotACompilation,
    CannotCache(RejectionModel),
}

impl View for Bypass {
    type V = BypassModel;

    open spec fn view(&self) -> BypassModel {
        match self {
            Bypass::NotACompilation => BypassModel::NotACompilation,
            Bypass::CannotCache(why) => BypassModel::CannotCache(why@),
        }
    }
}

/// The states of a request.
#[derive(Clone, Debug)]
pub enum RequestState {
    /// Nothing has been done yet.
    Received,
    /// The command line is a compilation that the cache can handle.
    Recognized(ParsedArguments),
    /// The request goes past the cache. Final.
    Rejected(Bypass),
    /// The preprocessing run has been asked for.
    Preprocessing(ParsedArguments),
    /// The preprocessing run has ended, with whatever exit status.
    Preprocessed(ParsedArguments, ProcessResult),
    /// The preprocessing run could not be had. Final.
    PreprocessFailed(Failure),
    /// The compiling run is due.
    Compiling(ParsedArguments),
    /// The compiling run has ended, with whatever exit status. Final.
    Compiled(Cacheable, ProcessResult),
    /// The compiling run could not be had. Final.
    CompileFailed(Failure),
}

/// The mathematical content of a [`RequestState`].
pub enum StateModel {
    Received,
    Recognized(ParsedModel),
    Rejected(BypassModel),
    Preprocessing(ParsedModel),
    Preprocessed(ParsedModel, ProcessResult),
    PreprocessFailed(Failure),
    Compiling(ParsedModel),
    Compiled(Cacheable, ProcessResult),
    CompileFailed(Failure),
}

impl View for RequestState {
    type V = StateModel;

    open spec fn view(&self) -> StateModel {
        match self {
            RequestState::Received => StateModel::Received,
            RequestState::Recognized(parsed) => StateModel::Recognized(parsed@),
            RequestState::Rejected(why) => StateModel::Rejected(why@),
            RequestState::Preprocessing(parsed) => StateModel::Preprocessing(parsed@),
            RequestState::Preprocessed(parsed, output) => StateModel::Preprocessed(parsed@, *output),
            RequestState::PreprocessFailed(failure) => StateModel::PreprocessFailed(*failure),
            RequestState::Compiling(parsed) => StateModel::Compiling(parsed@),
            RequestState::Compiled(verdict, output) => StateModel::Compiled(*verdict, *output),
            RequestState::CompileFailed(failure) => StateModel::CompileFailed(*failure),
        }
    }
}

/// What the driver reports to the machine.
#[derive(Clone, Debug)]
pub enum Event {
    /// Nothing happened outside: the machine may take its next step.
    Proceed,
    /// The process that was asked for has ended and left this behind.
    Exited(ProcessResult),
    /// The process that was asked for could not be started.
    SpawnFailed,
}

/// What the machine asks of the driver.
#[derive(Clone, Debug)]
pub enum Action {
    /// Nothing to do outside.
    Nothing,
    /// Run this process and report how it ended.
    Spawn(Invocation),
}

/// The mathematical content of an [`Action`].
pub enum ActionModel {
    Nothing,
    Spawn(InvocationModel),
}

impl View for Action {
    type V = ActionModel;

    open spec fn view(&self) -> ActionModel {
        match self {
            Action::Nothing => ActionModel::Nothing,
            Action::Spawn(run) => ActionModel::Spawn(run@),
        }
    }
}

impl StateModel {
    /// The final states: nothing happens to a request that is in one.
    pub open spec fn is_final(self) -> bool {
        self is Rejected || self is PreprocessFailed || self is Compiled || self is CompileFailed
    }

    /// How far a request has come: each transition takes it one stage on.
    pub open spec fn stage(self) -> nat {
        match self {
            StateModel::Received => 0,
            StateModel::Recognized(_) => 1,
            StateModel::Rejected(_) => 1,
            StateModel::Preprocessing(_) => 2,
            StateModel::Preprocessed(_, _) => 3,
            StateModel::PreprocessFailed(_) => 3,
            StateModel::Compiling(_) => 4,
            StateModel::Compiled(_, _) => 5,
            StateModel::CompileFailed(_) => 5,
        }
    }
}

impl RequestState {
    /// Whether the request has come to an end.
    pub fn is_final(&self) -> (b: bool)
        ensures
            b == self@.is_final(),
    {
        match self {
            RequestState::Rejected(_) => true,
            RequestState::PreprocessFailed(_) => true,
            RequestState::Compiled(_, _) => true,
            RequestState::CompileFailed(_) => true,
            _ => false,
        }
    }
}

/// The invocation of the compiler of a request with the given arguments.
pub open spec fn invocation_of(request: RequestModel, arguments: Seq<Seq<char>>) -> InvocationModel {
    InvocationModel::detached(request.executable, arguments, request.env_vars, request.cwd)
}

/// The state that follows `state` when `event` is reported. An event that
/// the state does not wait for changes nothing.
pub open spec fn next_state<C: CCompilerImpl>(
    compiler: &C,
    request: RequestModel,
    state: StateModel,
    event: Event,
) -> StateModel {
    match (state, event) {
        (StateModel::Received, Event::Proceed) => match compiler.parsed(request.arguments) {
            CompilerArgumentsModel::Recognized(parsed) => StateModel::Recognized(parsed),
            CompilerArgumentsModel::CannotCache(why) => StateModel::Rejected(
                BypassModel::CannotCache(why),
            ),
            CompilerArgumentsModel::NotACompilation => StateModel::Rejected(
                BypassModel::NotACompilation,
            ),
        },
        (StateModel::Recognized(parsed), Event::Proceed) => StateModel::Preprocessing(parsed),
        (StateModel::Preprocessing(parsed), Event::Exited(output)) => StateModel::Preprocessed(
            parsed,
            output,
        ),
        (StateModel::Preprocessing(_), Event::SpawnFailed) => StateModel::PreprocessFailed(
            Failure::ProcessSpawnFailure,
        ),
        (StateModel::Preprocessed(parsed, _), Event::Proceed) => StateModel::Compiling(parsed),
        (StateModel::Compiling(parsed), Event::Proceed) => if parsed.outputs.dom().contains(OBJECT@) {
            state
        } else {
            StateModel::CompileFailed(Failure::MissingRequiredOutput)
        },
        (StateModel::Compiling(parsed), Event::Exited(output)) => if parsed.outputs.dom().contains(
            OBJECT@,
        ) {
            StateModel::Compiled(eligibility(CompilerArgumentsModel::Recognized(parsed)), output)
        } else {
            state
        },
        (StateModel::Compiling(parsed), Event::SpawnFailed) => if parsed.outputs.dom().contains(
            OBJECT@,
        ) {
            StateModel::CompileFailed(Failure::ProcessSpawnFailure)
        } else {
            state
        },
        _ => state,
    }
}

/// What the machine asks for when `event` is reported in `state`: the
/// preprocessing run on leaving `Recognized`, the compiling run on leaving
/// `Preprocessed` if the request declares an object file, and nothing
/// otherwise.
pub open spec fn next_action<C: CCompilerImpl>(
    compiler: &C,
    request: RequestModel,
    state: StateModel,
    event: Event,
) -> ActionModel {
    match (state, event) {
        (StateModel::Recognized(parsed), Event::Proceed) => ActionModel::Spawn(
            invocation_of(request, preprocess_arguments(compiler, parsed)),
        ),
        (StateModel::Preprocessed(parsed, _), Event::Proceed) => if parsed.outputs.dom().contains(
            OBJECT@,
        ) {
            ActionModel::Spawn(
                invocation_of(request, compile_arguments(compiler, parsed, parsed.outputs[OBJECT@])),
            )
        } else {
            ActionModel::Nothing
        },
        _ => ActionModel::Nothing,
    }
}

/// Takes the request one step on: the state that follows, and what is to be
/// done outside before the next report.
pub fn step<C: CCompilerImpl>(compiler: &C, request: &Request, state: RequestState, event: Event) -> (r: (
    RequestState,
    Action,
))
    ensures
        r.0@ == next_state(compiler, request@, state@, event),
        r.1@ == next_action(compiler, request@, state@, event),
{
    match (state, event) {
        (RequestState::Received, Event::Proceed) => {
            let outcome = compiler.parse_arguments(&request.arguments, request.cwd.as_str());
            let next = match outcome {
                CompilerArguments::Recognized(parsed) => RequestState::Recognized(parsed),
                CompilerArguments::CannotCache(why) => RequestState::Rejected(Bypass::CannotCache(why)),
                CompilerArguments::NotACompilation => RequestState::Rejected(Bypass::NotACompilation),
            };
            (next, Action::Nothing)
        },
        (RequestState::Recognized(parsed), Event::Proceed) => {
            let run = compiler.preprocess(
                request.executable.as_str(),
                &parsed,
                request.cwd.as_str(),
                &request.env_vars,
            );
            (RequestState::Preprocessing(parsed), Action::Spawn(run))
        },
        (RequestState::Preprocessing(parsed), Event::Exited(output)) => (
            RequestState::Preprocessed(parsed, output),
            Action::Nothing,
        ),
        (RequestState::Preprocessing(_), Event::SpawnFailed) => (
            RequestState::PreprocessFailed(Failure::ProcessSpawnFailure),
            Action::Nothing,
        ),
        (RequestState::Preprocessed(parsed, _), Event::Proceed) => {
            let planned = compiler.compile(
                request.executable.as_str(),
                &parsed,
                request.cwd.as_str(),
                &request.env_vars,
            );
            match planned {
                Ok((_, run)) => (RequestState::Compiling(parsed), Action::Spawn(run)),
                Err(_) => (RequestState::Compiling(parsed), Action::Nothing),
            }
        },
        (RequestState::Compiling(parsed), event) => {
            let declared = parsed.outputs.contains(OBJECT);
            match event {
                Event::Proceed => {
                    if declared {
                        (RequestState::Compiling(parsed), Action::Nothing)
                    } else {
                        (RequestState::CompileFailed(Failure::MissingRequiredOutput), Action::Nothing)
                    }
                },
                Event::Exited(output) => {
                    if declared {
                        let outcome = CompilerArguments::Recognized(parsed);
                        let verdict = cache_eligibility(&outcome, &output);
                        (RequestState::Compiled(verdict, output), Action::Nothing)
                    } else {
                        (RequestState::Compiling(parsed), Action::Nothing)
                    }
                },
                Event::SpawnFailed => {
                    if declared {
                        (RequestState::CompileFailed(Failure::ProcessSpawnFailure), Action::Nothing)
                    } else {
                        (RequestState::Compiling(parsed), Action::Nothing)
                    }
                },
            }
        },
        (state, _) => (state, Action::Nothing),
    }
}

/// The state that a request is in after a sequence of reports.
pub open spec fn state_after<C: CCompilerImpl>(
    compiler: &C,
    request: RequestModel,
    state: StateModel,
    events: Seq<Event>,
) -> StateModel
    decreases events.len(),
{
    if events.len() == 0 {
        state
    } else {
        next_state(
            compiler,
            request,
            state_after(compiler, request, state, events.drop_last()),
            events.last(),
        )
    }
}

/// What the machine asks for upon the last of a sequence of reports.
pub open spec fn last_action<C: CCompilerImpl>(
    compiler: &C,
    request: RequestModel,
    state: StateModel,
    events: Seq<Event>,
) -> ActionModel {
    if events.len() == 0 {
        ActionModel::Nothing
    } else {
        next_action(
            compiler,
            request,
            state_after(compiler, request, state, events.drop_last()),
            events.last(),
        )
    }
}

/// The reports that a state waits for: the go-ahead where the next step is
/// the machine's own, the end of the process where one was asked for.
pub open spec fn awaits(state: StateModel, event: Event) -> bool {
    match state {
        StateModel::Received => event is Proceed,
        StateModel::Recognized(_) => event is Proceed,
        StateModel::Preprocessing(_) => event is Exited || event is SpawnFailed,
        StateModel::Preprocessed(_, _) => event is Proceed,
        StateModel::Compiling(parsed) => if parsed.outputs.dom().contains(OBJECT@) {
            event is Exited || event is SpawnFailed
        } else {
            event is Proceed
        },
        _ => false,
    }
}

/// Transitions are sequential: a report that the state waits for takes the
/// request exactly one stage on, never further and never back; any other
/// report leaves it where it is and asks for nothing.
pub proof fn lemma_never_skips<C: CCompilerImpl>(
    compiler: &C,
    request: RequestModel,
    state: StateModel,
    event: Event,
)
    ensures
        awaits(state, event) ==> next_state(compiler, request, state, event).stage() == state.stage()
            + 1,
        !awaits(state, event) ==> next_state(compiler, request, state, event) == state
            && next_action(compiler, request, state, event) is Nothing,
{
}

/// A driver that answers a request for a process with how the process
/// ended, and anything else with the go-ahead, always reports what the
/// state waits for, unless the request has come to its end: so the request
/// reaches a final state within five steps.
pub proof fn lemma_driver_makes_progress<C: CCompilerImpl>(
    compiler: &C,
    request: RequestModel,
    state: StateModel,
    event: Event,
    output: ProcessResult,
)
    requires
        awaits(state, event),
    ensures
        ({
            let next = next_state(compiler, request, state, event);
            let asked = next_action(compiler, request, state, event);
            &&& next.stage() <= 5
            &&& next.stage() == 5 ==> next.is_final()
            &&& asked is Spawn ==> awaits(next, Event::Exited(output)) && awaits(
                next,
                Event::SpawnFailed,
            )
            &&& asked is Nothing && !next.is_final() ==> awaits(next, Event::Proceed)
        }),
{
}

/// A process is asked for at two points only: the preprocessing run when a
/// recognized request starts preprocessing, and the compiling run when a
/// preprocessed request that declares its object file starts compiling.
pub proof fn lemma_spawns_only_on_entry<C: CCompilerImpl>(
    compiler: &C,
    request: RequestModel,
    state: StateModel,
    event: Event,
)
    ensures
        next_action(compiler, request, state, event) matches ActionModel::Spawn(run) ==> {
            let next = next_state(compiler, request, state, event);
            ||| {
                &&& state matches StateModel::Recognized(parsed)
                &&& next == StateModel::Preprocessing(parsed)
                &&& run == invocation_of(request, preprocess_arguments(compiler, parsed))
            }
            ||| {
                &&& state matches StateModel::Preprocessed(parsed, _)
                &&& next == StateModel::Compiling(parsed)
                &&& parsed.outputs.dom().contains(OBJECT@)
                &&& run == invocation_of(
                    request,
                    compile_arguments(compiler, parsed, parsed.outputs[OBJECT@]),
                )
            }
        },
{
}

/// A request that does not declare its object file fails when its compiling
/// run is due, and no process is asked for on the way.
pub proof fn lemma_missing_output_fails<C: CCompilerImpl>(
    compiler: &C,
    request: RequestModel,
    parsed: ParsedModel,
    output: ProcessResult,
)
    requires
        !parsed.outputs.dom().contains(OBJECT@),
    ensures
        ({
            let due = StateModel::Preprocessed(parsed, output);
            let compiling = next_state(compiler, request, due, Event::Proceed);
            &&& compiling == StateModel::Compiling(parsed)
            &&& next_action(compiler, request, due, Event::Proceed) is Nothing
            &&& next_state(compiler, request, compiling, Event::Proceed) == StateModel::CompileFailed(
                Failure::MissingRequiredOutput,
            )
            &&& next_action(compiler, request, compiling, Event::Proceed) is Nothing
        }),
{
}

/// A final state is final: whatever is reported afterwards, the request
/// stays as it is and no process is asked for. So nothing is run for a
/// rejected request, and nothing is compiled after preprocessing failed.
pub proof fn lemma_final_is_final<C: CCompilerImpl>(
    compiler: &C,
    request: RequestModel,
    state: StateModel,
    events: Seq<Event>,
)
    requires
        state.is_final(),
    ensures
        state_after(compiler, request, state, events) == state,
        last_action(compiler, request, state, events) is Nothing,
    decreases events.len(),
{
    if events.len() > 0 {
        lemma_final_is_final(compiler, request, state, events.drop_last());
    }
}

/// The verdict of a compiled request is the decision on what was parsed,
/// whatever the compiling run left behind: a run that failed by its exit
/// status changes nothing in it.
pub proof fn lemma_verdict_ignores_exit<C: CCompilerImpl>(
    compiler: &C,
    request: RequestModel,
    parsed: ParsedModel,
    first: ProcessResult,
    second: ProcessResult,
)
    requires
        parsed.outputs.dom().contains(OBJECT@),
    ensures
        next_state(compiler, request, StateModel::Compiling(parsed), Event::Exited(first))
            == StateModel::Compiled(Cacheable::Yes, first),
        next_state(compiler, request, StateModel::Compiling(parsed), Event::Exited(second))
            == StateModel::Compiled(Cacheable::Yes, second),
{
}

} // verus!
