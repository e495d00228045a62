//! The interactive generate/confirm/retry loop as an explicit state
//! machine. The driver around the library performs one external action per
//! state (a generation call, a model pull, a terminal question, the commit
//! command), feeds the outcome back in as an [`Event`], and steps the
//! machine; every transition is fixed by [`step_spec`].

use vstd::prelude::*;
use crate::text::contains_seq;
use crate::text::contains_str;
use crate::text::trim;
use crate::text::trim_spec;

verus! {

/// How a generation attempt failed: the requested model is absent on the
/// service, or anything else, carried with its report text.
pub enum FailureKind {
    ModelNotFound,
    Other { message: String },
}

/// Ghost view of [`FailureKind`].
pub enum FailureKindView {
    ModelNotFound,
    Other(Seq<char>),
}

impl View for FailureKind {
    type V = FailureKindView;

    open spec fn view(&self) -> FailureKindView {
        match self {
            FailureKind::ModelNotFound => FailureKindView::ModelNotFound,
            FailureKind::Other { message } => FailureKindView::Other(message@),
        }
    }
}

/// A state of the loop. `Presenting`, `Committing` and `Committed` carry
/// the suggestion text; the last three states are terminal.
pub enum State {
    Generating,
    Presenting { suggestion: String },
    ModelMissing,
    Committing { message: String },
    Committed { message: String },
    Canceled,
    PullFailed,
    Failed { message: String },
}

/// Ghost view of [`State`].
pub enum StateView {
    Generating,
    Presenting(Seq<char>),
    ModelMissing,
    Committing(Seq<char>),
    Committed(Seq<char>),
    Canceled,
    PullFailed,
    Failed(Seq<char>),
}

impl View for State {
    type V = StateView;

    open spec fn view(&self) -> StateView {
        match self {
            State::Generating => StateView::Generating,
            State::Presenting { suggestion } => StateView::Presenting(suggestion@),
            State::ModelMissing => StateView::ModelMissing,
            State::Committing { message } => StateView::Committing(message@),
            State::Committed { message } => StateView::Committed(message@),
            State::Canceled => StateView::Canceled,
            State::PullFailed => StateView::PullFailed,
            State::Failed { message } => StateView::Failed(message@),
        }
    }
}

/// The outcome of the one external action that the current state asks for.
pub enum Event {
    /// The generation call returned text.
    Generated { text: String },
    /// The generation call failed, already classified.
    GenerationFailed { kind: FailureKind },
    /// The model pull command finished.
    PullFinished { success: bool },
    /// The user answered the commit question, and, after declining,
    /// the regeneration question.
    CommitChoice { commit: bool, regenerate: bool },
    /// The commit command was run.
    CommitFinished,
}

/// Ghost view of [`Event`].
pub enum EventView {
    Generated(Seq<char>),
    GenerationFailed(FailureKindView),
    PullFinished(bool),
    CommitChoice(bool, bool),
    CommitFinished,
}

impl View for Event {
    type V = EventView;

    open spec fn view(&self) -> EventView {
        match self {
            Event::Generated { text } => EventView::Generated(text@),
            Event::GenerationFailed { kind } => EventView::GenerationFailed(kind@),
            Event::PullFinished { success } => EventView::PullFinished(*success),
            Event::CommitChoice { commit, regenerate } => EventView::CommitChoice(
                *commit,
                *regenerate,
            ),
            Event::CommitFinished => EventView::CommitFinished,
        }
    }
}

/// The transition table of the loop. A generated text is presented
/// trimmed; a missing model leads to one pull, whose success returns to
/// generation and whose failure ends the run; declining the commit and the
/// regeneration cancels; accepting commits the presented text verbatim.
/// An event that its state does not ask for changes nothing.
pub open spec fn step_spec(s: StateView, e: EventView) -> StateView {
    match (s, e) {
        (StateView::Generating, EventView::Generated(text)) => StateView::Presenting(
            trim_spec(text),
        ),
        (
            StateView::Generating,
            EventView::GenerationFailed(FailureKindView::ModelNotFound),
        ) => StateView::ModelMissing,
        (
            StateView::Generating,
            EventView::GenerationFailed(FailureKindView::Other(message)),
        ) => StateView::Failed(message),
        (StateView::ModelMissing, EventView::PullFinished(success)) => if success {
            StateView::Generating
        } else {
            StateView::PullFailed
        },
        (StateView::Presenting(m), EventView::CommitChoice(commit, regenerate)) => if commit {
            StateView::Committing(m)
        } else if regenerate {
            StateView::Generating
        } else {
            StateView::Canceled
        },
        (StateView::Committing(m), EventView::CommitFinished) => StateView::Committed(m),
        (_, _) => s,
    }
}

/// True for the states in which the run is over.
pub open spec fn is_terminal(s: StateView) -> bool {
    match s {
        StateView::Committed(_) => true,
        StateView::Canceled => true,
        StateView::PullFailed => true,
        StateView::Failed(_) => true,
        _ => false,
    }
}

/// The external action a state asks its driver for.
pub enum Action {
    CallGeneration,
    RunPull,
    AskUser,
    RunCommit,
    Stop,
}

/// Which external action each state asks for: exactly one per state, so a
/// state is in particular pulled for exactly once per visit.
pub open spec fn action_of(s: StateView) -> Action {
    match s {
        StateView::Generating => Action::CallGeneration,
        StateView::ModelMissing => Action::RunPull,
        StateView::Presenting(_) => Action::AskUser,
        StateView::Committing(_) => Action::RunCommit,
        _ => Action::Stop,
    }
}

/// A copy of a state with the same view.
fn copy_state(s: &State) -> (r: State)
    ensures
        r@ == s@,
{
    match s {
        State::Generating => State::Generating,
        State::Presenting { suggestion } => State::Presenting { suggestion: suggestion.clone() },
        State::ModelMissing => State::ModelMissing,
        State::Committing { message } => State::Committing { message: message.clone() },
        State::Committed { message } => State::Committed { message: message.clone() },
        State::Canceled => State::Canceled,
        State::PullFailed => State::PullFailed,
        State::Failed { message } => State::Failed { message: message.clone() },
    }
}

/// One run of the loop: the model identifier and prompt, fixed when the
/// session starts and never changed by a step, and the current state.
pub struct Session {
    pub model: String,
    pub prompt: String,
    pub state: State,
}

impl Session {
    /// A session starts in the generating state.
    pub fn new(model: String, prompt: String) -> (r: Session)
        ensures
            r.model@ == model@,
            r.prompt@ == prompt@,
            r.state@ == StateView::Generating,
    {
        Session { model, prompt, state: State::Generating }
    }

    /// Advance the loop by one observed event. The next state is exactly
    /// [`step_spec`] of the old one; the model identifier and the prompt
    /// are left untouched, so a regeneration round reuses both unchanged.
    pub fn step(&mut self, e: Event)
        ensures
            final(self).model@ == old(self).model@,
            final(self).prompt@ == old(self).prompt@,
            final(self).state@ == step_spec(old(self).state@, e@),
    {
        let next = match e {
            Event::Generated { text } => match &self.state {
                State::Generating => State::Presenting { suggestion: trim(text.as_str()) },
                _ => copy_state(&self.state),
            },
            Event::GenerationFailed { kind } => match &self.state {
                State::Generating => match kind {
                    FailureKind::ModelNotFound => State::ModelMissing,
                    FailureKind::Other { message } => State::Failed { message },
                },
                _ => copy_state(&self.state),
            },
            Event::PullFinished { success } => match &self.state {
                State::ModelMissing => if success {
                    State::Generating
                } else {
                    State::PullFailed
                },
                _ => copy_state(&self.state),
            },
            Event::CommitChoice { commit, regenerate } => match &self.state {
                State::Presenting { suggestion } => if commit {
                    State::Committing { message: suggestion.clone() }
                } else if regenerate {
                    State::Generating
                } else {
                    State::Canceled
                },
                _ => copy_state(&self.state),
            },
            Event::CommitFinished => match &self.state {
                State::Committing { message } => State::Committed { message: message.clone() },
                _ => copy_state(&self.state),
            },
        };
        self.state = next;
    }

    /// Whether the run is over.
    pub fn is_done(&self) -> (r: bool)
        ensures
            r == is_terminal(self.state@),
    {
        match &self.state {
            State::Committed { .. } => true,
            State::Canceled => true,
            State::PullFailed => true,
            State::Failed { .. } => true,
            _ => false,
        }
    }
}

/// Classify the report text of a failed generation call: a text that
/// mentions both "model" and "not found" means the model is absent; any
/// other text is handed back verbatim.
pub fn classify_failure(message: String) -> (r: FailureKind)
    ensures
        r is ModelNotFound <==> (contains_seq(message@, "model"@) && contains_seq(
            message@,
            "not found"@,
        )),
        r matches FailureKind::Other { message: m } ==> m@ == message@,
{
    if contains_str(message.as_str(), "model") && contains_str(message.as_str(), "not found") {
        FailureKind::ModelNotFound
    } else {
        FailureKind::Other { message }
    }
}

/// Law: a generated text is presented with leading and trailing
/// whitespace removed, and when the user confirms, the commit step
/// receives that exact trimmed text as its message, whatever the answer to
/// the regeneration question would have been.
pub proof fn lemma_suggestion_trimmed_and_committed(text: Seq<char>, regenerate: bool)
    ensures
        step_spec(StateView::Generating, EventView::Generated(text)) == StateView::Presenting(
            trim_spec(text),
        ),
        step_spec(
            StateView::Presenting(trim_spec(text)),
            EventView::CommitChoice(true, regenerate),
        ) == StateView::Committing(trim_spec(text)),
        step_spec(StateView::Committing(trim_spec(text)), EventView::CommitFinished)
            == StateView::Committed(trim_spec(text)),
{
}

/// Law: a model-not-found failure moves to the one state whose action is
/// the pull command, and that state is entered in no other way, so each
/// such failure triggers exactly one pull before the next generation
/// attempt; a successful pull returns to the generation state, and a
/// failed pull ends the run with no further generation attempt.
pub proof fn lemma_pull_recovery()
    ensures
        step_spec(
            StateView::Generating,
            EventView::GenerationFailed(FailureKindView::ModelNotFound),
        ) == StateView::ModelMissing,
        action_of(StateView::ModelMissing) == Action::RunPull,
        forall|s: StateView|
            action_of(s) == Action::RunPull ==> s == StateView::ModelMissing,
        forall|s: StateView, e: EventView|
            #[trigger] step_spec(s, e) == StateView::ModelMissing ==> (s == StateView::Generating
                && e == EventView::GenerationFailed(FailureKindView::ModelNotFound)) || s
                == StateView::ModelMissing,
        step_spec(StateView::ModelMissing, EventView::PullFinished(true))
            == StateView::Generating,
        step_spec(StateView::ModelMissing, EventView::PullFinished(false))
            == StateView::PullFailed,
        is_terminal(StateView::PullFailed),
        action_of(StateView::PullFailed) == Action::Stop,
{
}

/// Law: declining the commit and then declining regeneration cancels the
/// run; the canceled state is terminal and asks for no further action.
pub proof fn lemma_decline_both_cancels(m: Seq<char>)
    ensures
        step_spec(StateView::Presenting(m), EventView::CommitChoice(false, false))
            == StateView::Canceled,
        is_terminal(StateView::Canceled),
        action_of(StateView::Canceled) == Action::Stop,
{
}

/// Law: declining the commit but accepting regeneration returns to the
/// generation state. [`Session::step`] guarantees besides that no step
/// changes the session's model identifier or prompt, so the next attempt
/// uses both unchanged.
pub proof fn lemma_decline_then_regenerate(m: Seq<char>)
    ensures
        step_spec(StateView::Presenting(m), EventView::CommitChoice(false, true))
            == StateView::Generating,
        action_of(StateView::Generating) == Action::CallGeneration,
{
}

} // verus!
