use vstd::prelude::*;

use crate::command::{CommandAction, CommandView, command_invocation};
use crate::event::{EventView, RawEvent};
use crate::print::{PrintAction, print_lines};

verus! {

/// Why an action could not react to an event.
#[derive(Clone, Copy, Debug, PartialEq, Eq, Structural)]
pub enum ActionError {
    /// The event affects no path, so there is nothing to report on.
    NoPath,
    /// The command line rendered for the event holds no program name.
    EmptyCommand,
    /// The program could not be found or started.
    SpawnFailure,
}

impl ActionError {
    /// A human-readable description of the failure.
    pub fn message(&self) -> (r: &'static str)
        ensures
            r@ == error_message(*self),
    {
        match self {
            ActionError::NoPath => "No path for event",
            ActionError::EmptyCommand => "Command is empty",
            ActionError::SpawnFailure => "Could not execute command",
        }
    }
}

/// The description that `ActionError::message` gives of each failure.
pub open spec fn error_message(e: ActionError) -> Seq<char> {
    match e {
        ActionError::NoPath => "No path for event"@,
        ActionError::EmptyCommand => "Command is empty"@,
        ActionError::SpawnFailure => "Could not execute command"@,
    }
}

/// A program to start with its arguments, for a command action.
pub struct CommandInvocation {
    pub program: String,
    pub args: Vec<String>,
    /// Whether the program's output is captured instead of streamed.
    pub quiet: bool,
    /// The template the command line was rendered from, for reporting.
    pub template: String,
}

pub struct InvocationView {
    pub program: Seq<char>,
    pub args: Seq<Seq<char>>,
    pub quiet: bool,
    pub template: Seq<char>,
}

impl View for CommandInvocation {
    type V = InvocationView;

    open spec fn view(&self) -> InvocationView {
        InvocationView {
            program: self.program@,
            args: self.args.deep_view(),
            quiet: self.quiet,
            template: self.template@,
        }
    }
}

/// The side effect an action asks for in reaction to one event.
pub enum Effect {
    /// Print these lines, in order.
    Print(Vec<String>),
    /// Start this program and wait for it.
    Run(CommandInvocation),
}

pub enum EffectView {
    Print(Seq<Seq<char>>),
    Run(InvocationView),
}

impl View for Effect {
    type V = EffectView;

    open spec fn view(&self) -> EffectView {
        match self {
            Effect::Print(lines) => EffectView::Print(lines.deep_view()),
            Effect::Run(inv) => EffectView::Run(inv@),
        }
    }
}

/// The mathematical content of the result of handling an event.
pub open spec fn handled_view(r: Result<Effect, ActionError>) -> Result<EffectView, ActionError> {
    match r {
        Ok(effect) => Ok(effect@),
        Err(e) => Err(e),
    }
}

/// A reaction to change events, bound to a watched path.
pub enum Action {
    Print(PrintAction),
    Command(CommandAction),
}

pub enum ActionView {
    Print,
    Command(CommandView),
}

impl View for Action {
    type V = ActionView;

    open spec fn view(&self) -> ActionView {
        match self {
            Action::Print(_) => ActionView::Print,
            Action::Command(c) => ActionView::Command(c@),
        }
    }
}

/// What action `a` asks for in reaction to event `e`, or why it cannot react.
pub open spec fn action_effect(a: ActionView, e: EventView) -> Result<EffectView, ActionError> {
    match a {
        ActionView::Print => match print_lines(e) {
            Ok(lines) => Ok(EffectView::Print(lines)),
            Err(err) => Err(err),
        },
        ActionView::Command(c) => match command_invocation(c, e) {
            Ok(inv) => Ok(EffectView::Run(inv)),
            Err(err) => Err(err),
        },
    }
}

impl Action {
    /// Decides how this action reacts to `event`: the effect to carry out,
    /// or the failure that prevents it.
    pub fn handle_change(&self, event: &RawEvent) -> (r: Result<Effect, ActionError>)
        ensures
            handled_view(r) == action_effect(self@, event@),
    {
        match self {
            Action::Print(p) => p.handle_change(event),
            Action::Command(c) => c.handle_change(event),
        }
    }
}

} // verus!
