use vstd::prelude::*;

use crate::action::{ActionError, CommandInvocation, Effect, EffectView, InvocationView, handled_view};
use crate::event::{EventView, RawEvent};
use crate::template::{
    contains_placeholder, lemma_render_without_placeholder, render, render_template, split_words,
    words,
};

verus! {

/// An action that runs a command built from a template, with the changed
/// path put in place of each `{:p}`.
pub struct CommandAction {
    command_line: String,
    quiet: bool,
}

pub struct CommandView {
    pub template: Seq<char>,
    pub quiet: bool,
}

impl View for CommandAction {
    type V = CommandView;

    closed spec fn view(&self) -> CommandView {
        CommandView { template: self.command_line@, quiet: self.quiet }
    }
}

/// The path a command is rendered with: the event's first, or nothing.
pub open spec fn first_path(paths: Seq<Seq<char>>) -> Seq<char> {
    if paths.len() == 0 {
        Seq::empty()
    } else {
        paths[0]
    }
}

/// The command line that action `c` renders for event `e`.
pub open spec fn rendered_line(c: CommandView, e: EventView) -> Seq<char> {
    render(c.template, first_path(e.paths))
}

/// The program and arguments that action `c` starts for event `e`: the
/// first word of the rendered line and the words after it.
pub open spec fn command_invocation(c: CommandView, e: EventView) -> Result<InvocationView, ActionError> {
    let w = words(rendered_line(c, e));
    if w.len() == 0 {
        Err(ActionError::EmptyCommand)
    } else {
        Ok(InvocationView { program: w[0], args: w.skip(1), quiet: c.quiet, template: c.template })
    }
}

/// A command whose template holds no placeholder renders to its template,
/// whatever the event.
pub proof fn lemma_template_without_placeholder_is_kept(c: CommandView, e: EventView)
    requires
        !contains_placeholder(c.template),
    ensures
        rendered_line(c, e) == c.template,
{
    lemma_render_without_placeholder(c.template, first_path(e.paths));
}

impl CommandAction {
    pub fn new(command_line: String, quiet: bool) -> (r: CommandAction)
        ensures
            r@.template == command_line@,
            r@.quiet == quiet,
    {
        CommandAction { command_line, quiet }
    }

    /// The template with every `{:p}` replaced by the event's first path.
    pub fn get_command_line(&self, event: &RawEvent) -> (r: String)
        ensures
            r@ == rendered_line(self@, event@),
    {
        let ghost e = event@;
        let empty = String::new();
        let path: &String = if event.paths.len() == 0 {
            &empty
        } else {
            &event.paths[0]
        };
        assert(path@ == first_path(e.paths));
        render_template(self.command_line.as_str(), path.as_str())
    }

    /// The program and arguments to start for `event`.
    pub fn get_command(&self, event: &RawEvent) -> (r: Result<CommandInvocation, ActionError>)
        ensures
            match r {
                Ok(inv) => command_invocation(self@, event@) == Ok::<InvocationView, ActionError>(inv@),
                Err(err) => command_invocation(self@, event@) == Err::<InvocationView, ActionError>(err),
            },
    {
        let line = self.get_command_line(event);
        let mut pieces = split_words(line.as_str());
        if pieces.len() == 0 {
            return Err(ActionError::EmptyCommand);
        }
        let ghost w = pieces.deep_view();
        let program = pieces.remove(0);
        assert(pieces.deep_view() =~= w.skip(1));
        Ok(CommandInvocation {
            program,
            args: pieces,
            quiet: self.quiet,
            template: self.command_line.clone(),
        })
    }

    /// The command to run in reaction to `event`.
    pub fn handle_change(&self, event: &RawEvent) -> (r: Result<Effect, ActionError>)
        ensures
            handled_view(r) == (match command_invocation(self@, event@) {
                Ok(inv) => Ok(EffectView::Run(inv)),
                Err(err) => Err(err),
            }),
    {
        match self.get_command(event) {
            Ok(inv) => Ok(Effect::Run(inv)),
            Err(err) => Err(err),
        }
    }
}

} // verus!
