use vstd::prelude::*;
use vstd::string::*;

use crate::action::{Action, ActionView};
use crate::command::{CommandAction, CommandView};
use crate::files_watcher::{WatchEntry, actions_view};
use crate::print::PrintAction;

verus! {

/// The settings read from a configuration file.
pub struct Config {
    pub settings: Option<SettingsConfig>,
    pub watchers: Option<Vec<WatcherSettings>>,
}

pub struct SettingsConfig {
    pub quiet: Option<bool>,
}

/// One watcher of a configuration file: what to run, and on which path.
pub struct WatcherSettings {
    pub action_type: String,
    pub execute: String,
    pub path: String,
}

/// Why a configuration cannot be used.
#[derive(Clone, Copy, Debug, PartialEq, Eq, Structural)]
pub enum ConfigError {
    /// The configuration defines no list of watchers.
    NoWatchers,
}

/// Whether a configuration asks for quiet commands; it does not unless it
/// says so.
pub open spec fn config_quiet(config: &Config) -> bool {
    match config.settings {
        Some(settings) => match settings.quiet {
            Some(q) => q,
            None => false,
        },
        None => false,
    }
}

/// The actions a watcher of the configuration stands for: one command for
/// the action type `command`, none for any other.
pub open spec fn watcher_actions(action_type: Seq<char>, execute: Seq<char>, quiet: bool) -> Seq<ActionView> {
    if action_type == "command"@ {
        seq![ActionView::Command(CommandView { template: execute, quiet })]
    } else {
        Seq::empty()
    }
}

/// Whether `entries` registers, in order, each of the watchers `ws` with
/// the actions it stands for.
pub open spec fn registers_watchers(entries: Seq<WatchEntry>, ws: Seq<WatcherSettings>, quiet: bool) -> bool {
    &&& entries.len() == ws.len()
    &&& forall|i: int|
        0 <= i < ws.len() ==> entries[i].path@ == ws[i].path@ && actions_view(entries[i].actions@)
            == watcher_actions(ws[i].action_type@, ws[i].execute@, quiet)
}

/// What a configuration registers: each of its watchers, in order; a
/// configuration without a list of watchers is refused.
pub fn watch_from_config(config: &Config) -> (r: Result<Vec<WatchEntry>, ConfigError>)
    ensures
        config.watchers is None <==> r == Err::<Vec<WatchEntry>, ConfigError>(
            ConfigError::NoWatchers,
        ),
        r matches Ok(entries) ==> config.watchers matches Some(ws) && registers_watchers(
            entries@,
            ws@,
            config_quiet(config),
        ),
{
    let quiet = match &config.settings {
        Some(settings) => match settings.quiet {
            Some(q) => q,
            None => false,
        },
        None => false,
    };
    let watchers = match &config.watchers {
        Some(ws) => ws,
        None => {
            return Err(ConfigError::NoWatchers);
        },
    };
    let command = String::from_str("command");
    let n = watchers.len();
    let mut entries: Vec<WatchEntry> = Vec::new();
    let mut i: usize = 0;
    while i < n
        invariant
            i <= n,
            n == watchers@.len(),
            command@ == "command"@,
            registers_watchers(entries@, watchers@.take(i as int), quiet),
        decreases n - i,
    {
        let watcher = &watchers[i];
        let mut actions: Vec<Action> = Vec::new();
        if watcher.action_type == command {
            actions.push(Action::Command(CommandAction::new(watcher.execute.clone(), quiet)));
        }
        assert(actions_view(actions@) =~= watcher_actions(
            watcher.action_type@,
            watcher.execute@,
            quiet,
        ));
        entries.push(WatchEntry { path: watcher.path.clone(), actions });
        i = i + 1;
        assert(registers_watchers(entries@, watchers@.take(i as int), quiet));
    }
    assert(watchers@.take(n as int) =~= watchers@);
    Ok(entries)
}

/// The actions the command-line flags stand for: a print action unless
/// quiet, then the command, if one was given.
pub open spec fn flag_actions(quiet: bool, execute: Option<Seq<char>>) -> Seq<ActionView> {
    let print: Seq<ActionView> = if quiet {
        Seq::empty()
    } else {
        seq![ActionView::Print]
    };
    match execute {
        Some(t) => print.push(ActionView::Command(CommandView { template: t, quiet })),
        None => print,
    }
}

/// What the command-line flags register: the given path with the actions
/// the flags stand for; nothing without a path.
pub fn watch_from_flags(quiet: bool, execute: Option<String>, path: Option<String>) -> (r: Option<
    WatchEntry,
>)
    ensures
        r is Some <==> path is Some,
        r matches Some(entry) ==> path matches Some(p) && entry.path@ == p@ && actions_view(
            entry.actions@,
        ) == flag_actions(
            quiet,
            match execute {
                Some(t) => Some(t@),
                None => None,
            },
        ),
{
    let mut actions: Vec<Action> = Vec::new();
    if !quiet {
        actions.push(Action::Print(PrintAction::new()));
    }
    match execute {
        Some(t) => {
            actions.push(Action::Command(CommandAction::new(t, quiet)));
        },
        None => {},
    }
    match path {
        Some(p) => {
            assert(actions_view(actions@) =~= flag_actions(
                quiet,
                match execute {
                    Some(t) => Some(t@),
                    None => None,
                },
            ));
            Some(WatchEntry { path: p, actions })
        },
        None => None,
    }
}

} // verus!
