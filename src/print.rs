use vstd::prelude::*;
use vstd::string::*;

use crate::action::{ActionError, Effect, handled_view};
use crate::event::{ChangeKind, EventView, RawEvent};

verus! {

/// An action that describes each change on the affected paths.
pub struct PrintAction;

/// The phrase that names a kind of change.
pub open spec fn kind_phrase(kind: ChangeKind) -> Seq<char> {
    match kind {
        ChangeKind::Access => "File or directory accessed"@,
        ChangeKind::Create => "File or directory created"@,
        ChangeKind::Modify => "File or directory modified"@,
        ChangeKind::Remove => "File or directory removed"@,
        ChangeKind::Other => "Unknown change"@,
    }
}

/// How Rust's `Debug` formatting shows a path: quoted, with quotes,
/// backslashes and control characters escaped.
pub uninterp spec fn path_debug_of(p: Seq<char>) -> Seq<char>;

/// Relies on `<std::path::Path as Debug>::fmt`: the text it writes depends on
/// the path's characters alone.
#[verifier::external_body]
fn path_debug(p: &str) -> (r: String)
    ensures
        r@ == path_debug_of(p@),
{
    format!("{:?}", std::path::Path::new(p))
}

/// The line that reports a change of kind `kind` on a path shown as `shown`.
pub open spec fn change_line(kind: ChangeKind, shown: Seq<char>) -> Seq<char> {
    kind_phrase(kind) + " on path "@ + shown
}

/// The line that reports a change of kind `kind` on path `path`, the path
/// shown in its `Debug` form.
pub open spec fn print_line(kind: ChangeKind, path: Seq<char>) -> Seq<char> {
    change_line(kind, path_debug_of(path))
}

/// One line per affected path, in the event's order; an event without
/// paths cannot be reported.
pub open spec fn print_lines(e: EventView) -> Result<Seq<Seq<char>>, ActionError> {
    if e.paths.len() == 0 {
        Err(ActionError::NoPath)
    } else {
        Ok(e.paths.map_values(|p: Seq<char>| print_line(e.kind, p)))
    }
}

impl PrintAction {
    pub fn new() -> (r: PrintAction) {
        PrintAction
    }

    /// The phrase that names a kind of change.
    pub fn event_kind_to_str(&self, kind: &ChangeKind) -> (r: &'static str)
        ensures
            r@ == kind_phrase(*kind),
    {
        match kind {
            ChangeKind::Access => "File or directory accessed",
            ChangeKind::Create => "File or directory created",
            ChangeKind::Modify => "File or directory modified",
            ChangeKind::Remove => "File or directory removed",
            ChangeKind::Other => "Unknown change",
        }
    }

    /// The line that reports a change of kind `kind` on a path already
    /// formatted for display as `shown`.
    pub fn describe_change(&self, kind: &ChangeKind, shown: &str) -> (r: String)
        ensures
            r@ == change_line(*kind, shown@),
    {
        let mut line = String::from_str(self.event_kind_to_str(kind));
        line.append(" on path ");
        line.append(shown);
        line
    }

    /// The lines that describe `event`, one per affected path.
    pub fn handle_change(&self, event: &RawEvent) -> (r: Result<Effect, ActionError>)
        ensures
            handled_view(r) == (match print_lines(event@) {
                Ok(lines) => Ok(crate::action::EffectView::Print(lines)),
                Err(err) => Err(err),
            }),
    {
        let n = event.paths.len();
        if n == 0 {
            return Err(ActionError::NoPath);
        }
        let ghost e = event@;
        let mut lines: Vec<String> = Vec::new();
        let mut i: usize = 0;
        while i < n
            invariant
                i <= n,
                n == e.paths.len(),
                e == event@,
                lines.deep_view() == e.paths.take(i as int).map_values(
                    |p: Seq<char>| print_line(e.kind, p),
                ),
            decreases n - i,
        {
            let ghost before = lines.deep_view();
            let shown = path_debug(event.paths[i].as_str());
            let line = self.describe_change(&event.kind, shown.as_str());
            assert(line@ == print_line(e.kind, e.paths[i as int]));
            lines.push(line);
            assert(lines.deep_view() =~= before.push(print_line(e.kind, e.paths[i as int])));
            i = i + 1;
            assert(lines.deep_view() =~= e.paths.take(i as int).map_values(
                |p: Seq<char>| print_line(e.kind, p),
            ));
        }
        assert(e.paths.take(n as int) =~= e.paths);
        Ok(Effect::Print(lines))
    }
}

impl Default for PrintAction {
    fn default() -> (r: PrintAction)
        ensures
            r == PrintAction,
    {
        PrintAction::new()
    }
}

} // verus!
