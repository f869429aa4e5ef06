use vstd::prelude::*;

verus! {

/// The kind of change a notification reports.
#[derive(Clone, Copy, Debug, PartialEq, Eq, Structural)]
pub enum ChangeKind {
    /// A file or directory was opened or read.
    Access,
    Create,
    Modify,
    Remove,
    /// Any kind the notifier does not classify further.
    Other,
}

/// Only creations, modifications and removals are changes; reading a file
/// never triggers actions.
pub open spec fn is_change(kind: ChangeKind) -> bool {
    kind is Create || kind is Modify || kind is Remove
}

/// One notification: its kind and the paths it affects, in order.
pub struct RawEvent {
    pub kind: ChangeKind,
    pub paths: Vec<String>,
}

/// The mathematical content of a `RawEvent`.
pub struct EventView {
    pub kind: ChangeKind,
    pub paths: Seq<Seq<char>>,
}

impl View for RawEvent {
    type V = EventView;

    open spec fn view(&self) -> EventView {
        EventView { kind: self.kind, paths: self.paths.deep_view() }
    }
}

impl RawEvent {
    /// An event of the given kind with no affected paths.
    pub fn new(kind: ChangeKind) -> (r: RawEvent)
        ensures
            r@.kind == kind,
            r@.paths == Seq::<Seq<char>>::empty(),
    {
        RawEvent { kind, paths: Vec::new() }
    }

    /// The same event with `path` appended to its affected paths.
    pub fn add_path(self, path: String) -> (r: RawEvent)
        ensures
            r@.kind == self@.kind,
            r@.paths == self@.paths.push(path@),
    {
        let mut paths = self.paths;
        let ghost before = paths.deep_view();
        paths.push(path);
        assert(paths.deep_view() =~= before.push(path@));
        RawEvent { kind: self.kind, paths }
    }
}

/// Whether the event is a real change to a file (created, modified or
/// removed). Merely opening or reading a file does not count.
pub fn is_file_changed_event(event: &RawEvent) -> (r: bool)
    ensures
        r == is_change(event@.kind),
{
    match event.kind {
        ChangeKind::Create | ChangeKind::Modify | ChangeKind::Remove => true,
        ChangeKind::Access | ChangeKind::Other => false,
    }
}

} // verus!
