use vstd::prelude::*;
use vstd::pervasive::VecAdditionalExecFns;

use crate::action::{Action, ActionError, ActionView, Effect, EffectView, action_effect, handled_view};
use crate::event::{EventView, RawEvent, is_change, is_file_changed_event};

verus! {

/// A watched path and the actions bound to it, in the order they run.
pub struct WatchEntry {
    pub path: String,
    pub actions: Vec<Action>,
}

/// The models of a list of actions.
pub open spec fn actions_view(actions: Seq<Action>) -> Seq<ActionView> {
    actions.map_values(|a: Action| a@)
}

/// The map from paths to action lists that a list of entries describes; a
/// later entry for a path overrides an earlier one.
pub open spec fn entries_map(entries: Seq<WatchEntry>) -> Map<Seq<char>, Seq<ActionView>>
    decreases entries.len(),
{
    if entries.len() == 0 {
        Map::empty()
    } else {
        let last = entries.last();
        entries_map(entries.drop_last()).insert(last.path@, actions_view(last.actions@))
    }
}

/// No two entries share a path.
pub open spec fn paths_distinct(entries: Seq<WatchEntry>) -> bool {
    forall|i: int, j: int|
        0 <= i < entries.len() && 0 <= j < entries.len() && i != j ==> entries[i].path@
            != entries[j].path@
}

proof fn lemma_entries_map_domain(entries: Seq<WatchEntry>, p: Seq<char>)
    ensures
        entries_map(entries).contains_key(p) <==> exists|i: int|
            0 <= i < entries.len() && entries[i].path@ == p,
    decreases entries.len(),
{
    if entries.len() > 0 {
        let init = entries.drop_last();
        lemma_entries_map_domain(init, p);
        if entries_map(entries).contains_key(p) && p != entries.last().path@ {
            let i = choose|i: int| 0 <= i < init.len() && init[i].path@ == p;
            assert(entries[i].path@ == p);
        }
        if exists|i: int| 0 <= i < entries.len() && entries[i].path@ == p {
            let i = choose|i: int| 0 <= i < entries.len() && entries[i].path@ == p;
            if i < entries.len() - 1 {
                assert(init[i].path@ == p);
            }
        }
    }
}

proof fn lemma_entries_map_value(entries: Seq<WatchEntry>, i: int)
    requires
        paths_distinct(entries),
        0 <= i < entries.len(),
    ensures
        entries_map(entries).contains_key(entries[i].path@),
        entries_map(entries)[entries[i].path@] == actions_view(entries[i].actions@),
    decreases entries.len(),
{
    if i < entries.len() - 1 {
        let init = entries.drop_last();
        assert(init[i] == entries[i]);
        lemma_entries_map_value(init, i);
        assert(entries[i].path@ != entries.last().path@);
    }
}

proof fn lemma_entries_map_update(entries: Seq<WatchEntry>, i: int, e: WatchEntry)
    requires
        paths_distinct(entries),
        0 <= i < entries.len(),
        e.path@ == entries[i].path@,
    ensures
        paths_distinct(entries.update(i, e)),
        entries_map(entries.update(i, e)) == entries_map(entries).insert(
            e.path@,
            actions_view(e.actions@),
        ),
{
    let updated = entries.update(i, e);
    let old_map = entries_map(entries);
    let new_map = entries_map(updated);
    let expected = old_map.insert(e.path@, actions_view(e.actions@));
    assert(paths_distinct(updated)) by {
        assert forall|a: int, b: int|
            0 <= a < updated.len() && 0 <= b < updated.len() && a != b implies updated[a].path@
            != updated[b].path@ by {
            assert(updated[a].path@ == entries[a].path@);
            assert(updated[b].path@ == entries[b].path@);
        }
    }
    assert forall|p: Seq<char>| new_map.contains_key(p) <==> expected.contains_key(p) by {
        lemma_entries_map_domain(entries, p);
        lemma_entries_map_domain(updated, p);
        if exists|j: int| 0 <= j < entries.len() && entries[j].path@ == p {
            let j = choose|j: int| 0 <= j < entries.len() && entries[j].path@ == p;
            assert(updated[j].path@ == p);
        }
        if exists|j: int| 0 <= j < updated.len() && updated[j].path@ == p {
            let j = choose|j: int| 0 <= j < updated.len() && updated[j].path@ == p;
            assert(entries[j].path@ == p);
        }
    }
    assert forall|p: Seq<char>| new_map.contains_key(p) implies new_map[p] == expected[p] by {
        lemma_entries_map_domain(updated, p);
        let j = choose|j: int| 0 <= j < updated.len() && updated[j].path@ == p;
        lemma_entries_map_value(updated, j);
        if j != i {
            assert(updated[j] == entries[j]);
            lemma_entries_map_value(entries, j);
        }
    }
    assert(new_map =~= expected);
}

/// One step of the reaction to an event.
pub enum Step {
    /// An affected path with no registered actions.
    NoActions(String),
    /// One action's reaction: the effect to carry out, or why it failed.
    Run(Result<Effect, ActionError>),
}

pub enum StepView {
    NoActions(Seq<char>),
    Run(Result<EffectView, ActionError>),
}

impl View for Step {
    type V = StepView;

    open spec fn view(&self) -> StepView {
        match self {
            Step::NoActions(p) => StepView::NoActions(p@),
            Step::Run(r) => StepView::Run(handled_view(*r)),
        }
    }
}

/// The models of a list of steps.
pub open spec fn steps_view(steps: Seq<Step>) -> Seq<StepView> {
    steps.map_values(|s: Step| s@)
}

/// Everything the registry decides for one event, in the order it is to be
/// carried out.
pub struct DispatchPlan {
    /// Whether the event counts as a change at all.
    pub was_file_changed: bool,
    pub steps: Vec<Step>,
}

pub struct PlanView {
    pub was_file_changed: bool,
    pub steps: Seq<StepView>,
}

impl View for DispatchPlan {
    type V = PlanView;

    open spec fn view(&self) -> PlanView {
        PlanView { was_file_changed: self.was_file_changed, steps: steps_view(self.steps@) }
    }
}

/// The report on one event: how many actions succeeded, and whether the
/// event was a change.
pub struct EventExecutionResult {
    pub num_actions: usize,
    pub was_file_changed: bool,
}

/// The steps for one affected path: each bound action in registration
/// order, or a note that the path has none.
pub open spec fn path_steps(
    w: Map<Seq<char>, Seq<ActionView>>,
    e: EventView,
    p: Seq<char>,
) -> Seq<StepView> {
    if w.contains_key(p) {
        w[p].map_values(|a: ActionView| StepView::Run(action_effect(a, e)))
    } else {
        seq![StepView::NoActions(p)]
    }
}

/// The steps for a list of affected paths, path after path.
pub open spec fn paths_steps(
    w: Map<Seq<char>, Seq<ActionView>>,
    e: EventView,
    paths: Seq<Seq<char>>,
) -> Seq<StepView>
    decreases paths.len(),
{
    if paths.len() == 0 {
        Seq::empty()
    } else {
        paths_steps(w, e, paths.drop_last()) + path_steps(w, e, paths.last())
    }
}

/// The plan for event `e` on registry `w`: nothing unless the event is a
/// change; otherwise the steps of every affected path, in the event's order.
pub open spec fn dispatch_plan(w: Map<Seq<char>, Seq<ActionView>>, e: EventView) -> PlanView {
    if is_change(e.kind) {
        PlanView { was_file_changed: true, steps: paths_steps(w, e, e.paths) }
    } else {
        PlanView { was_file_changed: false, steps: Seq::empty() }
    }
}

/// Whether a step counts as an action run: its effect was prepared and the
/// caller reports having carried it out.
pub open spec fn step_succeeded(s: StepView, performed: bool) -> bool {
    performed && s matches StepView::Run(Ok(_))
}

/// How many of the first `n` steps succeeded; a step without a reported
/// outcome did not.
pub open spec fn count_succeeded(steps: Seq<StepView>, outcomes: Seq<bool>, n: int) -> nat
    decreases n,
{
    if n <= 0 {
        0
    } else {
        count_succeeded(steps, outcomes, n - 1) + if n - 1 < outcomes.len() && step_succeeded(
            steps[n - 1],
            outcomes[n - 1],
        ) {
            1nat
        } else {
            0nat
        }
    }
}

/// The number of actions that ran successfully under `plan`.
pub open spec fn actions_run(plan: PlanView, outcomes: Seq<bool>) -> nat {
    count_succeeded(plan.steps, outcomes, plan.steps.len() as int)
}

impl DispatchPlan {
    /// Tallies the plan once it has been carried out; `outcomes[i]` tells
    /// whether the effect of step `i` was carried out.
    pub fn summarize(&self, outcomes: &Vec<bool>) -> (r: EventExecutionResult)
        ensures
            r.was_file_changed == self@.was_file_changed,
            r.num_actions == actions_run(self@, outcomes@),
    {
        let ghost steps = self@.steps;
        let n = self.steps.len();
        let mut count: usize = 0;
        let mut i: usize = 0;
        while i < n
            invariant
                i <= n,
                n == steps.len(),
                steps == self@.steps,
                count <= i,
                count == count_succeeded(steps, outcomes@, i as int),
            decreases n - i,
        {
            let succeeded = i < outcomes.len() && outcomes[i] && match &self.steps[i] {
                Step::Run(Ok(_)) => true,
                _ => false,
            };
            assert(steps[i as int] == self.steps@[i as int]@);
            if succeeded {
                count = count + 1;
            }
            i = i + 1;
        }
        EventExecutionResult { num_actions: count, was_file_changed: self.was_file_changed }
    }
}

/// The positions below `n` whose step succeeded.
pub open spec fn succeeded_positions(steps: Seq<StepView>, outcomes: Seq<bool>, n: int) -> Set<int> {
    Set::new(
        |i: int| 0 <= i < n && i < outcomes.len() && step_succeeded(steps[i], outcomes[i]),
    )
}

proof fn lemma_count_is_card(steps: Seq<StepView>, outcomes: Seq<bool>, n: int)
    requires
        0 <= n,
    ensures
        succeeded_positions(steps, outcomes, n).finite(),
        count_succeeded(steps, outcomes, n) == succeeded_positions(steps, outcomes, n).len(),
    decreases n,
{
    if n == 0 {
        assert(succeeded_positions(steps, outcomes, 0) =~= Set::<int>::empty());
    } else {
        lemma_count_is_card(steps, outcomes, n - 1);
        let prev = succeeded_positions(steps, outcomes, n - 1);
        if n - 1 < outcomes.len() && step_succeeded(steps[n - 1], outcomes[n - 1]) {
            assert(succeeded_positions(steps, outcomes, n) =~= prev.insert(n - 1));
        } else {
            assert(succeeded_positions(steps, outcomes, n) =~= prev);
        }
    }
}

/// An event that is not a change (an access, or a kind the notifier does
/// not classify) runs no action and is reported as no change, whatever is
/// registered and whatever outcomes are reported back.
pub proof fn lemma_non_change_runs_nothing(
    w: Map<Seq<char>, Seq<ActionView>>,
    e: EventView,
    outcomes: Seq<bool>,
)
    requires
        !is_change(e.kind),
    ensures
        !dispatch_plan(w, e).was_file_changed,
        dispatch_plan(w, e).steps.len() == 0,
        actions_run(dispatch_plan(w, e), outcomes) == 0,
{
}

/// A change event on a registered path runs each action bound to the path
/// exactly once, in registration order, and the number of actions run is
/// the number of them that reacted and whose effect was carried out.
pub proof fn lemma_change_runs_each_action_in_order(
    w: Map<Seq<char>, Seq<ActionView>>,
    e: EventView,
    outcomes: Seq<bool>,
)
    requires
        is_change(e.kind),
        e.paths.len() == 1,
        w.contains_key(e.paths[0]),
    ensures
        dispatch_plan(w, e).was_file_changed,
        dispatch_plan(w, e).steps.len() == w[e.paths[0]].len(),
        forall|i: int|
            0 <= i < w[e.paths[0]].len() ==> dispatch_plan(w, e).steps[i] == StepView::Run(
                action_effect(w[e.paths[0]][i], e),
            ),
        actions_run(dispatch_plan(w, e), outcomes) == Set::new(
            |i: int|
                0 <= i < w[e.paths[0]].len() && i < outcomes.len() && outcomes[i]
                    && action_effect(w[e.paths[0]][i], e) is Ok,
        ).len(),
{
    let p = e.paths[0];
    let steps = dispatch_plan(w, e).steps;
    assert(e.paths.drop_last() =~= Seq::<Seq<char>>::empty());
    assert(paths_steps(w, e, e.paths.drop_last()) == Seq::<StepView>::empty());
    assert(steps =~= path_steps(w, e, p));
    lemma_count_is_card(steps, outcomes, steps.len() as int);
    assert(succeeded_positions(steps, outcomes, steps.len() as int) =~= Set::new(
        |i: int|
            0 <= i < w[p].len() && i < outcomes.len() && outcomes[i] && action_effect(w[p][i], e) is Ok,
    ));
}

/// Registering a path again replaces its actions: only the later list is
/// bound to it, and no other path is affected.
pub proof fn lemma_reregister_replaces(
    w: Map<Seq<char>, Seq<ActionView>>,
    p: Seq<char>,
    first: Seq<ActionView>,
    second: Seq<ActionView>,
)
    ensures
        w.insert(p, first).insert(p, second) == w.insert(p, second),
        w.insert(p, first).insert(p, second)[p] == second,
{
    assert(w.insert(p, first).insert(p, second) =~= w.insert(p, second));
}

/// The registry of watched paths: each path bound to its ordered actions.
pub struct FilesWatcher {
    watches: Vec<WatchEntry>,
}

impl View for FilesWatcher {
    type V = Map<Seq<char>, Seq<ActionView>>;

    closed spec fn view(&self) -> Map<Seq<char>, Seq<ActionView>> {
        entries_map(self.watches@)
    }
}

impl FilesWatcher {
    #[verifier::type_invariant]
    spec fn inv(&self) -> bool {
        paths_distinct(self.watches@)
    }

    /// A registry with no watched path.
    pub fn new() -> (r: FilesWatcher)
        ensures
            r@ == Map::<Seq<char>, Seq<ActionView>>::empty(),
    {
        FilesWatcher { watches: Vec::new() }
    }

    /// The position of the entry for `path`, if there is one.
    fn find(&self, path: &String) -> (r: Option<usize>)
        ensures
            match r {
                Some(i) => i < self.watches.len() && self.watches@[i as int].path@ == path@,
                None => forall|i: int|
                    0 <= i < self.watches.len() ==> self.watches@[i].path@ != path@,
            },
    {
        let n = self.watches.len();
        let mut i: usize = 0;
        while i < n
            invariant
                i <= n,
                n == self.watches.len(),
                forall|j: int| 0 <= j < i ==> self.watches@[j].path@ != path@,
            decreases n - i,
        {
            if self.watches[i].path == *path {
                return Some(i);
            }
            i = i + 1;
        }
        None
    }

    /// Binds `actions` to `path` once the notifier has accepted the watch.
    /// A path whose watch was refused stays unregistered; registering a
    /// path again replaces its actions.
    pub fn add_file(&mut self, path: String, actions: Vec<Action>, subscribed: bool)
        ensures
            subscribed ==> final(self)@ == old(self)@.insert(path@, actions_view(actions@)),
            !subscribed ==> final(self)@ == old(self)@,
    {
        if !subscribed {
            return;
        }
        proof {
            use_type_invariant(&*self);
        }
        let found = self.find(&path);
        let mut watches: Vec<WatchEntry> = Vec::new();
        std::mem::swap(&mut watches, &mut self.watches);
        let ghost entries = watches@;
        let entry = WatchEntry { path, actions };
        match found {
            Some(i) => {
                watches.set(i, entry);
                proof {
                    lemma_entries_map_update(entries, i as int, entry);
                }
            },
            None => {
                watches.push(entry);
                assert(watches@.drop_last() =~= entries);
                assert(paths_distinct(watches@));
            },
        }
        self.watches = watches;
    }

    /// The actions bound to exactly `path`, if it is registered.
    pub fn resolve(&self, path: &String) -> (r: Option<&Vec<Action>>)
        ensures
            r is Some <==> self@.contains_key(path@),
            r matches Some(actions) ==> actions_view(actions@) == self@[path@],
    {
        proof {
            use_type_invariant(self);
            lemma_entries_map_domain(self.watches@, path@);
        }
        match self.find(path) {
            Some(i) => {
                proof {
                    lemma_entries_map_value(self.watches@, i as int);
                }
                Some(&self.watches[i].actions)
            },
            None => None,
        }
    }
    /// Decides the reaction to `event`: nothing unless it is a change; then,
    /// for each affected path in order, each bound action's reaction in
    /// registration order, or a note that the path has no actions.
    pub fn dispatch(&self, event: &RawEvent) -> (r: DispatchPlan)
        ensures
            r@ == dispatch_plan(self@, event@),
    {
        if !is_file_changed_event(event) {
            let r = DispatchPlan { was_file_changed: false, steps: Vec::new() };
            assert(r@.steps =~= Seq::<StepView>::empty());
            return r;
        }
        let ghost w = self@;
        let ghost e = event@;
        let mut steps: Vec<Step> = Vec::new();
        let n = event.paths.len();
        let mut k: usize = 0;
        assert(steps_view(steps@) =~= paths_steps(w, e, e.paths.take(0)));
        while k < n
            invariant
                k <= n,
                n == e.paths.len(),
                w == self@,
                e == event@,
                steps_view(steps@) == paths_steps(w, e, e.paths.take(k as int)),
            decreases n - k,
        {
            let path = &event.paths[k];
            let ghost p = e.paths[k as int];
            assert(path@ == p);
            let ghost base = steps_view(steps@);
            assert(e.paths.take(k + 1).drop_last() =~= e.paths.take(k as int));
            match self.resolve(path) {
                Some(actions) => {
                    let m = actions.len();
                    let mut j: usize = 0;
                    assert(steps_view(steps@) =~= base + path_steps(w, e, p).take(0));
                    while j < m
                        invariant
                            j <= m,
                            m == actions.len(),
                            w.contains_key(p),
                            actions_view(actions@) == w[p],
                            e == event@,
                            steps_view(steps@) == base + path_steps(w, e, p).take(j as int),
                        decreases m - j,
                    {
                        let r = actions[j].handle_change(event);
                        let ghost before = steps@;
                        steps.push(Step::Run(r));
                        assert(w[p][j as int] == actions@[j as int]@);
                        assert(steps_view(steps@) =~= steps_view(before).push(
                            StepView::Run(handled_view(r)),
                        ));
                        assert(path_steps(w, e, p).take(j + 1) =~= path_steps(w, e, p).take(
                            j as int,
                        ).push(StepView::Run(handled_view(r))));
                        j = j + 1;
                    }
                    assert(path_steps(w, e, p).take(m as int) =~= path_steps(w, e, p));
                },
                None => {
                    let ghost before = steps@;
                    steps.push(Step::NoActions(path.clone()));
                    assert(steps_view(steps@) =~= steps_view(before).push(StepView::NoActions(p)));
                    assert(steps_view(steps@) =~= base + path_steps(w, e, p));
                },
            }
            k = k + 1;
        }
        assert(e.paths.take(n as int) =~= e.paths);
        DispatchPlan { was_file_changed: true, steps }
    }
}

impl Default for FilesWatcher {
    fn default() -> (r: FilesWatcher)
        ensures
            r@ == Map::<Seq<char>, Seq<ActionView>>::empty(),
    {
        FilesWatcher::new()
    }
}

} // verus!
