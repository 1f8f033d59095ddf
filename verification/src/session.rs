//! A run, step by step: the library decides, the caller does the work on
//! the file system and the terminal and reports back.

use crate::config::Config;
use crate::item::{attempt, Entry, FsItem, FsItemRenameError, ItemPath};
use crate::order::{accept, accepted, is_stable_sort, sort_by_created, views};
use crate::partition::{either, failures, lemma_partition_covers, partition_results, successes};
use crate::report::{
    are_wordings, confirmed, directory_line, directory_text, failed_views, is_yes, preview,
    preview_texts, ref_views, report, report_texts, texts,
};
use vstd::prelude::*;

verus! {

/// What the caller reports back after it has done what an action asked.
#[derive(Debug)]
pub enum Event {
    /// The directory was listed, or could not be.
    Scanned(Result<Vec<Result<Entry, std::io::Error>>, std::io::Error>),
    /// One line of input was read, with its line end taken off; `None` at
    /// the end of the input.
    Answered(Option<Result<String, std::io::Error>>),
    /// The file system was asked to move one file, and did or refused.
    Renamed(Result<(), std::io::Error>),
}

/// What the caller is to do next.
#[derive(Debug)]
pub enum Action {
    /// Print `line`, then list the directory `dir`.
    Scan { line: String, dir: String },
    /// Print `lines`, then read one line of input.
    Ask { lines: Vec<String> },
    /// Move the file at `from` to `to`.
    Rename { from: ItemPath, to: ItemPath },
    /// Print `lines` and end the run with success.
    Finish { lines: Vec<String> },
    /// End the run with this error.
    Fail { error: std::io::Error },
}

/// An action as the contracts see it.
#[verifier::ext_equal]
pub enum ActionView {
    Scan { line: Seq<char>, dir: Seq<char> },
    Ask { lines: Seq<Seq<char>> },
    Rename { from: (Seq<char>, Seq<char>), to: (Seq<char>, Seq<char>) },
    Finish { lines: Seq<Seq<char>> },
    Fail { error: std::io::Error },
}

impl View for Action {
    type V = ActionView;

    open spec fn view(&self) -> ActionView {
        match *self {
            Action::Scan { line, dir } => ActionView::Scan { line: line@, dir: dir@ },
            Action::Ask { lines } => ActionView::Ask { lines: texts(lines@) },
            Action::Rename { from, to } => ActionView::Rename { from: from@, to: to@ },
            Action::Finish { lines } => ActionView::Finish { lines: texts(lines@) },
            Action::Fail { error } => ActionView::Fail { error },
        }
    }
}

/// Where a run stands, as the contracts see it.
#[verifier::ext_equal]
pub enum SessionView {
    /// The directory is being listed.
    Scanning,
    /// The plan for `items` was shown; the user's answer is awaited.
    Asking { items: Seq<FsItem> },
    /// The batch is under way: `outcomes` tells how the attempts on the
    /// first items ended, and the attempt on the next item is being made.
    Renaming { items: Seq<FsItem>, outcomes: Seq<Result<(), std::io::Error>> },
    /// The run is over.
    Done,
}

impl SessionView {
    /// While the batch is under way, an item is left whose attempt is
    /// being made.
    pub open spec fn wf(self) -> bool {
        self matches SessionView::Renaming { items, outcomes } ==> outcomes.len() < items.len()
    }

    /// Whether `event` answers the action that led here.
    pub open spec fn expects(self, event: Event) -> bool {
        match self {
            SessionView::Scanning => event is Scanned,
            SessionView::Asking { .. } => event is Answered,
            SessionView::Renaming { .. } => event is Renamed,
            SessionView::Done => false,
        }
    }
}

enum Stage {
    Scanning,
    Asking { items: Vec<FsItem> },
    Renaming { items: Vec<FsItem>, outcomes: Vec<Result<(), std::io::Error>> },
    Done,
}

/// Where a run stands.
pub struct Session {
    stage: Stage,
}

impl View for Session {
    type V = SessionView;

    closed spec fn view(&self) -> SessionView {
        match self.stage {
            Stage::Scanning => SessionView::Scanning,
            Stage::Asking { items } => SessionView::Asking { items: items@ },
            Stage::Renaming { items, outcomes } => SessionView::Renaming {
                items: items@,
                outcomes: outcomes@,
            },
            Stage::Done => SessionView::Done,
        }
    }
}

/// The line that tells the user that nothing was renamed.
pub open spec fn cancelled_text() -> Seq<char> {
    "Renaming cancelled."@
}

/// The attempts of a batch as they are recorded: the i-th item with the
/// i-th outcome.
pub open spec fn attempts<'a>(
    items: Seq<FsItem>,
    outcomes: Seq<Result<(), std::io::Error>>,
) -> Seq<Result<&'a FsItem, FsItemRenameError<'a>>> {
    Seq::new(outcomes.len(), |i: int| attempt(&items[i], outcomes[i]))
}

/// The action that asks for the rename of `item`.
pub open spec fn rename_action(item: FsItem) -> ActionView {
    ActionView::Rename { from: item.path@, to: item.new_path@ }
}

/// Whether `action` ends the run with the report of the batch on `items`
/// whose attempts ended as `outcomes` tells: the renamed items, then the
/// failed ones, each with the wording of its own reason.
pub open spec fn is_report(
    action: ActionView,
    items: Seq<FsItem>,
    outcomes: Seq<Result<(), std::io::Error>>,
) -> bool {
    let renamed = successes(attempts(items, outcomes));
    let failed = failures(attempts(items, outcomes));
    exists|reasons: Seq<String>| #[trigger]
        are_wordings(failed, reasons) && action == (ActionView::Finish {
            lines: report_texts(ref_views(renamed), failed_views(failed), texts(reasons)),
        })
}

/// The steps that a run can take: from `pre`, on `event`, to `post`, asking
/// for `action`. There is no step on an event that `pre` does not expect.
///
/// A failed scan ends the run with the error. A scan that worked leads to
/// the plan: the items that the entries yield, oldest first, and the
/// question. Any answer but a yes ends the run with a notice, and nothing
/// is renamed. After a yes the items are tried one after the other, in the
/// order of the plan and whatever becomes of the ones before; the report
/// follows the last.
pub open spec fn step(pre: SessionView, event: Event, post: SessionView, action: ActionView) -> bool {
    match (pre, event) {
        (SessionView::Scanning, Event::Scanned(Err(error))) => {
            &&& post == SessionView::Done
            &&& action == ActionView::Fail { error }
        },
        (SessionView::Scanning, Event::Scanned(Ok(entries))) => {
            &&& post matches SessionView::Asking { items }
            &&& is_stable_sort(accepted(entries@), views(items))
            &&& action == ActionView::Ask { lines: preview_texts(views(items)) }
        },
        (SessionView::Asking { items }, Event::Answered(answer)) => {
            if !is_yes(answer) {
                &&& post == SessionView::Done
                &&& action == ActionView::Finish { lines: seq![cancelled_text()] }
            } else if items.len() == 0 {
                &&& post == SessionView::Done
                &&& is_report(action, items, Seq::empty())
            } else {
                &&& post == SessionView::Renaming { items, outcomes: Seq::empty() }
                &&& action == rename_action(items[0])
            }
        },
        (SessionView::Renaming { items, outcomes }, Event::Renamed(outcome)) => {
            let outcomes = outcomes.push(outcome);
            if outcomes.len() < items.len() {
                &&& post == SessionView::Renaming { items, outcomes }
                &&& action == rename_action(items[outcomes.len() as int])
            } else {
                &&& post == SessionView::Done
                &&& is_report(action, items, outcomes)
            }
        },
        _ => false,
    }
}

/// What the caller reported of the attempts, read off the events.
pub open spec fn outcomes_of(events: Seq<Event>) -> Seq<Result<(), std::io::Error>> {
    events.map_values(|event: Event| event->Renamed_0)
}

/// Several steps in a row: from `pre`, on `events` one after the other, to
/// `post`, asking for `actions` one after the other.
pub open spec fn is_run(
    pre: SessionView,
    events: Seq<Event>,
    actions: Seq<ActionView>,
    post: SessionView,
) -> bool
    decreases events.len(),
{
    if events.len() == 0 {
        actions.len() == 0 && post == pre
    } else {
        &&& actions.len() == events.len()
        &&& exists|mid: SessionView| #[trigger]
            step(pre, events[0], mid, actions[0]) && is_run(
                mid,
                events.skip(1),
                actions.skip(1),
                post,
            )
    }
}

/// A step leaves the run in a state that is well formed.
pub proof fn lemma_step_wf(pre: SessionView, event: Event, post: SessionView, action: ActionView)
    requires
        step(pre, event, post, action),
    ensures
        pre.expects(event),
        post.wf(),
{
}

/// Nothing follows the end of a run.
pub proof fn lemma_done_is_final(events: Seq<Event>, actions: Seq<ActionView>, post: SessionView)
    requires
        is_run(SessionView::Done, events, actions, post),
    ensures
        events.len() == 0,
        actions.len() == 0,
        post == SessionView::Done,
{
}

/// Only a yes lets the batch start: on any other answer the run ends at
/// once, with the notice that nothing was renamed, and not one rename is
/// asked for.
pub proof fn lemma_only_yes_renames(
    items: Seq<FsItem>,
    events: Seq<Event>,
    actions: Seq<ActionView>,
    post: SessionView,
)
    requires
        is_run(SessionView::Asking { items }, events, actions, post),
        events.len() > 0,
        events[0] matches Event::Answered(answer) && !is_yes(answer),
    ensures
        events.len() == 1,
        actions == seq![(ActionView::Finish { lines: seq![cancelled_text()] })],
        post == SessionView::Done,
{
    let pre = SessionView::Asking { items };
    let mid = choose|mid: SessionView| #[trigger]
        step(pre, events[0], mid, actions[0]) && is_run(
            mid,
            events.skip(1),
            actions.skip(1),
            post,
        );
    lemma_done_is_final(events.skip(1), actions.skip(1), post);
    assert(actions =~= seq![(ActionView::Finish { lines: seq![cancelled_text()] })]);
}

/// Once the batch is under way it goes through to the end: the items that
/// are left are tried one after the other, each once and in the order of
/// the plan, whatever the outcomes, and the report of all attempts closes
/// the run.
pub proof fn lemma_batch_runs_through(
    items: Seq<FsItem>,
    outcomes: Seq<Result<(), std::io::Error>>,
    events: Seq<Event>,
    actions: Seq<ActionView>,
)
    requires
        outcomes.len() < items.len(),
        is_run(SessionView::Renaming { items, outcomes }, events, actions, SessionView::Done),
    ensures
        events.len() == items.len() - outcomes.len(),
        actions.len() == events.len(),
        forall|k: int| 0 <= k < events.len() ==> #[trigger] events[k] is Renamed,
        forall|k: int|
            0 <= k < events.len() - 1 ==> #[trigger] actions[k] == rename_action(
                items[outcomes.len() + 1 + k],
            ),
        is_report(actions.last(), items, outcomes + outcomes_of(events)),
    decreases events.len(),
{
    let pre = SessionView::Renaming { items, outcomes };
    assert(events.len() > 0);
    let mid = choose|mid: SessionView| #[trigger]
        step(pre, events[0], mid, actions[0]) && is_run(
            mid,
            events.skip(1),
            actions.skip(1),
            SessionView::Done,
        );
    let outcome = events[0]->Renamed_0;
    let extended = outcomes.push(outcome);
    if extended.len() < items.len() {
        lemma_batch_runs_through(items, extended, events.skip(1), actions.skip(1));
        assert forall|k: int| 0 <= k < events.len() implies #[trigger] events[k] is Renamed by {
            if k > 0 {
                assert(events.skip(1)[k - 1] is Renamed);
            }
        }
        assert forall|k: int| 0 <= k < events.len() - 1 implies #[trigger] actions[k]
            == rename_action(items[outcomes.len() + 1 + k]) by {
            if k > 0 {
                assert(actions.skip(1)[k - 1] == rename_action(
                    items[extended.len() + 1 + (k - 1)],
                ));
            }
        }
        assert(extended + outcomes_of(events.skip(1)) =~= outcomes + outcomes_of(events));
        assert(actions.last() == actions.skip(1).last());
    } else {
        lemma_done_is_final(events.skip(1), actions.skip(1), SessionView::Done);
        assert(extended =~= outcomes + outcomes_of(events));
    }
}

/// After a yes every item of the plan is tried exactly once, in the order
/// of the plan, and the report of all attempts closes the run.
pub proof fn lemma_yes_tries_each_item_once(
    items: Seq<FsItem>,
    events: Seq<Event>,
    actions: Seq<ActionView>,
)
    requires
        is_run(SessionView::Asking { items }, events, actions, SessionView::Done),
        events.len() > 0,
        events[0] matches Event::Answered(answer) && is_yes(answer),
    ensures
        events.len() == items.len() + 1,
        actions.len() == items.len() + 1,
        forall|i: int| 0 <= i < items.len() ==> #[trigger] actions[i] == rename_action(items[i]),
        actions[items.len() as int] is Finish,
        is_report(actions[items.len() as int], items, outcomes_of(events.skip(1))),
{
    let pre = SessionView::Asking { items };
    let mid = choose|mid: SessionView| #[trigger]
        step(pre, events[0], mid, actions[0]) && is_run(
            mid,
            events.skip(1),
            actions.skip(1),
            SessionView::Done,
        );
    if items.len() == 0 {
        lemma_done_is_final(events.skip(1), actions.skip(1), SessionView::Done);
        assert(outcomes_of(events.skip(1)) =~= Seq::empty());
    } else {
        let none: Seq<Result<(), std::io::Error>> = Seq::empty();
        lemma_batch_runs_through(items, none, events.skip(1), actions.skip(1));
        assert(none + outcomes_of(events.skip(1)) =~= outcomes_of(events.skip(1)));
        assert forall|i: int| 0 <= i < items.len() implies #[trigger] actions[i] == rename_action(
            items[i],
        ) by {
            if i > 0 {
                assert(actions.skip(1)[i - 1] == rename_action(items[0 + 1 + (i - 1)]));
            }
        }
        assert(actions[items.len() as int] == actions.skip(1).last());
    }
}

/// A rename that failed does not hold up the batch: the next item is tried
/// as it would have been after a success.
pub proof fn lemma_failure_does_not_stop(
    items: Seq<FsItem>,
    outcomes: Seq<Result<(), std::io::Error>>,
    outcome: Result<(), std::io::Error>,
    post: SessionView,
    action: ActionView,
)
    requires
        outcomes.len() + 1 < items.len(),
        step(SessionView::Renaming { items, outcomes }, Event::Renamed(outcome), post, action),
    ensures
        post == (SessionView::Renaming { items, outcomes: outcomes.push(outcome) }),
        action == rename_action(items[outcomes.len() as int + 1]),
{
}

/// The item that a record of an attempt is about.
pub open spec fn renamed_item<'a>() -> spec_fn(&'a FsItem) -> FsItem {
    |item: &'a FsItem| *item
}

/// The item that a record of a failed attempt is about.
pub open spec fn failed_item<'a>() -> spec_fn(FsItemRenameError<'a>) -> FsItem {
    |error: FsItemRenameError<'a>| *error.item
}

/// The report leaves no item out and names none twice: the items that were
/// renamed and the items that failed are, together, the items of the plan.
pub proof fn lemma_batch_complete(items: Seq<FsItem>, outcomes: Seq<Result<(), std::io::Error>>)
    requires
        items.len() == outcomes.len(),
    ensures
        successes(attempts(items, outcomes)).len() + failures(attempts(items, outcomes)).len()
            == items.len(),
        successes(attempts(items, outcomes)).map_values(renamed_item()).to_multiset().add(
            failures(attempts(items, outcomes)).map_values(failed_item()).to_multiset(),
        ) == items.to_multiset(),
{
    let results = attempts(items, outcomes);
    lemma_partition_covers(results, renamed_item(), failed_item());
    assert(results.map_values(either(renamed_item(), failed_item())) =~= items);
}

/// The action that asks for the rename of `item`.
fn rename_of(item: &FsItem) -> (action: Action)
    ensures
        action@ == rename_action(*item),
{
    Action::Rename { from: item.path.duplicate(), to: item.new_path.duplicate() }
}

/// Ends a batch: records each attempt, splits the records and writes the
/// report.
fn finish(items: &Vec<FsItem>, outcomes: Vec<Result<(), std::io::Error>>) -> (action: Action)
    requires
        items@.len() == outcomes@.len(),
    ensures
        is_report(action@, items@, outcomes@),
{
    let mut results: Vec<Result<&FsItem, FsItemRenameError<'_>>> = Vec::new();
    let mut i: usize = 0;
    for outcome in it: outcomes
        invariant
            it.seq() == outcomes@,
            items@.len() == outcomes@.len(),
            i == it.index(),
            results@ == attempts(items@, outcomes@.take(i as int)),
    {
        results.push(items[i].rename(outcome));
        assert(i < items.len());
        i += 1;
        assert(results@ =~= attempts(items@, outcomes@.take(i as int)));
    }
    assert(outcomes@.take(outcomes@.len() as int) =~= outcomes@);
    let (renamed, failed) = partition_results(results);
    let lines = report(&renamed, &failed);
    Action::Finish { lines }
}

impl Session {
    /// While the batch is under way, an item is left whose attempt is
    /// being made.
    #[verifier::type_invariant]
    closed spec fn inv(self) -> bool {
        self@.wf()
    }

    /// Whether `event` answers the action that led here.
    pub fn expects(&self, event: &Event) -> (r: bool)
        ensures
            r == self@.expects(*event),
    {
        match (&self.stage, event) {
            (Stage::Scanning, Event::Scanned(_)) => true,
            (Stage::Asking { .. }, Event::Answered(_)) => true,
            (Stage::Renaming { .. }, Event::Renamed(_)) => true,
            _ => false,
        }
    }

    /// Whether the run is over.
    pub fn is_done(&self) -> (r: bool)
        ensures
            r == (self@ is Done),
    {
        match self.stage {
            Stage::Done => true,
            _ => false,
        }
    }
}

/// Starts a run on the directory that `config` names: the directory is
/// announced and listed.
pub fn begin(config: &Config<'_>) -> (r: (Session, Action))
    ensures
        r.0@ == SessionView::Scanning,
        r.1@ == (ActionView::Scan { line: directory_text(config.dir@), dir: config.dir@ }),
{
    let line = directory_line(config.dir);
    (Session { stage: Stage::Scanning }, Action::Scan { line, dir: String::from_str(config.dir) })
}

/// Takes a run one step further: given what the last action brought,
/// decides where the run stands now and what is to be done next. An event
/// that does not answer the last action takes the run nowhere.
pub fn run(session: Session, event: Event) -> (r: Option<(Session, Action)>)
    ensures
        r is Some <==> session@.expects(event),
        r matches Some((next, action)) ==> step(session@, event, next@, action@) && next@.wf(),
{
    proof {
        use_type_invariant(&session);
    }
    match (session.stage, event) {
        (Stage::Scanning, Event::Scanned(Err(error))) => Some(
            (Session { stage: Stage::Done }, Action::Fail { error }),
        ),
        (Stage::Scanning, Event::Scanned(Ok(entries))) => {
            let items = sort_by_created(accept(entries));
            let lines = preview(&items);
            Some((Session { stage: Stage::Asking { items } }, Action::Ask { lines }))
        },
        (Stage::Asking { items }, Event::Answered(answer)) => {
            if !confirmed(&answer) {
                let mut lines: Vec<String> = Vec::new();
                lines.push(String::from_str("Renaming cancelled."));
                let action = Action::Finish { lines };
                assert(action@ =~= (ActionView::Finish { lines: seq![cancelled_text()] }));
                Some((Session { stage: Stage::Done }, action))
            } else if items.len() == 0 {
                let action = finish(&items, Vec::new());
                Some((Session { stage: Stage::Done }, action))
            } else {
                let action = rename_of(&items[0]);
                Some((Session { stage: Stage::Renaming { items, outcomes: Vec::new() } }, action))
            }
        },
        (Stage::Renaming { items, outcomes }, Event::Renamed(outcome)) => {
            let mut outcomes = outcomes;
            outcomes.push(outcome);
            if outcomes.len() < items.len() {
                let action = rename_of(&items[outcomes.len()]);
                Some((Session { stage: Stage::Renaming { items, outcomes } }, action))
            } else {
                let action = finish(&items, outcomes);
                Some((Session { stage: Stage::Done }, action))
            }
        },
        _ => None,
    }
}

} // verus!
