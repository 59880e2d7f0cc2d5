//! The migrator: what is done to a database, step by step, to bring it to
//! the latest version. It decides; its caller performs each action on the
//! database and reports what came of it.

use vstd::prelude::*;
use crate::error::{Error, ErrorView};
use crate::migration::{
    ascending, is_pending, lemma_nothing_pending_when_current, lemma_pending, pending, Migration,
    MigrationKind, MigrationList,
};

verus! {

/// Where a run of the migrator stands.
#[derive(Debug, Clone, Copy, PartialEq, Eq, Structural)]
pub enum MigratorPhase {
    /// The version table is being made sure of.
    Preparing,
    /// The highest recorded version is being read.
    Reading,
    /// A migration of the plan is being applied.
    Applying,
    /// All of the plan is applied.
    Finished,
    /// The run was given up.
    Failed,
}

/// What the database did on the migrator's last action.
#[derive(Debug)]
pub enum MigratorEvent {
    /// The version table exists.
    TableReady,
    /// The highest recorded version was read; `None` where none is recorded.
    Version(Option<i64>),
    /// The migration was run and its version recorded, in one transaction.
    Applied,
    /// The action failed; holds the backend's message.
    Failed(String),
}

/// What the migrator wants done next.
#[derive(Debug)]
pub enum MigratorAction {
    /// Create the version table unless it exists.
    EnsureVersionTable,
    /// Read the highest recorded version.
    ReadVersion,
    /// Run this migration and record its version, in one transaction.
    Apply(Migration),
    /// Nothing is left to do.
    Finish,
    /// Give up with this error. What was applied stays applied.
    Fail(Error),
    /// The event does not belong to the phase; nothing has changed.
    Reject,
}

/// Mathematical model of a [`MigratorEvent`].
pub ghost enum MigratorEventView {
    TableReady,
    Version(Option<int>),
    Applied,
    Failed(Seq<char>),
}

/// Mathematical model of a [`MigratorAction`].
pub ghost enum MigratorActionView {
    EnsureVersionTable,
    ReadVersion,
    Apply(Migration),
    Finish,
    Fail(ErrorView),
    Reject,
}

impl View for MigratorEvent {
    type V = MigratorEventView;

    open spec fn view(&self) -> MigratorEventView {
        match self {
            MigratorEvent::TableReady => MigratorEventView::TableReady,
            MigratorEvent::Version(Some(v)) => MigratorEventView::Version(Some(*v as int)),
            MigratorEvent::Version(None) => MigratorEventView::Version(None),
            MigratorEvent::Applied => MigratorEventView::Applied,
            MigratorEvent::Failed(m) => MigratorEventView::Failed(m@),
        }
    }
}

impl View for MigratorAction {
    type V = MigratorActionView;

    open spec fn view(&self) -> MigratorActionView {
        match self {
            MigratorAction::EnsureVersionTable => MigratorActionView::EnsureVersionTable,
            MigratorAction::ReadVersion => MigratorActionView::ReadVersion,
            MigratorAction::Apply(m) => MigratorActionView::Apply(*m),
            MigratorAction::Finish => MigratorActionView::Finish,
            MigratorAction::Fail(e) => MigratorActionView::Fail(e@),
            MigratorAction::Reject => MigratorActionView::Reject,
        }
    }
}

/// Mathematical model of a [`Migrator`].
pub ghost struct MigratorView {
    /// The migrations that were given.
    pub list: Seq<Migration>,
    pub phase: MigratorPhase,
    /// The pending migrations in the order of their application; empty
    /// until the recorded version is known.
    pub plan: Seq<Migration>,
    /// How many of the plan are applied.
    pub applied: nat,
}

impl MigratorView {
    /// No more is applied than the plan holds, and less while the run
    /// applies.
    pub open spec fn wf(self) -> bool {
        &&& self.applied <= self.plan.len()
        &&& self.phase == MigratorPhase::Applying ==> self.applied < self.plan.len()
    }

    /// The state in which a run begins.
    pub open spec fn initial(list: Seq<Migration>) -> MigratorView {
        MigratorView { list, phase: MigratorPhase::Preparing, plan: Seq::empty(), applied: 0 }
    }

    /// The state after an event, and the action that answers it.
    ///
    /// Once the version table is there the recorded version is read, 0
    /// standing for none. The migrations pending at that version are then
    /// applied one by one, by ascending version. A failure ends the run at
    /// once; an event that the phase does not wait for changes nothing.
    pub open spec fn stepped(self, event: MigratorEventView) -> (MigratorView, MigratorActionView) {
        match (self.phase, event) {
            (MigratorPhase::Preparing, MigratorEventView::TableReady) => (
                MigratorView { phase: MigratorPhase::Reading, ..self },
                MigratorActionView::ReadVersion,
            ),
            (MigratorPhase::Reading, MigratorEventView::Version(recorded)) => {
                let current = match recorded {
                    Some(v) => v,
                    None => 0,
                };
                let plan = pending(self.list, current);
                if plan.len() == 0 {
                    (
                        MigratorView { phase: MigratorPhase::Finished, plan, applied: 0, ..self },
                        MigratorActionView::Finish,
                    )
                } else {
                    (
                        MigratorView { phase: MigratorPhase::Applying, plan, applied: 0, ..self },
                        MigratorActionView::Apply(plan[0]),
                    )
                }
            },
            (MigratorPhase::Applying, MigratorEventView::Applied) => {
                let applied = self.applied + 1;
                if applied >= self.plan.len() {
                    (
                        MigratorView { phase: MigratorPhase::Finished, applied, ..self },
                        MigratorActionView::Finish,
                    )
                } else {
                    (
                        MigratorView { applied, ..self },
                        MigratorActionView::Apply(self.plan[applied as int]),
                    )
                }
            },
            (MigratorPhase::Preparing, MigratorEventView::Failed(message))
            | (MigratorPhase::Reading, MigratorEventView::Failed(message))
            | (MigratorPhase::Applying, MigratorEventView::Failed(message)) => (
                MigratorView { phase: MigratorPhase::Failed, ..self },
                MigratorActionView::Fail(ErrorView::MigrationFailed(message)),
            ),
            _ => (self, MigratorActionView::Reject),
        }
    }

    /// The state after `count` migrations in a row were reported applied.
    pub open spec fn after_applied(self, count: nat) -> MigratorView
        decreases count,
    {
        if count == 0 {
            self
        } else {
            self.after_applied((count - 1) as nat).stepped(MigratorEventView::Applied).0
        }
    }
}

/// The highest of the recorded versions; `None` where none is recorded.
pub fn highest_version(recorded: &Vec<i64>) -> (highest: Option<i64>)
    ensures
        match highest {
            Some(v) => recorded@.contains(v) && forall|i: int|
                0 <= i < recorded@.len() ==> recorded@[i] <= v,
            None => recorded@.len() == 0,
        },
{
    if recorded.len() == 0 {
        return None;
    }
    let mut highest: i64 = recorded[0];
    let mut i: usize = 1;
    while i < recorded.len()
        invariant
            1 <= i <= recorded@.len(),
            recorded@.contains(highest),
            forall|k: int| 0 <= k < i ==> recorded@[k] <= highest,
        decreases recorded@.len() - i,
    {
        if recorded[i] > highest {
            highest = recorded[i];
        }
        i += 1;
    }
    Some(highest)
}

/// One run of the migrator on one database.
#[derive(Debug)]
pub struct Migrator {
    list: MigrationList,
    phase: MigratorPhase,
    plan: Vec<Migration>,
    applied: usize,
}

impl View for Migrator {
    type V = MigratorView;

    closed spec fn view(&self) -> MigratorView {
        MigratorView {
            list: self.list@,
            phase: self.phase,
            plan: self.plan@,
            applied: self.applied as nat,
        }
    }
}

impl Migrator {
    #[verifier::type_invariant]
    spec fn well_formed(&self) -> bool {
        self@.wf()
    }

    /// Begins a run over the migrations of one database. The first action
    /// is to make sure of the version table.
    pub fn new(list: MigrationList) -> (begun: (Migrator, MigratorAction))
        ensures
            begun.0@ == MigratorView::initial(list@),
            begun.1@ == MigratorActionView::EnsureVersionTable,
    {
        (
            Migrator { list, phase: MigratorPhase::Preparing, plan: Vec::new(), applied: 0 },
            MigratorAction::EnsureVersionTable,
        )
    }

    /// Where the run stands.
    pub fn phase(&self) -> (phase: MigratorPhase)
        ensures
            phase == self@.phase,
            self@.wf(),
    {
        proof {
            use_type_invariant(self);
        }
        self.phase
    }

    /// How many migrations of the plan are applied.
    pub fn applied(&self) -> (count: usize)
        ensures
            count == self@.applied,
            self@.wf(),
    {
        proof {
            use_type_invariant(self);
        }
        self.applied
    }

    /// Takes in what the database did and says what to do next.
    pub fn step(&mut self, event: MigratorEvent) -> (action: MigratorAction)
        ensures
            final(self)@ == old(self)@.stepped(event@).0,
            action@ == old(self)@.stepped(event@).1,
            final(self)@.wf(),
    {
        proof {
            use_type_invariant(&*self);
        }
        let phase = self.phase;
        match event {
            MigratorEvent::TableReady => match phase {
                MigratorPhase::Preparing => {
                    self.phase = MigratorPhase::Reading;
                    MigratorAction::ReadVersion
                },
                _ => MigratorAction::Reject,
            },
            MigratorEvent::Version(recorded) => match phase {
                MigratorPhase::Reading => {
                    let current: i64 = match recorded {
                        Some(v) => v,
                        None => 0,
                    };
                    let plan = self.list.pending(current);
                    self.applied = 0;
                    if plan.len() == 0 {
                        self.plan = plan;
                        self.phase = MigratorPhase::Finished;
                        MigratorAction::Finish
                    } else {
                        let first = plan[0];
                        self.plan = plan;
                        self.phase = MigratorPhase::Applying;
                        MigratorAction::Apply(first)
                    }
                },
                _ => MigratorAction::Reject,
            },
            MigratorEvent::Applied => match phase {
                MigratorPhase::Applying => {
                    let planned = self.plan.len();
                    let applied = self.applied + 1;
                    if applied >= planned {
                        self.phase = MigratorPhase::Finished;
                        self.applied = applied;
                        MigratorAction::Finish
                    } else {
                        self.applied = applied;
                        MigratorAction::Apply(self.plan[applied])
                    }
                },
                _ => MigratorAction::Reject,
            },
            MigratorEvent::Failed(message) => match phase {
                MigratorPhase::Preparing | MigratorPhase::Reading | MigratorPhase::Applying => {
                    self.phase = MigratorPhase::Failed;
                    MigratorAction::Fail(Error::MigrationFailed(message))
                },
                _ => MigratorAction::Reject,
            },
        }
    }
}

/// While the plan is being applied, each report of success takes the run
/// one migration further: after `count` of them the run has applied
/// `count` migrations, and the next report is answered by the migration
/// that follows in the plan, or by `Finish` after the last.
pub proof fn lemma_plan_applied_in_order(run: MigratorView, count: nat)
    requires
        run.phase == MigratorPhase::Applying,
        run.applied == 0,
        count < run.plan.len(),
    ensures
        run.after_applied(count) == (MigratorView { applied: count, ..run }),
        run.after_applied(count).stepped(MigratorEventView::Applied).1 == if count + 1
            == run.plan.len() {
            MigratorActionView::Finish
        } else {
            MigratorActionView::Apply(run.plan[count as int + 1])
        },
    decreases count,
{
    if count > 0 {
        lemma_plan_applied_in_order(run, (count - 1) as nat);
    }
}

/// A run on a database at the recorded version `recorded` begins with the
/// version table and the recorded version, and then applies the migrations
/// pending at that version, by ascending version; with none pending it
/// finishes at once and applies nothing.
pub proof fn lemma_run_follows_plan(list: Seq<Migration>, recorded: Option<int>)
    ensures
        ({
            let current = match recorded {
                Some(v) => v,
                None => 0,
            };
            let plan = pending(list, current);
            let prepared = MigratorView::initial(list).stepped(MigratorEventView::TableReady);
            let read = prepared.0.stepped(MigratorEventView::Version(recorded));
            &&& prepared.1 == MigratorActionView::ReadVersion
            &&& read.0.plan == plan
            &&& read.0.applied == 0
            &&& ascending(plan)
            &&& forall|i: int| 0 <= i < plan.len() ==> is_pending(#[trigger] plan[i], current)
            &&& plan.len() == 0 ==> read.1 == MigratorActionView::Finish && read.0.phase
                == MigratorPhase::Finished
            &&& plan.len() > 0 ==> read.1 == MigratorActionView::Apply(plan[0]) && read.0.phase
                == MigratorPhase::Applying
        }),
{
    let current = match recorded {
        Some(v) => v,
        None => 0,
    };
    lemma_pending(list, current);
}

/// After a run that applied all of its plan, nothing of the list is
/// pending: the version of the plan's last migration is then the highest
/// recorded one.
pub proof fn lemma_nothing_pending_after_run(list: Seq<Migration>, current: int)
    requires
        pending(list, current).len() > 0,
    ensures
        pending(list, current).last().version > current,
        pending(list, pending(list, current).last().version as int) == Seq::<Migration>::empty(),
{
    broadcast use vstd::seq_lib::group_to_multiset_ensures;

    let plan = pending(list, current);
    let keep = |m: Migration| is_pending(m, current);
    lemma_pending(list, current);
    let top = plan.last().version;
    assert(is_pending(plan[plan.len() - 1], current));
    assert forall|i: int|
        0 <= i < list.len() && (#[trigger] list[i]).kind == MigrationKind::Up implies list[i].version
        <= top by {
        if list[i].version > current {
            assert(keep(list[i]));
            list.lemma_filter_contains_rev(keep, list[i]);
            assert(list.filter(keep).contains(list[i]));
            assert(plan.to_multiset().count(list[i]) > 0);
            assert(plan.contains(list[i]));
            let k = choose|k: int| 0 <= k < plan.len() && plan[k] == list[i];
            if k < plan.len() - 1 {
                assert(plan[k].version <= plan[plan.len() - 1].version);
            }
        }
    }
    lemma_nothing_pending_when_current(list, top as int);
}

} // verus!
