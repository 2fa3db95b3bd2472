//! The decisions of a save: a transaction that begins, runs its statements
//! in order, commits, and gives up at the first thing that fails.
//!
//! The code that holds the database connection asks `current` what to do,
//! does it, and reports with `report` whether it succeeded.

use vstd::prelude::*;

verus! {

/// What the holder of the connection must do next.
#[derive(Debug)]
pub enum SaveStep {
    /// Begin a transaction.
    Begin,
    /// Run this statement inside the transaction.
    Execute(String),
    /// Commit the transaction.
    Commit,
    /// Everything succeeded: the save returns `Ok(())`.
    Done,
    /// Something failed: the save returns the error of the step that failed,
    /// and the transaction is dropped without being committed.
    Abort,
}

/// How far a save has come: the step it waits on, or how it ended.
#[derive(Clone, Copy, Debug, PartialEq, Eq, Structural)]
pub enum Stage {
    AwaitBegin,
    AwaitStatement(usize),
    AwaitCommit,
    Done,
    Aborted,
}

/// The stage after the step awaited in `stage` was reported, for a save of
/// `count` statements.
pub open spec fn next_stage(stage: Stage, count: nat, succeeded: bool) -> Stage {
    match stage {
        Stage::AwaitBegin => if !succeeded {
            Stage::Aborted
        } else if count == 0 {
            Stage::AwaitCommit
        } else {
            Stage::AwaitStatement(0)
        },
        Stage::AwaitStatement(i) => if !succeeded {
            Stage::Aborted
        } else if i + 1 < count {
            Stage::AwaitStatement((i + 1) as usize)
        } else {
            Stage::AwaitCommit
        },
        Stage::AwaitCommit => if succeeded {
            Stage::Done
        } else {
            Stage::Aborted
        },
        Stage::Done => Stage::Done,
        Stage::Aborted => Stage::Aborted,
    }
}

/// The stage reached from `start` after the outcomes `outcomes` were
/// reported in order.
pub open spec fn run_stages(start: Stage, count: nat, outcomes: Seq<bool>) -> Stage
    decreases outcomes.len(),
{
    if outcomes.len() == 0 {
        start
    } else {
        next_stage(run_stages(start, count, outcomes.drop_last()), count, outcomes.last())
    }
}

/// Whether every outcome reported is a success.
pub open spec fn all_succeeded(outcomes: Seq<bool>) -> bool {
    forall|i: int| 0 <= i < outcomes.len() ==> #[trigger] outcomes[i]
}

/// The model of a save in progress: its statements and its stage.
pub struct SaveTransactionView {
    pub statements: Seq<Seq<char>>,
    pub stage: Stage,
}

/// A save in progress.
pub struct SaveTransaction {
    statements: Vec<String>,
    stage: Stage,
}

impl View for SaveTransaction {
    type V = SaveTransactionView;

    closed spec fn view(&self) -> SaveTransactionView {
        SaveTransactionView { statements: self.statements@.map_values(|s: String| s@), stage: self.stage }
    }
}

impl SaveTransaction {
    #[verifier::type_invariant]
    spec fn well_formed(&self) -> bool {
        self.stage matches Stage::AwaitStatement(i) ==> i < self.statements@.len()
    }

    /// A save of `statements`, in order, that has not begun.
    pub fn new(statements: Vec<String>) -> (t: SaveTransaction)
        ensures
            t@.statements == statements@.map_values(|s: String| s@),
            t@.stage == Stage::AwaitBegin,
    {
        SaveTransaction { statements, stage: Stage::AwaitBegin }
    }

    /// The number of statements of the save.
    pub fn len(&self) -> (n: usize)
        ensures
            n == self@.statements.len(),
    {
        self.statements.len()
    }

    /// The stage the save is in.
    pub fn stage(&self) -> (s: Stage)
        ensures
            s == self@.stage,
    {
        self.stage
    }

    /// What to do now.
    pub fn current(&self) -> (step: SaveStep)
        ensures
            match self@.stage {
                Stage::AwaitBegin => step is Begin,
                Stage::AwaitStatement(i) => step matches SaveStep::Execute(s) && i
                    < self@.statements.len() && s@ == self@.statements[i as int],
                Stage::AwaitCommit => step is Commit,
                Stage::Done => step is Done,
                Stage::Aborted => step is Abort,
            },
    {
        proof {
            use_type_invariant(self);
        }
        match self.stage {
            Stage::AwaitBegin => SaveStep::Begin,
            Stage::AwaitStatement(i) => {
                let s = self.statements[i].clone();
                SaveStep::Execute(s)
            },
            Stage::AwaitCommit => SaveStep::Commit,
            Stage::Done => SaveStep::Done,
            Stage::Aborted => SaveStep::Abort,
        }
    }

    /// Records whether the step asked for by `current` succeeded.
    pub fn report(&mut self, succeeded: bool)
        ensures
            final(self)@.statements == old(self)@.statements,
            final(self)@.stage == next_stage(old(self)@.stage, old(self)@.statements.len(), succeeded),
    {
        proof {
            use_type_invariant(&*self);
        }
        let count = self.statements.len();
        let next = match self.stage {
            Stage::AwaitBegin => if !succeeded {
                Stage::Aborted
            } else if count == 0 {
                Stage::AwaitCommit
            } else {
                Stage::AwaitStatement(0)
            },
            Stage::AwaitStatement(i) => if !succeeded {
                Stage::Aborted
            } else if i + 1 < count {
                Stage::AwaitStatement(i + 1)
            } else {
                Stage::AwaitCommit
            },
            Stage::AwaitCommit => if succeeded {
                Stage::Done
            } else {
                Stage::Aborted
            },
            Stage::Done => Stage::Done,
            Stage::Aborted => Stage::Aborted,
        };
        self.stage = next;
    }
}


/// The stage of a save of `count` statements after `k` steps in a row
/// succeeded (with `k` at most `count + 2`).
pub open spec fn success_stage(count: nat, k: nat) -> Stage {
    if k == 0 {
        Stage::AwaitBegin
    } else if k <= count {
        Stage::AwaitStatement((k - 1) as usize)
    } else if k == count + 1 {
        Stage::AwaitCommit
    } else {
        Stage::Done
    }
}

/// The number of reports among `outcomes` that a save of `count` statements
/// acts on: the begin, each statement and the commit; later ones change nothing.
pub open spec fn acted_on(count: nat, outcomes: Seq<bool>) -> nat {
    if outcomes.len() < count + 2 {
        outcomes.len()
    } else {
        count + 2
    }
}

/// Where a save of `count` statements stands after `outcomes` were
/// reported from its start, in order: as far as the successes took it, or
/// aborted if one of the steps it acted on failed.
pub proof fn lemma_save_stages(count: nat, outcomes: Seq<bool>)
    requires
        count <= usize::MAX,
    ensures
        run_stages(Stage::AwaitBegin, count, outcomes) == if all_succeeded(
            outcomes.take(acted_on(count, outcomes) as int),
        ) {
            success_stage(count, acted_on(count, outcomes))
        } else {
            Stage::Aborted
        },
    decreases outcomes.len(),
{
    if outcomes.len() == 0 {
        assert(outcomes.take(0) =~= outcomes);
    } else {
        let prev = outcomes.drop_last();
        lemma_save_stages(count, prev);
        let m = acted_on(count, outcomes);
        let pm = acted_on(count, prev);
        if prev.len() >= count + 2 {
            assert(outcomes.take(m as int) =~= prev.take(pm as int));
        } else {
            assert(prev.take(pm as int) =~= prev);
            assert(outcomes.take(m as int) =~= outcomes);
            assert(outcomes =~= prev.push(outcomes.last()));
            if all_succeeded(prev) {
                if outcomes.last() {
                    assert(all_succeeded(outcomes)) by {
                        assert forall|i: int| 0 <= i < outcomes.len() implies #[trigger] outcomes[i] by {
                            if i < prev.len() {
                                assert(prev[i] == outcomes[i]);
                            }
                        }
                    }
                } else {
                    assert(!outcomes[outcomes.len() - 1]);
                }
            } else {
                let j = choose|j: int| 0 <= j < prev.len() && !#[trigger] prev[j];
                assert(!outcomes[j]);
            }
        }
    }
}

/// A save commits only when it began and ran every statement successfully,
/// and it ends successfully only when the commit succeeded too.
pub proof fn lemma_commit_needs_success(count: nat, outcomes: Seq<bool>)
    requires
        count <= usize::MAX,
    ensures
        run_stages(Stage::AwaitBegin, count, outcomes) == Stage::AwaitCommit ==> outcomes.len() == count
            + 1 && all_succeeded(outcomes),
        run_stages(Stage::AwaitBegin, count, outcomes) == Stage::Done ==> outcomes.len() >= count + 2
            && all_succeeded(outcomes.take(count + 2 as int)),
{
    lemma_save_stages(count, outcomes);
    if outcomes.len() <= count + 1 {
        assert(outcomes.take(outcomes.len() as int) =~= outcomes);
    }
}

/// `k` successful outcomes in a row.
pub open spec fn successes(k: nat) -> Seq<bool> {
    Seq::new(k, |i: int| true)
}

/// When every step succeeds, a save of `count` statements begins, runs them
/// in order, commits, and is done after exactly `count + 2` reports.
pub proof fn lemma_all_succeed_completes(count: nat)
    requires
        count <= usize::MAX,
    ensures
        forall|k: nat|
            k <= count + 2 ==> #[trigger] run_stages(Stage::AwaitBegin, count, successes(k))
                == success_stage(count, k),
        run_stages(Stage::AwaitBegin, count, successes(count + 2)) == Stage::Done,
{
    assert forall|k: nat| k <= count + 2 implies #[trigger] run_stages(
        Stage::AwaitBegin,
        count,
        successes(k),
    ) == success_stage(count, k) by {
        let o = successes(k);
        lemma_save_stages(count, o);
        assert(o.take(k as int) =~= o);
    }
    let o = successes(count + 2);
    assert(run_stages(Stage::AwaitBegin, count, o) == success_stage(count, count + 2));
}

/// A failed step ends a save that has not finished: it is aborted and stays
/// so, whatever is reported afterwards.
pub proof fn lemma_failure_aborts(count: nat, outcomes: Seq<bool>)
    requires
        count <= usize::MAX,
        outcomes.len() <= count + 2,
        !all_succeeded(outcomes),
    ensures
        run_stages(Stage::AwaitBegin, count, outcomes) == Stage::Aborted,
{
    lemma_save_stages(count, outcomes);
    assert(outcomes.take(outcomes.len() as int) =~= outcomes);
}

} // verus!
