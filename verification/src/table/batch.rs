//! Keeping count while the files of a selection are fetched: which may
//! start, how many are under way, and how each one ended.

use crate::args::jump_cpg0016::ConfigError;
use crate::card::jump_cpg0016::{Attempt, Status, Tally, MAX_RETRIES};
use vstd::prelude::*;

verus! {

/// Where the fetch of one record's file stands.
#[derive(Clone, Copy, Debug, PartialEq, Eq, Structural)]
pub enum Slot {
    /// Not begun.
    Waiting,
    /// Under way.
    Running,
    /// Ended with the file written.
    Succeeded,
    /// Ended without the file.
    Failed,
}

/// What the caller does next for the batch.
#[derive(Clone, Copy, Debug, PartialEq, Eq, Structural)]
pub enum Turn {
    /// Begin the fetch of the record at this position; it now counts as
    /// under way.
    Start(usize),
    /// Nothing may begin: wait until a fetch that is under way has ended.
    Wait,
    /// Every record has ended.
    Done,
}

/// How many of `slots` stand as `kind`.
pub open spec fn count(slots: Seq<Slot>, kind: Slot) -> nat
    decreases slots.len(),
{
    if slots.len() == 0 {
        0
    } else {
        count(slots.drop_last(), kind) + if slots.last() == kind {
            1nat
        } else {
            0nat
        }
    }
}

/// The mathematical value of a [`Batch`]: the bound on simultaneous
/// fetches and the standing of each record, in the order of the selection.
pub struct Schedule {
    pub limit: nat,
    pub slots: Seq<Slot>,
}

impl Schedule {
    /// A batch of `total` records of which none has begun.
    pub open spec fn fresh(total: nat, limit: nat) -> Schedule {
        Schedule { limit, slots: Seq::new(total, |i: int| Slot::Waiting) }
    }

    /// The number of fetches under way.
    pub open spec fn in_flight(self) -> nat {
        count(self.slots, Slot::Running)
    }

    /// The number of fetches that ended with the file written.
    pub open spec fn succeeded(self) -> nat {
        count(self.slots, Slot::Succeeded)
    }

    /// The number of fetches that ended without the file.
    pub open spec fn failed(self) -> nat {
        count(self.slots, Slot::Failed)
    }

    /// The number of records whose fetch has begun, ended or not.
    pub open spec fn started(self) -> nat {
        (self.slots.len() - count(self.slots, Slot::Waiting)) as nat
    }

    /// The bound is at least one and is kept; records begin in the order
    /// of the selection, so those that wait are the last ones.
    pub open spec fn wf(self) -> bool {
        &&& self.limit >= 1
        &&& self.in_flight() <= self.limit
        &&& forall|i: int|
            0 <= i < self.slots.len() ==> (#[trigger] self.slots[i] == Slot::Waiting <==> i
                >= self.started())
    }

    /// What is due: the next waiting record may begin while fewer than
    /// `limit` are under way; otherwise the caller waits for one to end;
    /// when none waits and none is under way, the batch is done.
    pub open spec fn turn(self) -> Turn {
        if self.in_flight() < self.limit && self.started() < self.slots.len() {
            Turn::Start(self.started() as usize)
        } else if self.in_flight() > 0 {
            Turn::Wait
        } else {
            Turn::Done
        }
    }

    /// The batch after the caller was told what is due: a record that was
    /// told to begin is under way, nothing else changes.
    pub open spec fn after_turn(self) -> Schedule {
        match self.turn() {
            Turn::Start(i) => Schedule { slots: self.slots.update(i as int, Slot::Running), ..self },
            _ => self,
        }
    }

    /// The batch after the fetch at `index` has ended, with the file
    /// written or not. Only a fetch that is under way can end; the
    /// standing of every other record stays as it is.
    pub open spec fn after_finish(self, index: int, stored: bool) -> Schedule {
        if 0 <= index < self.slots.len() && self.slots[index] == Slot::Running {
            Schedule {
                slots: self.slots.update(
                    index,
                    if stored {
                        Slot::Succeeded
                    } else {
                        Slot::Failed
                    },
                ),
                ..self
            }
        } else {
            self
        }
    }
}

/// Changing one slot moves one unit of count from its old standing to its
/// new one.
pub proof fn lemma_count_update(slots: Seq<Slot>, i: int, to: Slot, kind: Slot)
    requires
        0 <= i < slots.len(),
    ensures
        count(slots.update(i, to), kind) + (if slots[i] == kind {
            1nat
        } else {
            0nat
        }) == count(slots, kind) + (if to == kind {
            1nat
        } else {
            0nat
        }),
    decreases slots.len(),
{
    let changed = slots.update(i, to);
    if i == slots.len() - 1 {
        assert(changed.drop_last() =~= slots.drop_last());
    } else {
        assert(changed.drop_last() =~= slots.drop_last().update(i, to));
        lemma_count_update(slots.drop_last(), i, to, kind);
    }
}

/// Every slot has exactly one standing, so the four counts add up to the
/// number of slots.
pub proof fn lemma_counts_add_up(slots: Seq<Slot>)
    ensures
        count(slots, Slot::Waiting) + count(slots, Slot::Running) + count(slots, Slot::Succeeded)
            + count(slots, Slot::Failed) == slots.len(),
    decreases slots.len(),
{
    if slots.len() > 0 {
        lemma_counts_add_up(slots.drop_last());
    }
}

/// A standing that is counted zero times is the standing of no slot.
pub proof fn lemma_count_zero(slots: Seq<Slot>, kind: Slot)
    requires
        count(slots, kind) == 0,
    ensures
        forall|i: int| 0 <= i < slots.len() ==> slots[i] != kind,
    decreases slots.len(),
{
    if slots.len() > 0 {
        lemma_count_zero(slots.drop_last(), kind);
        assert forall|i: int| 0 <= i < slots.len() implies slots[i] != kind by {
            if i < slots.len() - 1 {
                assert(slots.drop_last()[i] == slots[i]);
            }
        }
    }
}

/// In a batch of which nothing has begun, every slot waits.
pub proof fn lemma_count_fresh(total: nat, kind: Slot)
    ensures
        count(Seq::new(total, |i: int| Slot::Waiting), kind) == if kind == Slot::Waiting {
            total
        } else {
            0
        },
    decreases total,
{
    let slots = Seq::new(total, |i: int| Slot::Waiting);
    if total > 0 {
        assert(slots.drop_last() =~= Seq::new((total - 1) as nat, |i: int| Slot::Waiting));
        lemma_count_fresh((total - 1) as nat, kind);
    }
}

/// A batch of which nothing has begun is well-formed, whatever its size,
/// when its bound is at least one.
pub proof fn lemma_fresh_wf(total: nat, limit: nat)
    requires
        limit >= 1,
    ensures
        Schedule::fresh(total, limit).wf(),
        Schedule::fresh(total, limit).in_flight() == 0,
{
    lemma_count_fresh(total, Slot::Waiting);
    lemma_count_fresh(total, Slot::Running);
}

/// The bound on simultaneous fetches holds in every state that a batch
/// can reach: telling what is due keeps it, and so does the end of any
/// fetch, whichever it is and however it ended.
pub proof fn lemma_bound_kept(s: Schedule, index: int, stored: bool)
    requires
        s.wf(),
    ensures
        s.in_flight() <= s.limit,
        s.after_turn().wf(),
        s.after_turn().in_flight() <= s.limit,
        s.after_finish(index, stored).wf(),
        s.after_finish(index, stored).in_flight() <= s.limit,
{
    lemma_counts_add_up(s.slots);
    match s.turn() {
        Turn::Start(i) => {
            lemma_count_update(s.slots, i as int, Slot::Running, Slot::Waiting);
            lemma_count_update(s.slots, i as int, Slot::Running, Slot::Running);
        },
        _ => {},
    }
    if 0 <= index < s.slots.len() && s.slots[index] == Slot::Running {
        let to = if stored {
            Slot::Succeeded
        } else {
            Slot::Failed
        };
        lemma_count_update(s.slots, index, to, Slot::Waiting);
        lemma_count_update(s.slots, index, to, Slot::Running);
    }
}

/// The end of one fetch touches no other record: every other slot stands
/// as before, and the counts of written and missing files move by that
/// one record at most.
pub proof fn lemma_finish_is_isolated(s: Schedule, index: int, stored: bool)
    ensures
        s.after_finish(index, stored).slots.len() == s.slots.len(),
        forall|j: int|
            0 <= j < s.slots.len() && j != index ==> s.after_finish(index, stored).slots[j]
                == s.slots[j],
        s.after_finish(index, stored) != s ==> {
            &&& s.after_finish(index, stored).succeeded() == s.succeeded() + if stored {
                1nat
            } else {
                0nat
            }
            &&& s.after_finish(index, stored).failed() == s.failed() + if stored {
                0nat
            } else {
                1nat
            }
        },
{
    if 0 <= index < s.slots.len() && s.slots[index] == Slot::Running {
        let to = if stored {
            Slot::Succeeded
        } else {
            Slot::Failed
        };
        lemma_count_update(s.slots, index, to, Slot::Succeeded);
        lemma_count_update(s.slots, index, to, Slot::Failed);
    }
}

/// When the batch is done, every record has ended, and the files written
/// and the files missing add up to the number of records.
pub proof fn lemma_done_accounts_for_all(s: Schedule)
    requires
        s.wf(),
        s.turn() == Turn::Done,
    ensures
        s.succeeded() + s.failed() == s.slots.len(),
        forall|i: int|
            0 <= i < s.slots.len() ==> s.slots[i] == Slot::Succeeded || s.slots[i]
                == Slot::Failed,
{
    lemma_counts_add_up(s.slots);
    lemma_count_zero(s.slots, Slot::Running);
    lemma_count_zero(s.slots, Slot::Waiting);
}

/// One thing that happens to a batch while it runs.
#[derive(Clone, Copy, Debug, PartialEq, Eq, Structural)]
pub enum Move {
    /// The caller asks what is due and does it.
    Ask,
    /// The fetch of the record at this position has ended, with the file
    /// written or not.
    End(usize, bool),
}

impl Schedule {
    /// The batch after one move.
    pub open spec fn after_move(self, m: Move) -> Schedule {
        match m {
            Move::Ask => self.after_turn(),
            Move::End(index, stored) => self.after_finish(index as int, stored),
        }
    }

    /// The batch after all of `moves`, in their order.
    pub open spec fn after_moves(self, moves: Seq<Move>) -> Schedule
        decreases moves.len(),
    {
        if moves.len() == 0 {
            self
        } else {
            self.after_moves(moves.drop_last()).after_move(moves.last())
        }
    }
}

/// Whether every end that `moves` report for a record says of its file
/// what `outcome` says of that record.
pub open spec fn follows(moves: Seq<Move>, outcome: Seq<bool>) -> bool {
    forall|k: int|
        0 <= k < moves.len() ==> (#[trigger] moves[k] matches Move::End(index, stored) ==> index
            < outcome.len() ==> stored == outcome[index as int])
}

/// How many of the records have their file, by `outcome`.
pub open spec fn wins(outcome: Seq<bool>) -> nat
    decreases outcome.len(),
{
    if outcome.len() == 0 {
        0
    } else {
        wins(outcome.drop_last()) + if outcome.last() {
            1nat
        } else {
            0nat
        }
    }
}

/// Whether a fetch that makes the attempts `tries`, as far as it needs
/// them, ends with the file written.
pub open spec fn fetched(tries: Seq<Attempt>) -> bool {
    Tally::fresh().after_all(tries).status == Status::Done
}

/// Throughout a run the batch stays well-formed, and a record that has
/// ended stands as its own outcome says, whatever happened to the others.
pub proof fn lemma_run_keeps_outcomes(total: nat, limit: nat, moves: Seq<Move>, outcome: Seq<bool>)
    requires
        limit >= 1,
        outcome.len() == total,
        follows(moves, outcome),
    ensures
        Schedule::fresh(total, limit).after_moves(moves).wf(),
        Schedule::fresh(total, limit).after_moves(moves).limit == limit,
        Schedule::fresh(total, limit).after_moves(moves).slots.len() == total,
        forall|i: int|
            0 <= i < total ==> {
                let slot = #[trigger] Schedule::fresh(total, limit).after_moves(moves).slots[i];
                &&& slot == Slot::Succeeded ==> outcome[i]
                &&& slot == Slot::Failed ==> !outcome[i]
            },
    decreases moves.len(),
{
    if moves.len() == 0 {
        lemma_fresh_wf(total, limit);
    } else {
        let before = Schedule::fresh(total, limit).after_moves(moves.drop_last());
        assert(follows(moves.drop_last(), outcome)) by {
            assert forall|k: int| 0 <= k < moves.drop_last().len() implies (
            #[trigger] moves.drop_last()[k] matches Move::End(index, stored) ==> index
                < outcome.len() ==> stored == outcome[index as int]) by {
                assert(moves.drop_last()[k] == moves[k]);
            }
        }
        lemma_run_keeps_outcomes(total, limit, moves.drop_last(), outcome);
        match moves.last() {
            Move::Ask => {
                lemma_bound_kept(before, 0, true);
            },
            Move::End(index, stored) => {
                lemma_bound_kept(before, index as int, stored);
                assert(moves[moves.len() - 1] == moves.last());
            },
        }
    }
}

/// Where each slot stands as its outcome says, the written files are as
/// many as the outcomes that say so.
pub proof fn lemma_count_by_outcome(slots: Seq<Slot>, outcome: Seq<bool>)
    requires
        slots.len() == outcome.len(),
        forall|i: int|
            0 <= i < slots.len() ==> #[trigger] slots[i] == (if outcome[i] {
                Slot::Succeeded
            } else {
                Slot::Failed
            }),
    ensures
        count(slots, Slot::Succeeded) == wins(outcome),
        count(slots, Slot::Failed) == outcome.len() - wins(outcome),
    decreases slots.len(),
{
    if slots.len() > 0 {
        assert forall|i: int| 0 <= i < slots.len() - 1 implies #[trigger] slots.drop_last()[i] == (
        if outcome.drop_last()[i] {
            Slot::Succeeded
        } else {
            Slot::Failed
        }) by {
            assert(slots.drop_last()[i] == slots[i]);
        }
        lemma_count_by_outcome(slots.drop_last(), outcome.drop_last());
    }
}

/// A whole run, from the first move to the moment the batch is done,
/// gives every record the standing that its own fetch earned: the batch
/// reports as many written files as fetches ended well, and as many
/// missing files as fetches failed, in whatever order and however
/// interleaved the fetches ran.
pub proof fn lemma_run_reports_each_outcome(
    total: nat,
    limit: nat,
    moves: Seq<Move>,
    outcome: Seq<bool>,
)
    requires
        limit >= 1,
        outcome.len() == total,
        follows(moves, outcome),
        Schedule::fresh(total, limit).after_moves(moves).turn() == Turn::Done,
    ensures
        Schedule::fresh(total, limit).after_moves(moves).succeeded() == wins(outcome),
        Schedule::fresh(total, limit).after_moves(moves).failed() == total - wins(outcome),
        forall|i: int|
            0 <= i < total ==> #[trigger] Schedule::fresh(total, limit).after_moves(moves).slots[i]
                == (if outcome[i] {
                Slot::Succeeded
            } else {
                Slot::Failed
            }),
{
    let end = Schedule::fresh(total, limit).after_moves(moves);
    lemma_run_keeps_outcomes(total, limit, moves, outcome);
    lemma_done_accounts_for_all(end);
    lemma_count_by_outcome(end.slots, outcome);
}

/// When all records but one have their file, the files are one fewer
/// than the records.
pub proof fn lemma_wins_all_but_one(outcome: Seq<bool>, bad: int)
    requires
        0 <= bad < outcome.len(),
        forall|i: int| 0 <= i < outcome.len() ==> #[trigger] outcome[i] == (i != bad),
    ensures
        wins(outcome) == outcome.len() - 1,
    decreases outcome.len(),
{
    let rest = outcome.drop_last();
    if bad == outcome.len() - 1 {
        lemma_wins_all(rest);
    } else {
        lemma_wins_all_but_one(rest, bad);
    }
}

/// When every record has its file, the files are as many as the records.
pub proof fn lemma_wins_all(outcome: Seq<bool>)
    requires
        forall|i: int| 0 <= i < outcome.len() ==> #[trigger] outcome[i],
    ensures
        wins(outcome) == outcome.len(),
    decreases outcome.len(),
{
    if outcome.len() > 0 {
        lemma_wins_all(outcome.drop_last());
    }
}

/// A fetch whose first attempt stores the file has the file, whatever
/// might have come after.
pub proof fn lemma_fetched_at_once(tries: Seq<Attempt>)
    requires
        tries.len() >= 1,
        tries[0] == Attempt::Stored,
    ensures
        fetched(tries),
        Tally::fresh().after_all(tries).attempts == 1,
    decreases tries.len(),
{
    if tries.len() > 1 {
        lemma_fetched_at_once(tries.drop_last());
    } else {
        assert(Tally::fresh().after_all(tries.drop_last()) == Tally::fresh());
    }
}

/// A fetch whose attempts all fail, as many as are allowed, has no file.
pub proof fn lemma_not_fetched_when_all_fail(tries: Seq<Attempt>)
    requires
        tries.len() >= MAX_RETRIES,
        forall|k: int| 0 <= k < MAX_RETRIES ==> (#[trigger] tries[k]).failed(),
    ensures
        !fetched(tries),
{
    crate::card::jump_cpg0016::lemma_exhausted(tries);
}

/// One record that always fails does not touch the others: in a batch in
/// which the fetch of the record at `bad` fails at every attempt and the
/// fetch of every other record stores its file at the first, a run to the
/// end reports one missing file and a written file for every other
/// record, and it is the record at `bad` that stands as failed.
pub proof fn lemma_one_failing_record(
    total: nat,
    limit: nat,
    moves: Seq<Move>,
    tries: Seq<Seq<Attempt>>,
    bad: int,
)
    requires
        limit >= 1,
        tries.len() == total,
        0 <= bad < total,
        tries[bad].len() >= MAX_RETRIES,
        forall|k: int| 0 <= k < MAX_RETRIES ==> (#[trigger] tries[bad][k]).failed(),
        forall|i: int|
            0 <= i < total && i != bad ==> (#[trigger] tries[i]).len() >= 1 && tries[i][0]
                == Attempt::Stored,
        follows(moves, Seq::new(total, |i: int| fetched(tries[i]))),
        Schedule::fresh(total, limit).after_moves(moves).turn() == Turn::Done,
    ensures
        Schedule::fresh(total, limit).after_moves(moves).succeeded() == total - 1,
        Schedule::fresh(total, limit).after_moves(moves).failed() == 1,
        forall|i: int|
            0 <= i < total ==> #[trigger] Schedule::fresh(total, limit).after_moves(moves).slots[i]
                == (if i == bad {
                Slot::Failed
            } else {
                Slot::Succeeded
            }),
{
    let outcome = Seq::new(total, |i: int| fetched(tries[i]));
    assert forall|i: int| 0 <= i < total implies #[trigger] outcome[i] == (i != bad) by {
        if i == bad {
            lemma_not_fetched_when_all_fail(tries[bad]);
        } else {
            lemma_fetched_at_once(tries[i]);
        }
    }
    lemma_wins_all_but_one(outcome, bad);
    lemma_run_reports_each_outcome(total, limit, moves, outcome);
}

/// The fetches of a selection: at most `limit` of them under way at any
/// time, each one ending on its own account.
#[derive(Debug)]
pub struct Batch {
    output: String,
    limit: usize,
    slots: Vec<Slot>,
    next: usize,
    running: usize,
    succeeded: usize,
    failed: usize,
}

impl View for Batch {
    type V = Schedule;

    closed spec fn view(&self) -> Schedule {
        Schedule { limit: self.limit as nat, slots: self.slots@ }
    }
}

impl Batch {
    /// The counts that are kept agree with the slots, and the schedule is
    /// well-formed.
    pub closed spec fn wf(&self) -> bool {
        &&& self@.wf()
        &&& self.next == self@.started()
        &&& self.running == self@.in_flight()
        &&& self.succeeded == self@.succeeded()
        &&& self.failed == self@.failed()
    }

    /// The directory the files are written to.
    pub closed spec fn spec_output(&self) -> Seq<char> {
        self.output@
    }

    /// A well-formed batch has a well-formed schedule: in particular no
    /// more fetches are under way than the bound allows.
    pub proof fn lemma_schedule_wf(&self)
        requires
            self.wf(),
        ensures
            self@.wf(),
            self@.in_flight() <= self@.limit,
    {
    }

    /// A batch of `total` records, none begun, of which at most `limit`
    /// are fetched at the same time. A bound of zero is turned down.
    pub fn new(output: String, total: usize, limit: usize) -> (made: Result<Batch, ConfigError>)
        ensures
            match made {
                Ok(batch) => {
                    &&& limit >= 1
                    &&& batch.wf()
                    &&& batch@ == Schedule::fresh(total as nat, limit as nat)
                    &&& batch.spec_output() == output@
                },
                Err(e) => limit == 0 && e == ConfigError::NoThreads,
            },
    {
        if limit == 0 {
            return Err(ConfigError::NoThreads);
        }
        let mut slots: Vec<Slot> = Vec::new();
        let mut i: usize = 0;
        while i < total
            invariant
                i <= total,
                slots@ =~= Seq::new(i as nat, |k: int| Slot::Waiting),
            decreases total - i,
        {
            slots.push(Slot::Waiting);
            i += 1;
        }
        proof {
            lemma_count_fresh(total as nat, Slot::Waiting);
            lemma_count_fresh(total as nat, Slot::Running);
            lemma_count_fresh(total as nat, Slot::Succeeded);
            lemma_count_fresh(total as nat, Slot::Failed);
        }
        Ok(Batch { output, limit, slots, next: 0, running: 0, succeeded: 0, failed: 0 })
    }

    /// The directory the files are written to.
    pub fn output(&self) -> (dir: &str)
        ensures
            dir@ == self.spec_output(),
    {
        self.output.as_str()
    }

    /// The bound on simultaneous fetches.
    pub fn limit(&self) -> (limit: usize)
        ensures
            limit == self@.limit,
    {
        self.limit
    }

    /// The number of records in the batch.
    pub fn total(&self) -> (total: usize)
        ensures
            total == self@.slots.len(),
    {
        self.slots.len()
    }

    /// The number of fetches under way; never more than the bound.
    pub fn in_flight(&self) -> (n: usize)
        requires
            self.wf(),
        ensures
            n == self@.in_flight(),
            n <= self@.limit,
    {
        self.running
    }

    /// The number of fetches that ended with the file written.
    pub fn succeeded(&self) -> (n: usize)
        requires
            self.wf(),
        ensures
            n == self@.succeeded(),
    {
        self.succeeded
    }

    /// The number of fetches that ended without the file.
    pub fn failed(&self) -> (n: usize)
        requires
            self.wf(),
        ensures
            n == self@.failed(),
    {
        self.failed
    }

    /// The standing of the record at `index`, if there is such a record.
    pub fn slot(&self, index: usize) -> (slot: Option<Slot>)
        ensures
            slot == (if index < self@.slots.len() {
                Some(self@.slots[index as int])
            } else {
                None
            }),
    {
        if index < self.slots.len() {
            Some(self.slots[index])
        } else {
            None
        }
    }

    /// Says what is due and takes note of it: see [`Schedule::turn`]. A
    /// record that is told to begin counts as under way from now on.
    pub fn next_turn(&mut self) -> (turn: Turn)
        requires
            old(self).wf(),
        ensures
            final(self).wf(),
            turn == old(self)@.turn(),
            final(self)@ == old(self)@.after_turn(),
            final(self).spec_output() == old(self).spec_output(),
    {
        proof {
            lemma_counts_add_up(self.slots@);
        }
        if self.running < self.limit && self.next < self.slots.len() {
            let index: usize = self.next;
            proof {
                lemma_count_update(self.slots@, index as int, Slot::Running, Slot::Waiting);
                lemma_count_update(self.slots@, index as int, Slot::Running, Slot::Running);
                lemma_count_update(self.slots@, index as int, Slot::Running, Slot::Succeeded);
                lemma_count_update(self.slots@, index as int, Slot::Running, Slot::Failed);
            }
            self.slots.set(index, Slot::Running);
            self.next = index + 1;
            self.running = self.running + 1;
            Turn::Start(index)
        } else if self.running > 0 {
            Turn::Wait
        } else {
            Turn::Done
        }
    }

    /// Takes note that the fetch at `index` has ended, with the file
    /// written (`stored`) or not, and says whether the note was taken.
    /// It is taken only for a fetch that is under way; no other record is
    /// touched either way.
    pub fn finish(&mut self, index: usize, stored: bool) -> (taken: bool)
        requires
            old(self).wf(),
        ensures
            final(self).wf(),
            taken == (index < old(self)@.slots.len() && old(self)@.slots[index as int]
                == Slot::Running),
            final(self)@ == old(self)@.after_finish(index as int, stored),
            final(self).spec_output() == old(self).spec_output(),
    {
        if index >= self.slots.len() {
            return false;
        }
        match self.slots[index] {
            Slot::Running => {},
            _ => {
                return false;
            },
        }
        let to = if stored {
            Slot::Succeeded
        } else {
            Slot::Failed
        };
        proof {
            lemma_counts_add_up(self.slots@);
            lemma_count_update(self.slots@, index as int, to, Slot::Waiting);
            lemma_count_update(self.slots@, index as int, to, Slot::Running);
            lemma_count_update(self.slots@, index as int, to, Slot::Succeeded);
            lemma_count_update(self.slots@, index as int, to, Slot::Failed);
            lemma_counts_add_up(self.slots@.update(index as int, to));
        }
        self.slots.set(index, to);
        self.running = self.running - 1;
        if stored {
            self.succeeded = self.succeeded + 1;
        } else {
            self.failed = self.failed + 1;
        }
        true
    }
}

} // verus!
