//! The epoch loop as a state machine.
//!
//! Training alternates work on real-valued buffers with decisions about what
//! comes next. The decisions live here: the driver hands out one action at a
//! time (evaluate the untrained network, train on a batch, evaluate after an
//! epoch, stop) and the caller performs it. At the start of every epoch the
//! driver draws a fresh order of the samples; the batches of that epoch are
//! consecutive slices of that order.

use vstd::prelude::*;
use vstd::seq_lib::*;
use rand::rngs::StdRng;
use rand::seq::SliceRandom;
use rand::SeedableRng;
use crate::batch::{batch_end, batch_end_of, batches_from};

verus! {

/// The random number generator of the `rand` crate that the driver keeps
/// between epochs. Nothing is known of its state.
#[verifier::external_type_specification]
#[verifier::external_body]
pub struct ExStdRng(rand::rngs::StdRng);

/// Calls `rand::SeedableRng::seed_from_u64` for `StdRng`: a generator
/// started from `seed`. Nothing is claimed of the generator.
#[verifier::external_body]
fn seeded_rng(seed: u64) -> (rng: StdRng) {
    StdRng::seed_from_u64(seed)
}

/// Calls `rand::seq::SliceRandom::shuffle` on the entries of `order`. The
/// shuffle only swaps entries of the slice, so afterwards `order` holds the
/// same entries, each as often as before; which arrangement comes out is left
/// open.
#[verifier::external_body]
fn shuffle_order(order: &mut Vec<usize>, rng: &mut StdRng)
    ensures
        final(order)@.to_multiset() == old(order)@.to_multiset(),
{
    order.shuffle(rng);
}

/// What a training run is made of.
#[derive(Clone, Copy, Debug, PartialEq, Eq, Structural)]
pub struct Schedule {
    /// Number of samples in the training set.
    pub samples: usize,
    /// Number of samples per batch; the last batch of an epoch may hold fewer.
    pub batch_size: usize,
    /// Number of passes over the training set.
    pub epochs: usize,
}

/// Number of epochs of a run when none is asked for.
pub const DEFAULT_EPOCHS: usize = 30;

/// Number of samples per batch when none is asked for.
pub const DEFAULT_BATCH_SIZE: usize = 10;

impl Schedule {
    /// The schedule over `samples` training samples with the number of epochs
    /// and the batch size that were asked for, and the defaults where none
    /// was.
    pub fn with_defaults(
        samples: usize,
        epochs: Option<usize>,
        batch_size: Option<usize>,
    ) -> (s: Schedule)
        ensures
            s.samples == samples,
            s.epochs == (match epochs {
                Some(e) => e,
                None => DEFAULT_EPOCHS,
            }),
            s.batch_size == (match batch_size {
                Some(b) => b,
                None => DEFAULT_BATCH_SIZE,
            }),
    {
        Schedule {
            samples,
            batch_size: match batch_size {
                Some(b) => b,
                None => DEFAULT_BATCH_SIZE,
            },
            epochs: match epochs {
                Some(e) => e,
                None => DEFAULT_EPOCHS,
            },
        }
    }
}

/// The stage a run is in.
#[derive(Clone, Copy, Debug, PartialEq, Eq, Structural)]
pub enum Phase {
    /// Nothing has been done; the untrained network is evaluated first.
    Baseline,
    /// An epoch is under way.
    Training,
    /// Every epoch has been trained and evaluated.
    Finished,
}

/// How far a run has come.
#[derive(Clone, Copy, Debug, PartialEq, Eq, Structural)]
pub struct Progress {
    pub phase: Phase,
    /// The epoch under way; the number of epochs once finished.
    pub epoch: usize,
    /// Position in the epoch's order at which the next batch begins.
    pub cursor: usize,
}

/// What the caller is asked to do next.
#[derive(Clone, Copy, Debug, PartialEq, Eq, Structural)]
pub enum Action {
    /// Evaluate the untrained network and report its accuracy.
    EvaluateBaseline,
    /// Train on the samples at positions `start..end` of the current order.
    Train { epoch: usize, start: usize, end: usize },
    /// Evaluate after the last batch of `epoch` and report its accuracy.
    EvaluateEpoch { epoch: usize },
    /// The run is over.
    Done,
}

/// The progress of a run that has not begun.
pub open spec fn initial_progress() -> Progress {
    Progress { phase: Phase::Baseline, epoch: 0, cursor: 0 }
}

/// The progress of a run that is over.
pub open spec fn final_progress(s: Schedule) -> Progress {
    Progress { phase: Phase::Finished, epoch: s.epochs, cursor: 0 }
}

/// Progress that a run over `s` can be in.
pub open spec fn valid_progress(s: Schedule, p: Progress) -> bool {
    match p.phase {
        Phase::Baseline => p == initial_progress(),
        Phase::Training => p.epoch < s.epochs && p.cursor <= s.samples,
        Phase::Finished => p == final_progress(s),
    }
}

/// The action that is due at progress `p`.
pub open spec fn action_at(s: Schedule, p: Progress) -> Action {
    match p.phase {
        Phase::Baseline => Action::EvaluateBaseline,
        Phase::Training => if p.cursor < s.samples {
            Action::Train {
                epoch: p.epoch,
                start: p.cursor,
                end: batch_end_of(p.cursor as int, s.batch_size as int, s.samples as int) as usize,
            }
        } else {
            Action::EvaluateEpoch { epoch: p.epoch }
        },
        Phase::Finished => Action::Done,
    }
}

/// Whether the step taken at progress `p` opens a new epoch, for which the
/// order of the samples is drawn afresh.
pub open spec fn opens_epoch(s: Schedule, p: Progress) -> bool {
    match p.phase {
        Phase::Baseline => s.epochs > 0,
        Phase::Training => p.cursor >= s.samples && p.epoch + 1 < s.epochs,
        Phase::Finished => false,
    }
}

/// The progress after the action due at `p` has been handed out.
pub open spec fn progress_after(s: Schedule, p: Progress) -> Progress {
    match p.phase {
        Phase::Baseline => if s.epochs > 0 {
            Progress { phase: Phase::Training, epoch: 0, cursor: 0 }
        } else {
            final_progress(s)
        },
        Phase::Training => if p.cursor < s.samples {
            Progress {
                phase: Phase::Training,
                epoch: p.epoch,
                cursor: batch_end_of(p.cursor as int, s.batch_size as int, s.samples as int) as usize,
            }
        } else if p.epoch + 1 < s.epochs {
            Progress { phase: Phase::Training, epoch: (p.epoch + 1) as usize, cursor: 0 }
        } else {
            final_progress(s)
        },
        Phase::Finished => p,
    }
}

/// `order` arranges the positions `0..n`: each occurs exactly once.
pub open spec fn is_permutation(order: Seq<usize>, n: int) -> bool {
    &&& order.len() == n
    &&& order.no_duplicates()
    &&& forall|k: int| 0 <= k < order.len() ==> order[k] < n
}

/// Rearranging a permutation gives a permutation.
pub proof fn lemma_rearranged_permutation(before: Seq<usize>, after: Seq<usize>, n: int)
    requires
        is_permutation(before, n),
        after.to_multiset() == before.to_multiset(),
    ensures
        is_permutation(after, n),
{
    broadcast use {to_multiset_len, to_multiset_contains};

    assert(after.len() == after.to_multiset().len());
    assert(before.len() == before.to_multiset().len());
    before.lemma_multiset_has_no_duplicates();
    after.lemma_multiset_has_no_duplicates_conv();
    assert forall|k: int| 0 <= k < after.len() implies after[k] < n by {
        assert(after.contains(after[k]));
        assert(after.to_multiset().count(after[k]) > 0);
        assert(before.to_multiset().count(after[k]) > 0);
        assert(before.contains(after[k]));
    }
}

/// The number of actions still to be handed out before `Done`.
pub open spec fn actions_left(s: Schedule, p: Progress) -> nat
    decreases
        (match p.phase {
            Phase::Baseline => 2int,
            Phase::Training => 1int,
            Phase::Finished => 0int,
        }),
        s.epochs - p.epoch,
        s.samples - p.cursor,
    when s.batch_size > 0 && valid_progress(s, p)
{
    match p.phase {
        Phase::Finished => 0,
        _ => 1 + actions_left(s, progress_after(s, p)),
    }
}

/// Drives a training run: decides, step by step, what is done next.
pub struct EpochDriver {
    schedule: Schedule,
    progress: Progress,
    order: Vec<usize>,
    rng: StdRng,
}

impl EpochDriver {
    /// What the run is made of.
    pub closed spec fn spec_schedule(&self) -> Schedule {
        self.schedule
    }

    /// How far the run has come.
    pub closed spec fn spec_progress(&self) -> Progress {
        self.progress
    }

    /// The order in which the current epoch visits the samples.
    pub closed spec fn spec_order(&self) -> Seq<usize> {
        self.order@
    }

    /// The invariant of the driver: batches are not empty, the progress is one
    /// the schedule allows, and the order arranges all samples.
    pub open spec fn wf(&self) -> bool {
        &&& self.spec_schedule().batch_size > 0
        &&& valid_progress(self.spec_schedule(), self.spec_progress())
        &&& is_permutation(self.spec_order(), self.spec_schedule().samples as int)
    }

    /// Starts a run over `samples` training samples. The source of the
    /// shuffles is started from `seed`. Until the first epoch opens the order
    /// is the identity.
    pub fn new(schedule: Schedule, seed: u64) -> (driver: EpochDriver)
        requires
            schedule.batch_size > 0,
        ensures
            driver.wf(),
            driver.spec_schedule() == schedule,
            driver.spec_progress() == initial_progress(),
            forall|k: int| 0 <= k < schedule.samples ==> driver.spec_order()[k] == k,
    {
        let samples: usize = schedule.samples;
        let mut order: Vec<usize> = Vec::new();
        let mut k: usize = 0;
        while k < samples
            invariant
                k <= samples,
                order@.len() == k,
                forall|j: int| 0 <= j < k ==> order@[j] == j,
            decreases samples - k,
        {
            order.push(k);
            k += 1;
        }
        EpochDriver {
            schedule,
            progress: Progress { phase: Phase::Baseline, epoch: 0, cursor: 0 },
            order,
            rng: seeded_rng(seed),
        }
    }

    /// What the run is made of.
    pub fn schedule(&self) -> (s: Schedule)
        ensures
            s == self.spec_schedule(),
    {
        self.schedule
    }

    /// How far the run has come.
    pub fn progress(&self) -> (p: Progress)
        ensures
            p == self.spec_progress(),
    {
        self.progress
    }

    /// The order in which the current epoch visits the samples: position `k`
    /// of the epoch trains on sample `order[k]`.
    pub fn order(&self) -> (order: &Vec<usize>)
        ensures
            order@ == self.spec_order(),
    {
        &self.order
    }

    /// Hands out the action that is due and moves on. When the step opens a
    /// new epoch the order is shuffled; otherwise it stays as it is, so the
    /// batches of one epoch are slices of one arrangement.
    pub fn next(&mut self) -> (action: Action)
        requires
            old(self).wf(),
        ensures
            final(self).wf(),
            final(self).spec_schedule() == old(self).spec_schedule(),
            action == action_at(old(self).spec_schedule(), old(self).spec_progress()),
            final(self).spec_progress() == progress_after(
                old(self).spec_schedule(),
                old(self).spec_progress(),
            ),
            final(self).spec_order().to_multiset() == old(self).spec_order().to_multiset(),
            !opens_epoch(old(self).spec_schedule(), old(self).spec_progress())
                ==> final(self).spec_order() == old(self).spec_order(),
    {
        let s = self.schedule;
        let p = self.progress;
        match p.phase {
            Phase::Baseline => {
                if s.epochs > 0 {
                    self.open_epoch(0);
                } else {
                    self.progress = Progress { phase: Phase::Finished, epoch: s.epochs, cursor: 0 };
                }
                Action::EvaluateBaseline
            },
            Phase::Training => {
                if p.cursor < s.samples {
                    let end = batch_end(p.cursor, s.batch_size, s.samples);
                    self.progress = Progress { phase: Phase::Training, epoch: p.epoch, cursor: end };
                    Action::Train { epoch: p.epoch, start: p.cursor, end }
                } else {
                    if p.epoch + 1 < s.epochs {
                        self.open_epoch(p.epoch + 1);
                    } else {
                        self.progress = Progress {
                            phase: Phase::Finished,
                            epoch: s.epochs,
                            cursor: 0,
                        };
                    }
                    Action::EvaluateEpoch { epoch: p.epoch }
                }
            },
            Phase::Finished => Action::Done,
        }
    }

    /// Shuffles the order and places the cursor at the start of `epoch`.
    fn open_epoch(&mut self, epoch: usize)
        requires
            old(self).schedule.batch_size > 0,
            is_permutation(old(self).order@, old(self).schedule.samples as int),
            epoch < old(self).schedule.epochs,
        ensures
            final(self).wf(),
            final(self).schedule == old(self).schedule,
            final(self).progress == (Progress { phase: Phase::Training, epoch, cursor: 0 }),
            final(self).order@.to_multiset() == old(self).order@.to_multiset(),
    {
        let ghost before = self.order@;
        shuffle_order(&mut self.order, &mut self.rng);
        proof {
            lemma_rearranged_permutation(before, self.order@, self.schedule.samples as int);
        }
        self.progress = Progress { phase: Phase::Training, epoch, cursor: 0 };
    }
}

/// Every step but the last brings the run closer to its end: the number of
/// actions left falls by one, so a run hands out finitely many actions and
/// then `Done`.
pub proof fn lemma_run_advances(s: Schedule, p: Progress)
    requires
        s.batch_size > 0,
        valid_progress(s, p),
    ensures
        valid_progress(s, progress_after(s, p)),
        p.phase != Phase::Finished ==> actions_left(s, progress_after(s, p)) + 1 == actions_left(
            s,
            p,
        ),
        p.phase == Phase::Finished <==> action_at(s, p) == Action::Done,
{
}

/// A batch that the driver hands out is never empty, never longer than the
/// batch size, lies within the training set, and begins at the cursor, which
/// it moves to its own end: the batches of an epoch follow one another
/// without gap or overlap.
pub proof fn lemma_train_action(s: Schedule, p: Progress)
    requires
        s.batch_size > 0,
        valid_progress(s, p),
        p.phase == Phase::Training,
        p.cursor < s.samples,
    ensures
        action_at(s, p) matches Action::Train { epoch, start, end } && epoch == p.epoch && start
            == p.cursor && start < end <= s.samples && end - start <= s.batch_size && (end
            - start < s.batch_size ==> end == s.samples) && progress_after(s, p).cursor == end
            && progress_after(s, p).epoch == p.epoch,
{
}

/// The batches that the driver hands out in an epoch are the batches of the
/// training set: the one due at the cursor is the first of those that cover
/// the positions from the cursor on, and the cursor moves to where the
/// others begin.
pub proof fn lemma_train_follows_batches(s: Schedule, p: Progress)
    requires
        s.batch_size > 0,
        valid_progress(s, p),
        p.phase == Phase::Training,
        p.cursor < s.samples,
    ensures
        ({
            let due = batches_from(p.cursor as int, s.batch_size as int, s.samples as int);
            let after = batches_from(
                progress_after(s, p).cursor as int,
                s.batch_size as int,
                s.samples as int,
            );
            &&& due.len() > 0
            &&& action_at(s, p) == (Action::Train {
                epoch: p.epoch,
                start: due[0].0 as usize,
                end: due[0].1 as usize,
            })
            &&& after == due.drop_first()
        }),
{
    let due = batches_from(p.cursor as int, s.batch_size as int, s.samples as int);
    let end = batch_end_of(p.cursor as int, s.batch_size as int, s.samples as int);
    let after = batches_from(end, s.batch_size as int, s.samples as int);
    assert(due =~= seq![(p.cursor as int, end)] + after);
    assert(after =~= due.drop_first());
}

} // verus!
