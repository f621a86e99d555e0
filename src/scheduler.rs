//! The decisions of a run after it is planned: which batch to send next, when to
//! stop, and when the announced keys are recorded. The caller performs each
//! action and reports back whether the webhook accepted the batch.

use crate::cache::{key_set, key_view, DedupCache, IdentityKey};
use crate::cup::Image;
use crate::pipeline::{
    candidates, fresh, fresh_pred, key_pair_of, plan_matches, RunPlan,
};
use vstd::prelude::*;
use vstd::string::*;

verus! {

/// The cron expression handed to the job scheduler: the configured six-field
/// pattern behind a leading seconds field of `0`.
pub fn schedule_expression(cron: &String) -> (r: String)
    ensures
        r@ == "0 "@ + cron@,
{
    let mut r = String::from_str("0 ");
    r.append(cron.as_str());
    r
}

/// What the caller does next.
#[derive(Debug, Clone, Copy, PartialEq, Eq, Structural)]
pub enum Action {
    /// Send the batch at this index.
    Send(usize),
    /// Every batch was accepted: record the run's keys.
    Commit,
    /// A batch was refused: stop without recording anything.
    Stop,
}

/// How far the delivery of a run's batches has come.
#[derive(Debug, Clone, Copy)]
pub struct Delivery {
    pub total: usize,
    pub delivered: usize,
    pub failed: bool,
}

impl Delivery {
    /// No more batches delivered than there are.
    pub open spec fn wf(self) -> bool {
        self.delivered <= self.total
    }

    /// Every batch was accepted.
    pub open spec fn complete(self) -> bool {
        !self.failed && self.delivered == self.total
    }

    /// The next action, as `next_action` computes it.
    pub open spec fn action_spec(self) -> Action {
        if self.failed {
            Action::Stop
        } else if self.delivered < self.total {
            Action::Send(self.delivered)
        } else {
            Action::Commit
        }
    }

    /// The state once the webhook answered `ok` for the batch being sent; a
    /// state that sends nothing stays as it is.
    pub open spec fn after(self, ok: bool) -> Delivery {
        if self.failed || self.delivered >= self.total {
            self
        } else if ok {
            Delivery { delivered: (self.delivered + 1) as usize, ..self }
        } else {
            Delivery { failed: true, ..self }
        }
    }

    /// The state after a sequence of answers.
    pub open spec fn after_all(self, answers: Seq<bool>) -> Delivery
        decreases answers.len(),
    {
        if answers.len() == 0 {
            self
        } else {
            self.after(answers[0]).after_all(answers.drop_first())
        }
    }

    /// The state before the first batch of `total` is sent.
    pub open spec fn new_spec(total: usize) -> Delivery {
        Delivery { total, delivered: 0, failed: false }
    }

    /// Nothing delivered yet out of `total` batches.
    pub fn new(total: usize) -> (r: Delivery)
        ensures
            r == Delivery::new_spec(total),
            r.wf(),
    {
        Delivery { total, delivered: 0, failed: false }
    }

    /// The next thing to do.
    pub fn next_action(&self) -> (a: Action)
        ensures
            a == self.action_spec(),
    {
        if self.failed {
            Action::Stop
        } else if self.delivered < self.total {
            Action::Send(self.delivered)
        } else {
            Action::Commit
        }
    }

    /// Takes note of the webhook's answer for the batch being sent.
    pub fn record(&mut self, ok: bool)
        requires
            old(self).wf(),
        ensures
            *final(self) == old(self).after(ok),
            final(self).wf(),
    {
        if !self.failed && self.delivered < self.total {
            if ok {
                self.delivered = self.delivered + 1;
            } else {
                self.failed = true;
            }
        }
    }
}

/// The cache after a run: with the run's keys when every batch was accepted,
/// unchanged otherwise.
pub open spec fn committed_view(
    cache: Set<(Seq<char>, Seq<char>)>,
    keys: Seq<IdentityKey>,
    d: Delivery,
) -> Set<(Seq<char>, Seq<char>)> {
    if d.complete() {
        cache.union(key_set(keys))
    } else {
        cache
    }
}

/// Records the run's keys, all of them, if and only if every batch was accepted.
pub fn commit_run(cache: &mut DedupCache, keys: &Vec<IdentityKey>, progress: &Delivery)
    requires
        old(cache).wf(),
    ensures
        final(cache).wf(),
        final(cache)@ == committed_view(old(cache)@, keys@, *progress),
{
    if !progress.failed && progress.delivered == progress.total {
        cache.insert_all(keys);
    }
}

/// A delivery that failed stays failed, whatever comes after.
pub proof fn lemma_failure_is_final(d: Delivery, answers: Seq<bool>)
    requires
        d.failed,
    ensures
        d.after_all(answers) == d,
    decreases answers.len(),
{
    if answers.len() > 0 {
        lemma_failure_is_final(d.after(answers[0]), answers.drop_first());
    }
}

proof fn lemma_refusal_fails(d: Delivery, answers: Seq<bool>, j: int)
    requires
        d.wf(),
        0 <= j < answers.len(),
        !answers[j],
        d.failed || d.delivered + j < d.total,
    ensures
        d.after_all(answers).failed,
    decreases answers.len(),
{
    let d1 = d.after(answers[0]);
    if j == 0 {
        lemma_failure_is_final(d1, answers.drop_first());
    } else if d.failed {
        lemma_failure_is_final(d, answers);
    } else {
        lemma_refusal_fails(d1, answers.drop_first(), j - 1);
    }
}

/// All or nothing: when the webhook refuses the k-th batch of a run (k ≥ 1),
/// none of the run's keys is recorded, not even those of the batches that were
/// accepted before it.
pub proof fn lemma_refused_batch_records_nothing(
    cache: Set<(Seq<char>, Seq<char>)>,
    keys: Seq<IdentityKey>,
    total: usize,
    answers: Seq<bool>,
    k: int,
)
    requires
        1 <= k <= total,
        k <= answers.len(),
        !answers[k - 1],
    ensures
        committed_view(cache, keys, Delivery { total, delivered: 0, failed: false }.after_all(answers))
            == cache,
{
    lemma_refusal_fails(Delivery { total, delivered: 0, failed: false }, answers, k - 1);
}

/// A webhook that accepts every remaining batch completes the delivery.
pub proof fn lemma_all_accepted(d: Delivery, answers: Seq<bool>)
    requires
        d.wf(),
        !d.failed,
        answers.len() == d.total - d.delivered,
        forall|i: int| 0 <= i < answers.len() ==> #[trigger] answers[i],
    ensures
        d.after_all(answers).complete(),
    decreases answers.len(),
{
    if answers.len() > 0 {
        assert(answers[0]);
        let rest = answers.drop_first();
        assert forall|i: int| 0 <= i < rest.len() implies #[trigger] rest[i] by {
            assert(answers[i + 1]);
        }
        lemma_all_accepted(d.after(answers[0]), rest);
    }
}

/// Running twice over the same snapshot, with a webhook that accepts every
/// batch of the first run, the second run announces nothing.
pub proof fn lemma_second_run_announces_nothing(
    images: Seq<Image>,
    cache: Set<(Seq<char>, Seq<char>)>,
    first: RunPlan,
    answers: Seq<bool>,
    second: RunPlan,
)
    requires
        plan_matches(first, images, cache),
        answers.len() == first.batches.len(),
        forall|i: int| 0 <= i < answers.len() ==> #[trigger] answers[i],
        plan_matches(
            second,
            images,
            committed_view(
                cache,
                first.keys@,
                Delivery::new_spec(first.batches.len()).after_all(answers),
            ),
        ),
    ensures
        second.keys@.len() == 0,
        second.batches@.len() == 0,
{
    lemma_all_accepted(Delivery::new_spec(first.batches.len()), answers);
    let c = candidates(images);
    let f = fresh(c, cache);
    let cache2 = cache.union(key_set(first.keys@));
    let f2 = fresh(c, cache2);
    if f2.len() > 0 {
        let x = f2[0];
        c.lemma_filter_pred(fresh_pred(cache2), 0);
        assert(f2.contains(x));
        c.lemma_filter_contains_rev(fresh_pred(cache2), x);
        let i = choose|i: int| 0 <= i < c.len() && c[i] == x;
        c.lemma_filter_contains(fresh_pred(cache), i);
        let jj = choose|jj: int| 0 <= jj < f.len() && f[jj] == x;
        let fm = f.map_values(|img: Image| key_pair_of(img));
        assert(fm[jj] == key_pair_of(x));
        assert(fm.contains(key_pair_of(x)));
        assert(key_set(first.keys@).contains(key_pair_of(x)));
        assert(false);
    }
    assert(second.keys@.map_values(|k: IdentityKey| key_view(k)).len() == 0);
}

} // verus!
