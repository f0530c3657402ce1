use vstd::prelude::*;

use vstd::arithmetic::div_mod::{lemma_fundamental_div_mod, lemma_fundamental_div_mod_converse};

use crate::error::NetError;

verus! {

/// A contiguous run of examples `start..end` that is trained on together.
#[derive(Debug, Clone, Copy, PartialEq, Eq, Structural)]
pub struct Batch {
    pub start: usize,
    pub end: usize,
}

/// The full mini-batches of a data set of `examples` items: batch `k` holds
/// the examples `k * size .. (k + 1) * size`, and the items after the last
/// full batch are left out.
pub open spec fn batches_of(examples: nat, size: nat) -> Seq<Batch>
    recommends
        size > 0,
{
    Seq::new(
        examples / size,
        |k: int| Batch { start: (k * size) as usize, end: ((k + 1) * size) as usize },
    )
}

/// One thing for the training loop to do.
#[derive(Debug, Clone, Copy, PartialEq, Eq, Structural)]
pub enum TrainStep {
    /// Feed example `index` forward, then backward, and add its gradients
    /// to the sum of the current batch.
    Example { index: usize },
    /// Apply the summed gradients of the batch just finished, divided by
    /// `batch_len`, as one update.
    Commit { batch_len: usize },
}

/// The steps of one epoch: for each full batch, its examples in order,
/// then one commit.
pub open spec fn epoch_steps(examples: nat, size: nat) -> Seq<TrainStep>
    recommends
        size > 0,
{
    let d = (size + 1) as int;
    Seq::new(
        (examples / size) * (size + 1),
        |q: int|
            if q % d < size {
                TrainStep::Example { index: ((q / d) * size + q % d) as usize }
            } else {
                TrainStep::Commit { batch_len: size as usize }
            },
    )
}

/// The steps of a whole training run: `epochs` times the steps of one
/// epoch.
pub open spec fn schedule(examples: nat, epochs: nat, size: nat) -> Seq<TrainStep>
    recommends
        size > 0,
{
    let per_epoch = epoch_steps(examples, size);
    Seq::new(epochs * per_epoch.len(), |p: int| per_epoch[p % (per_epoch.len() as int)])
}

proof fn lemma_full_batches_fit(examples: nat, size: nat)
    requires
        size > 0,
    ensures
        (examples / size) * size <= examples,
        examples - (examples / size) * size < size,
{
    lemma_fundamental_div_mod(examples as int, size as int);
    assert(size * (examples / size) == (examples / size) * size) by (nonlinear_arith);
}

/// The full mini-batches of a data set start at its first example, follow
/// one another without gap or overlap, each hold exactly `size` examples,
/// and leave out fewer than `size` examples at its end.
pub proof fn lemma_batches_partition(examples: nat, size: nat)
    requires
        size > 0,
        examples <= usize::MAX,
    ensures
        batches_of(examples, size).len() > 0 ==> batches_of(examples, size)[0].start == 0,
        forall|k: int|
            0 <= k < batches_of(examples, size).len() ==> #[trigger] batches_of(examples, size)[k].end
                - batches_of(examples, size)[k].start == size,
        forall|k: int|
            0 <= k < batches_of(examples, size).len() - 1 ==> #[trigger] batches_of(examples, size)[k].end
                == batches_of(examples, size)[k + 1].start,
        batches_of(examples, size).len() * size <= examples,
        examples - batches_of(examples, size).len() * size < size,
{
    let b = batches_of(examples, size);
    let count = examples / size;
    lemma_full_batches_fit(examples, size);
    assert forall|k: int| 0 <= k < b.len() implies #[trigger] b[k].end - b[k].start == size by {
        assert((k + 1) * size <= count * size && k * size >= 0 && (k + 1) * size == k * size + size)
            by (nonlinear_arith)
            requires
                0 <= k < count,
        ;
    }
    assert forall|k: int| 0 <= k < b.len() - 1 implies #[trigger] b[k].end == b[k + 1].start by {
        assert((k + 1) * size <= count * size && (k + 1) * size >= 0) by (nonlinear_arith)
            requires
                0 <= k < count - 1,
        ;
    }
}

/// Splits a data set of `examples` items into its full mini-batches of
/// `size` items, in order.
pub fn mini_batches(examples: usize, size: usize) -> (r: Result<Vec<Batch>, NetError>)
    ensures
        size == 0 ==> r == Err::<Vec<Batch>, NetError>(NetError::ZeroBatchSize),
        size > 0 ==> (r matches Ok(b) && b@ == batches_of(examples as nat, size as nat)),
{
    if size == 0 {
        return Err(NetError::ZeroBatchSize);
    }
    let count = examples / size;
    proof {
        lemma_full_batches_fit(examples as nat, size as nat);
    }
    let mut batches: Vec<Batch> = Vec::new();
    let mut k: usize = 0;
    let mut start: usize = 0;
    while k < count
        invariant
            size > 0,
            k <= count,
            count == examples / size,
            count * size <= examples,
            start == k * size,
            batches@ =~= batches_of(examples as nat, size as nat).take(k as int),
        decreases count - k,
    {
        assert((k + 1) * size <= count * size) by (nonlinear_arith)
            requires
                k < count,
        ;
        assert((k + 1) * size == k * size + size) by (nonlinear_arith);
        let end = start + size;
        batches.push(Batch { start, end });
        k = k + 1;
        start = end;
        assert(batches@ =~= batches_of(examples as nat, size as nat).take(k as int));
    }
    assert(batches@ =~= batches_of(examples as nat, size as nat));
    Ok(batches)
}

proof fn lemma_step_at(examples: nat, epochs: nat, size: nat, epoch: nat, batch: nat, offset: nat)
    requires
        size > 0,
        epoch < epochs,
        batch < examples / size,
        offset <= size,
    ensures
        epoch * epoch_steps(examples, size).len() + batch * (size + 1) + offset < schedule(
            examples,
            epochs,
            size,
        ).len(),
        schedule(examples, epochs, size)[(epoch * epoch_steps(examples, size).len() + batch * (size
            + 1) + offset) as int] == if offset < size {
            TrainStep::Example { index: (batch * size + offset) as usize }
        } else {
            TrainStep::Commit { batch_len: size as usize }
        },
{
    let batches = examples / size;
    let per = epoch_steps(examples, size).len();
    assert(per == batches * (size + 1));
    let q = batch * (size + 1) + offset;
    assert(q < per) by (nonlinear_arith)
        requires
            batch < batches,
            offset <= size,
            per == batches * (size + 1),
            q == batch * (size + 1) + offset,
    ;
    let p = epoch * per + q;
    assert(p < epochs * per) by (nonlinear_arith)
        requires
            epoch < epochs,
            q < per,
            p == epoch * per + q,
    ;
    lemma_fundamental_div_mod_converse(p as int, per as int, epoch as int, q as int);
    lemma_fundamental_div_mod_converse(q as int, (size + 1) as int, batch as int, offset as int);
}

/// A cursor over the steps of a training run, handed out one at a time.
pub struct TrainSchedule {
    examples: usize,
    epochs: usize,
    batch_size: usize,
    batches: usize,
    epoch: usize,
    batch: usize,
    offset: usize,
}

impl TrainSchedule {
    #[verifier::type_invariant]
    spec fn well_formed(self) -> bool {
        &&& self.batch_size > 0
        &&& self.batches == self.examples / self.batch_size
        &&& self.batches * self.batch_size <= self.examples
        &&& {
            ||| self.epoch == self.epochs && self.batch == 0 && self.offset == 0
            ||| self.epoch < self.epochs && self.batch < self.batches && self.offset
                <= self.batch_size
        }
    }

    /// The steps of the whole run.
    pub closed spec fn spec_steps(self) -> Seq<TrainStep> {
        schedule(self.examples as nat, self.epochs as nat, self.batch_size as nat)
    }

    /// How many steps have been handed out.
    pub closed spec fn spec_position(self) -> int {
        self.epoch * epoch_steps(self.examples as nat, self.batch_size as nat).len() + self.batch
            * (self.batch_size + 1) + self.offset
    }

    /// The run of `epochs` passes over `examples` items in mini-batches of
    /// `batch_size`, positioned at its first step.
    pub fn new(examples: usize, epochs: usize, batch_size: usize) -> (r: Result<
        TrainSchedule,
        NetError,
    >)
        ensures
            batch_size == 0 ==> r == Err::<TrainSchedule, NetError>(NetError::ZeroBatchSize),
            batch_size > 0 ==> (r matches Ok(s) && s.spec_steps() == schedule(
                examples as nat,
                epochs as nat,
                batch_size as nat,
            ) && s.spec_position() == 0),
    {
        if batch_size == 0 {
            return Err(NetError::ZeroBatchSize);
        }
        let batches = examples / batch_size;
        proof {
            lemma_full_batches_fit(examples as nat, batch_size as nat);
        }
        let epoch = if batches == 0 {
            epochs
        } else {
            0
        };
        let r = TrainSchedule { examples, epochs, batch_size, batches, epoch, batch: 0, offset: 0 };
        proof {
            let per = epoch_steps(examples as nat, batch_size as nat).len();
            assert(per == batches * (batch_size + 1));
            assert(epoch * per == 0) by (nonlinear_arith)
                requires
                    epoch == 0 || batches == 0,
                    per == batches * (batch_size + 1),
            ;
            assert(0 * (batch_size + 1) == 0);
            assert(r.spec_position() == 0);
        }
        Ok(r)
    }

    /// Hands out the next step of the run, or `None` once every step has
    /// been handed out.
    pub fn next(&mut self) -> (r: Option<TrainStep>)
        ensures
            final(self).spec_steps() == old(self).spec_steps(),
            old(self).spec_position() < old(self).spec_steps().len() ==> r == Some(
                old(self).spec_steps()[old(self).spec_position()],
            ) && final(self).spec_position() == old(self).spec_position() + 1,
            old(self).spec_position() >= old(self).spec_steps().len() ==> r is None
                && final(self).spec_position() == old(self).spec_position(),
    {
        proof {
            use_type_invariant(&*self);
        }
        let ghost per = epoch_steps(self.examples as nat, self.batch_size as nat).len();
        assert(per == self.batches * (self.batch_size + 1));
        if self.epoch == self.epochs {
            assert(self.batch * (self.batch_size + 1) == 0) by (nonlinear_arith)
                requires
                    self.batch == 0,
            ;
            assert(self.spec_position() == self.epochs * per);
            assert(self.spec_steps().len() == self.epochs * per);
            return None;
        }
        proof {
            lemma_step_at(
                self.examples as nat,
                self.epochs as nat,
                self.batch_size as nat,
                self.epoch as nat,
                self.batch as nat,
                self.offset as nat,
            );
        }
        let step = if self.offset < self.batch_size {
            assert(self.batch * self.batch_size + self.offset < self.examples) by (nonlinear_arith)
                requires
                    self.batch < self.batches,
                    self.offset < self.batch_size,
                    self.batches * self.batch_size <= self.examples,
            ;
            TrainStep::Example { index: self.batch * self.batch_size + self.offset }
        } else {
            TrainStep::Commit { batch_len: self.batch_size }
        };
        let ghost before = self.spec_position();
        if self.offset < self.batch_size {
            self.offset = self.offset + 1;
        } else if self.batch + 1 < self.batches {
            assert((self.batch + 1) * (self.batch_size + 1) == self.batch * (self.batch_size + 1)
                + self.batch_size + 1) by (nonlinear_arith);
            self.batch = self.batch + 1;
            self.offset = 0;
        } else {
            assert((self.epoch + 1) * per == self.epoch * per + self.batch * (self.batch_size + 1)
                + self.batch_size + 1) by (nonlinear_arith)
                requires
                    self.batch + 1 == self.batches,
                    per == self.batches * (self.batch_size + 1),
            ;
            *self = TrainSchedule { epoch: self.epoch + 1, batch: 0, offset: 0, ..*self };
            assert(0 * (self.batch_size + 1) == 0);
        }
        assert(self.spec_position() == before + 1);
        Some(step)
    }
}

} // verus!
