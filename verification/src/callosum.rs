use vstd::prelude::*;

use crate::counting::{
    count_nonzero, lemma_count_prefix_step, lemma_count_update, zeros,
};
use crate::layer::zero_vec;
use crate::ternary::{lemma_product_value, product, ternary_mul, Ternary};

verus! {

/// A sequence of `n` intact fibers, all with weight `Pos`.
pub open spec fn intact(n: nat) -> Seq<Ternary> {
    Seq::new(n, |i: int| Ternary::Pos)
}

/// `buffer` with its first positions overwritten by `signals`, as far as both reach.
pub open spec fn overwritten(buffer: Seq<Ternary>, signals: Seq<Ternary>) -> Seq<Ternary> {
    Seq::new(
        buffer.len(),
        |i: int|
            if i < signals.len() {
                signals[i]
            } else {
                buffer[i]
            },
    )
}

/// The signal that crosses the fibers: each buffered value times its fiber's weight,
/// over the positions that both the buffer and the weights reach.
pub open spec fn transferred(buffer: Seq<Ternary>, weights: Seq<Ternary>) -> Seq<Ternary> {
    Seq::new(
        if buffer.len() <= weights.len() {
            buffer.len()
        } else {
            weights.len()
        },
        |i: int| product(buffer[i], weights[i]),
    )
}

/// Bridge between two cortical hemispheres.
#[derive(Clone, Debug)]
pub struct CorpusCallosum {
    pub fiber_count: usize,
    left_buffer: Vec<Ternary>,
    right_buffer: Vec<Ternary>,
    pub weights: Vec<Ternary>,
}

/// Overwrites the front of `buffer` with `signals`.
fn copy_front(buffer: &mut Vec<Ternary>, signals: &[Ternary])
    ensures
        final(buffer)@ == overwritten(old(buffer)@, signals@),
{
    let ghost b0 = buffer@;
    let mut limit = buffer.len();
    if signals.len() < limit {
        limit = signals.len();
    }
    let mut i: usize = 0;
    while i < limit
        invariant
            i <= limit,
            limit <= signals.len(),
            limit <= b0.len(),
            limit == b0.len() || limit == signals.len(),
            b0 == old(buffer)@,
            buffer@.len() == b0.len(),
            forall|j: int|
                0 <= j < b0.len() ==> #[trigger] buffer@[j] == if j < i {
                    signals@[j]
                } else {
                    b0[j]
                },
        decreases limit - i,
    {
        buffer.set(i, signals[i]);
        i = i + 1;
    }
    assert(buffer@ =~= overwritten(b0, signals@));
}

/// Multiplies `buffer` by `weights`, position by position.
fn cross(buffer: &Vec<Ternary>, weights: &Vec<Ternary>) -> (r: Vec<Ternary>)
    ensures
        r@ == transferred(buffer@, weights@),
{
    let mut limit = buffer.len();
    if weights.len() < limit {
        limit = weights.len();
    }
    let mut out: Vec<Ternary> = Vec::new();
    let mut i: usize = 0;
    while i < limit
        invariant
            i <= limit,
            limit <= buffer@.len(),
            limit <= weights@.len(),
            limit == buffer@.len() || limit == weights@.len(),
            out@.len() == i,
            forall|j: int| 0 <= j < i ==> out@[j] == product(buffer@[j], weights@[j]),
        decreases limit - i,
    {
        out.push(ternary_mul(buffer[i], weights[i]));
        i = i + 1;
    }
    assert(out@ =~= transferred(buffer@, weights@));
    out
}

impl CorpusCallosum {
    /// The number of fibers the bridge was built with.
    pub closed spec fn fibers(&self) -> usize {
        self.fiber_count
    }

    /// The weight of each fiber.
    pub closed spec fn weights_view(&self) -> Seq<Ternary> {
        self.weights@
    }

    /// The signals buffered on the left hemisphere's side.
    pub closed spec fn left_view(&self) -> Seq<Ternary> {
        self.left_buffer@
    }

    /// The signals buffered on the right hemisphere's side.
    pub closed spec fn right_view(&self) -> Seq<Ternary> {
        self.right_buffer@
    }

    /// `fiber_count` intact fibers with both buffers zero.
    pub fn new(fiber_count: usize) -> (r: Self)
        ensures
            r.fibers() == fiber_count,
            r.left_view() == zeros(fiber_count as nat),
            r.right_view() == zeros(fiber_count as nat),
            r.weights_view() == intact(fiber_count as nat),
    {
        let weights = vec![Ternary::Pos; fiber_count];
        assert(weights@ =~= intact(fiber_count as nat));
        CorpusCallosum {
            fiber_count,
            left_buffer: zero_vec(fiber_count),
            right_buffer: zero_vec(fiber_count),
            weights,
        }
    }

    /// Buffers signals from the left hemisphere, as many as the buffer holds.
    pub fn receive_left(&mut self, signals: &[Ternary])
        ensures
            final(self).left_view() == overwritten(old(self).left_view(), signals@),
            final(self).right_view() == old(self).right_view(),
            final(self).weights_view() == old(self).weights_view(),
            final(self).fibers() == old(self).fibers(),
    {
        copy_front(&mut self.left_buffer, signals);
    }

    /// Buffers signals from the right hemisphere, as many as the buffer holds.
    pub fn receive_right(&mut self, signals: &[Ternary])
        ensures
            final(self).right_view() == overwritten(old(self).right_view(), signals@),
            final(self).left_view() == old(self).left_view(),
            final(self).weights_view() == old(self).weights_view(),
            final(self).fibers() == old(self).fibers(),
    {
        copy_front(&mut self.right_buffer, signals);
    }

    /// The left buffer carried across the weighted fibers.
    pub fn transfer_left_to_right(&self) -> (r: Vec<Ternary>)
        ensures
            r@ == transferred(self.left_view(), self.weights_view()),
    {
        cross(&self.left_buffer, &self.weights)
    }

    /// The right buffer carried across the weighted fibers.
    pub fn transfer_right_to_left(&self) -> (r: Vec<Ternary>)
        ensures
            r@ == transferred(self.right_view(), self.weights_view()),
    {
        cross(&self.right_buffer, &self.weights)
    }

    /// Cuts one fiber, setting its weight to `Zero`; an index out of range changes nothing.
    pub fn sever_fiber(&mut self, index: usize)
        ensures
            final(self).weights_view() == if index < old(self).weights_view().len() {
                old(self).weights_view().update(index as int, Ternary::Zero)
            } else {
                old(self).weights_view()
            },
            final(self).left_view() == old(self).left_view(),
            final(self).right_view() == old(self).right_view(),
            final(self).fibers() == old(self).fibers(),
    {
        if index < self.weights.len() {
            self.weights.set(index, Ternary::Zero);
        }
    }

    /// The number of fibers whose weight is not `Zero`.
    pub fn active_fiber_count(&self) -> (r: usize)
        ensures
            r == count_nonzero(self.weights_view()),
    {
        let mut count: usize = 0;
        let mut i: usize = 0;
        while i < self.weights.len()
            invariant
                i <= self.weights@.len(),
                count <= i,
                count == count_nonzero(self.weights@.take(i as int)),
            decreases self.weights@.len() - i,
        {
            proof {
                lemma_count_prefix_step(self.weights@, |t: Ternary| t != Ternary::Zero, i as int);
            }
            if self.weights[i] != Ternary::Zero {
                count = count + 1;
            }
            i = i + 1;
        }
        assert(self.weights@.take(self.weights@.len() as int) =~= self.weights@);
        count
    }
}

/// A severed fiber carries nothing across, in either direction, and severing a fiber
/// that was active lowers the active count by one (one already cut leaves it alone).
pub proof fn lemma_sever_silences(buffer: Seq<Ternary>, weights: Seq<Ternary>, index: int)
    requires
        0 <= index < weights.len(),
        index < buffer.len(),
    ensures
        transferred(buffer, weights.update(index, Ternary::Zero))[index] == Ternary::Zero,
        count_nonzero(weights.update(index, Ternary::Zero)) + (if weights[index] != Ternary::Zero {
            1int
        } else {
            0int
        }) == count_nonzero(weights),
{
    lemma_count_update(weights, |t: Ternary| t != Ternary::Zero, index, Ternary::Zero);
}

/// Receiving overwrites the front of a buffer with the signals, as far as both reach, and
/// leaves the rest; crossing the fibers gives each buffered value times its fiber's
/// weight, over the positions both reach.
pub proof fn lemma_buffer_and_fiber_rules(
    buffer: Seq<Ternary>,
    signals: Seq<Ternary>,
    weights: Seq<Ternary>,
)
    ensures
        overwritten(buffer, signals).len() == buffer.len(),
        forall|i: int|
            0 <= i < buffer.len() && i < signals.len() ==> #[trigger] overwritten(buffer, signals)[i]
                == signals[i],
        forall|i: int|
            signals.len() <= i < buffer.len() ==> #[trigger] overwritten(buffer, signals)[i]
                == buffer[i],
        transferred(buffer, weights).len() <= buffer.len(),
        transferred(buffer, weights).len() <= weights.len(),
        transferred(buffer, weights).len() == buffer.len() || transferred(buffer, weights).len()
            == weights.len(),
        forall|i: int|
            0 <= i < transferred(buffer, weights).len() ==> (#[trigger] transferred(
                buffer,
                weights,
            )[i]).value() == buffer[i].value() * weights[i].value(),
        forall|i: int| 0 <= i < weights.len() ==> #[trigger] intact(weights.len())[i] == Ternary::Pos,
{
    assert forall|i: int| 0 <= i < transferred(buffer, weights).len() implies (#[trigger] transferred(
        buffer,
        weights,
    )[i]).value() == buffer[i].value() * weights[i].value() by {
        lemma_product_value(buffer[i], weights[i]);
    }
}

/// Intact fibers carry a buffer across unchanged.
pub proof fn lemma_intact_transfer(buffer: Seq<Ternary>)
    ensures
        transferred(buffer, intact(buffer.len())) == buffer,
{
    assert(transferred(buffer, intact(buffer.len())) =~= buffer);
}

/// Through intact fibers, what one side receives in full is what the other side gets.
pub proof fn lemma_receive_then_transfer(buffer: Seq<Ternary>, signals: Seq<Ternary>)
    requires
        signals.len() == buffer.len(),
    ensures
        transferred(overwritten(buffer, signals), intact(buffer.len())) == signals,
{
    assert(transferred(overwritten(buffer, signals), intact(buffer.len())) =~= signals);
}

} // verus!
