use vstd::prelude::*;

use crate::counting::zeros;
use crate::layer::zero_vec;
use crate::ternary::Ternary;

verus! {

/// The activations after feeding `input` into the shift register `acts`: a non-zero
/// input enters at depth 0 and pushes every activation one step deeper, dropping the
/// deepest one; a zero input leaves the register as it is.
pub open spec fn shifted_in(acts: Seq<Ternary>, input: Ternary) -> Seq<Ternary> {
    if input == Ternary::Zero {
        acts
    } else {
        seq![input] + acts.take(acts.len() - 1)
    }
}

/// The deepest activation of `acts`, or `Zero` when there is none.
pub open spec fn deepest(acts: Seq<Ternary>) -> Ternary {
    if acts.len() == 0 {
        Ternary::Zero
    } else {
        acts.last()
    }
}

/// A vertical slice through all layers.
#[derive(Clone, Debug)]
pub struct CorticalColumn {
    pub index: usize,
    pub activations: Vec<Ternary>,
    pub active: bool,
}

impl CorticalColumn {
    /// An inactive column of `depth` zero activations.
    pub fn new(index: usize, depth: usize) -> (r: Self)
        ensures
            r.index == index,
            r.activations@ == zeros(depth as nat),
            !r.active,
    {
        CorticalColumn { index, activations: zero_vec(depth), active: false }
    }

    /// Feeds an activation into the column: a non-zero input marks the column active
    /// and shifts it in at depth 0; a zero input marks it inactive and shifts nothing.
    pub fn activate(&mut self, input: Ternary)
        requires
            input != Ternary::Zero ==> old(self).activations@.len() > 0,
        ensures
            final(self).activations@ == shifted_in(old(self).activations@, input),
            final(self).active == (input != Ternary::Zero),
            final(self).index == old(self).index,
    {
        if input != Ternary::Zero {
            self.active = true;
            let ghost a0 = self.activations@;
            let mut i: usize = self.activations.len() - 1;
            while i > 0
                invariant
                    a0 == old(self).activations@,
                    a0.len() > 0,
                    i < a0.len(),
                    self.activations@.len() == a0.len(),
                    self.index == old(self).index,
                    self.active,
                    forall|j: int|
                        0 <= j < a0.len() ==> #[trigger] self.activations@[j] == if j <= i {
                            a0[j]
                        } else {
                            a0[j - 1]
                        },
                decreases i,
            {
                let prev = self.activations[i - 1];
                self.activations.set(i, prev);
                i = i - 1;
            }
            self.activations.set(0, input);
            assert(self.activations@ =~= shifted_in(a0, input));
        } else {
            self.active = false;
        }
    }

    /// The activation at the deepest layer, or `Zero` for a column of depth 0.
    pub fn output(&self) -> (r: Ternary)
        ensures
            r == deepest(self.activations@),
    {
        if self.activations.len() == 0 {
            Ternary::Zero
        } else {
            self.activations[self.activations.len() - 1]
        }
    }

    /// Zeroes every activation, keeping the depth, and marks the column inactive.
    pub fn reset(&mut self)
        ensures
            final(self).activations@ == zeros(old(self).activations@.len()),
            !final(self).active,
            final(self).index == old(self).index,
    {
        self.activations = zero_vec(self.activations.len());
        self.active = false;
    }
}

/// A shift register keeps its depth whatever is fed into it.
pub proof fn lemma_shift_keeps_depth(acts: Seq<Ternary>, input: Ternary)
    requires
        input != Ternary::Zero ==> acts.len() > 0,
    ensures
        shifted_in(acts, input).len() == acts.len(),
{
}

/// The shift rule: a non-zero input lands at depth 0 and every earlier activation moves
/// one step deeper, the deepest one falling off, so the depth stays; a zero input
/// changes nothing. The output is the deepest activation, or `Zero` with no depth.
pub proof fn lemma_shift_rule(acts: Seq<Ternary>, input: Ternary)
    ensures
        input == Ternary::Zero ==> shifted_in(acts, input) == acts,
        input != Ternary::Zero && acts.len() > 0 ==> {
            &&& shifted_in(acts, input).len() == acts.len()
            &&& shifted_in(acts, input)[0] == input
            &&& forall|j: int|
                1 <= j < acts.len() ==> #[trigger] shifted_in(acts, input)[j] == acts[j - 1]
        },
        acts.len() > 0 ==> deepest(acts) == acts[acts.len() - 1],
        acts.len() == 0 ==> deepest(acts) == Ternary::Zero,
{
}

/// The register after feeding the values of `inputs`, in order.
pub open spec fn fed_all(acts: Seq<Ternary>, inputs: Seq<Ternary>) -> Seq<Ternary>
    decreases inputs.len(),
{
    if inputs.len() == 0 {
        acts
    } else {
        shifted_in(fed_all(acts, inputs.drop_last()), inputs.last())
    }
}

/// After `k` non-zero values have been fed into a register at least `k` deep, the most
/// recent value sits at depth 0, the value fed `j` steps earlier at depth `j`, and the
/// earlier contents sit `k` places deeper than before.
pub proof fn lemma_fed_all_positions(acts: Seq<Ternary>, inputs: Seq<Ternary>)
    requires
        inputs.len() <= acts.len(),
        forall|i: int| 0 <= i < inputs.len() ==> #[trigger] inputs[i] != Ternary::Zero,
    ensures
        fed_all(acts, inputs).len() == acts.len(),
        forall|j: int|
            0 <= j < inputs.len() ==> #[trigger] fed_all(acts, inputs)[j] == inputs[inputs.len()
                - 1 - j],
        forall|j: int|
            inputs.len() <= j < acts.len() ==> #[trigger] fed_all(acts, inputs)[j] == acts[j
                - inputs.len()],
    decreases inputs.len(),
{
    if inputs.len() > 0 {
        let rest = inputs.drop_last();
        assert(forall|i: int| 0 <= i < rest.len() ==> #[trigger] rest[i] == inputs[i]);
        lemma_fed_all_positions(acts, rest);
    }
}

/// A register `d` deep outputs, after `d` non-zero values, the first of them.
pub proof fn lemma_output_after_depth(acts: Seq<Ternary>, inputs: Seq<Ternary>)
    requires
        acts.len() > 0,
        inputs.len() == acts.len(),
        forall|i: int| 0 <= i < inputs.len() ==> #[trigger] inputs[i] != Ternary::Zero,
    ensures
        deepest(fed_all(acts, inputs)) == inputs[0],
{
    lemma_fed_all_positions(acts, inputs);
    assert(fed_all(acts, inputs)[acts.len() - 1] == inputs[0]);
}

} // verus!
