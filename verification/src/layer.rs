use vstd::prelude::*;

use crate::counting::{
    count_pos, lemma_count_is_filter_len, lemma_count_prefix_step, lemma_count_uniform, zeros,
};
use crate::ternary::{lemma_product_value, product, ternary_mul, Ternary};

verus! {

/// The smaller of two integers.
pub open spec fn min_int(a: int, b: int) -> int {
    if a <= b {
        a
    } else {
        b
    }
}

/// Element-wise product of `input` and `weights`, over at most `width` positions.
pub open spec fn weighted(input: Seq<Ternary>, weights: Seq<Ternary>, width: int) -> Seq<Ternary> {
    Seq::new(
        min_int(min_int(width, input.len() as int), weights.len() as int) as nat,
        |i: int| product(input[i], weights[i]),
    )
}

/// The k-of-n gate: `values` when at least `threshold` of them are `Pos`, else all zeros.
pub open spec fn gated(values: Seq<Ternary>, threshold: int) -> Seq<Ternary> {
    if count_pos(values) >= threshold {
        values
    } else {
        zeros(values.len())
    }
}

/// Whether the Hebbian rule updates position `i`: the error is non-zero there and the
/// learning-rate schedule admits the position.
pub open spec fn schedules(error: Seq<Ternary>, rate: int, i: int) -> bool {
    error[i] != Ternary::Zero && rate > i % 10
}

/// The number of positions that the Hebbian rule looks at.
pub open spec fn adapt_limit(width: int, input: Seq<Ternary>, error: Seq<Ternary>) -> int {
    min_int(min_int(width, input.len() as int), error.len() as int)
}

/// Every position that the Hebbian rule writes lies inside `weights`.
pub open spec fn adapt_in_bounds(
    weights: Seq<Ternary>,
    width: int,
    rate: int,
    input: Seq<Ternary>,
    error: Seq<Ternary>,
) -> bool {
    forall|i: int|
        0 <= i < adapt_limit(width, input, error) && #[trigger] schedules(error, rate, i)
            ==> i < weights.len()
}

/// The weights after one Hebbian step: a scheduled position with a non-zero input takes
/// the sign of input times error; every other weight stays.
pub open spec fn hebbian(
    weights: Seq<Ternary>,
    width: int,
    rate: int,
    input: Seq<Ternary>,
    error: Seq<Ternary>,
) -> Seq<Ternary> {
    Seq::new(
        weights.len(),
        |i: int|
            if 0 <= i < adapt_limit(width, input, error) && schedules(error, rate, i) && input[i]
                != Ternary::Zero {
                product(input[i], error[i])
            } else {
                weights[i]
            },
    )
}

/// A single processing tier of the cortex.
#[derive(Clone, Debug)]
pub struct CortexLayer {
    pub id: usize,
    pub width: usize,
    pub weights: Vec<Ternary>,
    pub threshold: usize,
    pub learning_rate: u8,
}

/// `n` zero digits.
pub(crate) fn zero_vec(n: usize) -> (v: Vec<Ternary>)
    ensures
        v@ == zeros(n as nat),
{
    let v = vec![Ternary::Zero; n];
    assert(v@ =~= zeros(n as nat));
    v
}

impl CortexLayer {
    /// A layer of `width` zero weights with learning rate 10.
    pub fn new(id: usize, width: usize, threshold: usize) -> (r: Self)
        ensures
            r.id == id,
            r.width == width,
            r.threshold == threshold,
            r.weights@ == zeros(width as nat),
            r.learning_rate == 10,
    {
        CortexLayer { id, width, weights: zero_vec(width), threshold, learning_rate: 10 }
    }

    /// Ternary multiplication of the input by the weights, position by position.
    pub fn process(&self, input: &[Ternary]) -> (r: Vec<Ternary>)
        ensures
            r@ == weighted(input@, self.weights@, self.width as int),
    {
        let mut limit = self.width;
        if input.len() < limit {
            limit = input.len();
        }
        if self.weights.len() < limit {
            limit = self.weights.len();
        }
        let mut out: Vec<Ternary> = Vec::new();
        let mut i: usize = 0;
        while i < limit
            invariant
                i <= limit,
                limit <= input.len(),
                limit <= self.weights.len(),
                limit == min_int(
                    min_int(self.width as int, input@.len() as int),
                    self.weights@.len() as int,
                ),
                out@.len() == i,
                forall|j: int| 0 <= j < i ==> out@[j] == product(input@[j], self.weights@[j]),
            decreases limit - i,
        {
            out.push(ternary_mul(input[i], self.weights[i]));
            i = i + 1;
        }
        assert(out@ =~= weighted(input@, self.weights@, self.width as int));
        out
    }

    /// Threshold gate: suppress all output unless at least `threshold` values are `Pos`.
    pub fn threshold_gate(&self, values: &[Ternary]) -> (r: Vec<Ternary>)
        ensures
            r@ == gated(values@, self.threshold as int),
    {
        let mut count: usize = 0;
        let mut i: usize = 0;
        while i < values.len()
            invariant
                i <= values.len(),
                count <= i,
                count == count_pos(values@.take(i as int)),
            decreases values.len() - i,
        {
            proof {
                lemma_count_prefix_step(values@, |t: Ternary| t == Ternary::Pos, i as int);
            }
            if values[i] == Ternary::Pos {
                count = count + 1;
            }
            i = i + 1;
        }
        assert(values@.take(values@.len() as int) =~= values@);
        if count >= self.threshold {
            vstd::slice::slice_to_vec(values)
        } else {
            zero_vec(values.len())
        }
    }

    /// Hebbian adaptation of the weights from an input and an error signal.
    pub fn adapt(&mut self, input: &[Ternary], error: &[Ternary])
        requires
            adapt_in_bounds(
                old(self).weights@,
                old(self).width as int,
                old(self).learning_rate as int,
                input@,
                error@,
            ),
        ensures
            final(self).weights@ == hebbian(
                old(self).weights@,
                old(self).width as int,
                old(self).learning_rate as int,
                input@,
                error@,
            ),
            final(self).id == old(self).id,
            final(self).width == old(self).width,
            final(self).threshold == old(self).threshold,
            final(self).learning_rate == old(self).learning_rate,
    {
        let ghost w0 = self.weights@;
        let mut limit = self.width;
        if input.len() < limit {
            limit = input.len();
        }
        if error.len() < limit {
            limit = error.len();
        }
        let mut i: usize = 0;
        while i < limit
            invariant
                i <= limit,
                limit <= input.len(),
                limit <= error.len(),
                limit == adapt_limit(self.width as int, input@, error@),
                adapt_in_bounds(w0, self.width as int, self.learning_rate as int, input@, error@),
                self.weights@.len() == w0.len(),
                w0 == old(self).weights@,
                self.id == old(self).id,
                self.width == old(self).width,
                self.threshold == old(self).threshold,
                self.learning_rate == old(self).learning_rate,
                forall|j: int|
                    0 <= j < w0.len() ==> #[trigger] self.weights@[j] == if j < i {
                        hebbian(w0, self.width as int, self.learning_rate as int, input@, error@)[j]
                    } else {
                        w0[j]
                    },
            decreases limit - i,
        {
            if error[i] != Ternary::Zero && (self.learning_rate as usize) > i % 10 {
                assert(schedules(error@, self.learning_rate as int, i as int));
                let next = match (input[i], error[i]) {
                    (Ternary::Pos, Ternary::Pos) => Ternary::Pos,
                    (Ternary::Neg, Ternary::Pos) => Ternary::Neg,
                    (Ternary::Pos, Ternary::Neg) => Ternary::Neg,
                    (Ternary::Neg, Ternary::Neg) => Ternary::Pos,
                    _ => self.weights[i],
                };
                self.weights.set(i, next);
            }
            i = i + 1;
        }
        assert(self.weights@ =~= hebbian(
            w0,
            self.width as int,
            self.learning_rate as int,
            input@,
            error@,
        ));
    }

    /// Sets every weight back to zero, `width` of them.
    pub fn reset(&mut self)
        ensures
            final(self).weights@ == zeros(old(self).width as nat),
            final(self).id == old(self).id,
            final(self).width == old(self).width,
            final(self).threshold == old(self).threshold,
            final(self).learning_rate == old(self).learning_rate,
    {
        self.weights = zero_vec(self.width);
    }
}

/// The k-of-n gate counts every value: when at least `threshold` of all the values are
/// `Pos` it hands them on unchanged, and otherwise it outputs as many `Zero`s.
pub proof fn lemma_gate_counts_every_value(values: Seq<Ternary>, threshold: int)
    ensures
        values.filter(|t: Ternary| t == Ternary::Pos).len() >= threshold ==> gated(
            values,
            threshold,
        ) == values,
        values.filter(|t: Ternary| t == Ternary::Pos).len() < threshold ==> {
            &&& gated(values, threshold).len() == values.len()
            &&& forall|i: int|
                0 <= i < values.len() ==> #[trigger] gated(values, threshold)[i] == Ternary::Zero
        },
{
    lemma_count_is_filter_len(values, |t: Ternary| t == Ternary::Pos);
}

/// Each output of the multiplication has, as its value, the input's value times the
/// weight's value, over as many positions as the width, the input and the weights all
/// reach.
pub proof fn lemma_weighted_values(input: Seq<Ternary>, weights: Seq<Ternary>, width: nat)
    ensures
        weighted(input, weights, width as int).len() <= width,
        weighted(input, weights, width as int).len() <= input.len(),
        weighted(input, weights, width as int).len() <= weights.len(),
        weighted(input, weights, width as int).len() == width
            || weighted(input, weights, width as int).len() == input.len()
            || weighted(input, weights, width as int).len() == weights.len(),
        forall|i: int|
            0 <= i < weighted(input, weights, width as int).len() ==> (#[trigger] weighted(
                input,
                weights,
                width as int,
            )[i]).value() == input[i].value() * weights[i].value(),
{
    assert forall|i: int| 0 <= i < weighted(input, weights, width as int).len() implies (#[trigger] weighted(
        input,
        weights,
        width as int,
    )[i]).value() == input[i].value() * weights[i].value() by {
        lemma_product_value(input[i], weights[i]);
    }
}

/// The Hebbian rule: at a position below the width and the lengths of input and error,
/// with a non-zero error, a non-zero input and a learning rate above the position modulo
/// 10, the new weight has the value input times error, whatever the weight was before;
/// every other weight stays as it was.
pub proof fn lemma_hebbian_rule(
    weights: Seq<Ternary>,
    width: int,
    rate: int,
    input: Seq<Ternary>,
    error: Seq<Ternary>,
    i: int,
)
    requires
        0 <= i < weights.len(),
    ensures
        hebbian(weights, width, rate, input, error).len() == weights.len(),
        (i < width && i < input.len() && i < error.len() && error[i] != Ternary::Zero && rate > i
            % 10 && input[i] != Ternary::Zero) ==> hebbian(weights, width, rate, input, error)[i].value()
            == input[i].value() * error[i].value(),
        !(i < width && i < input.len() && i < error.len() && error[i] != Ternary::Zero && rate > i
            % 10 && input[i] != Ternary::Zero) ==> hebbian(weights, width, rate, input, error)[i]
            == weights[i],
{
    lemma_product_value(input[i], error[i]);
}

/// Gating is idempotent; its output is either its input or zeros of the same length.
pub proof fn lemma_gate_idempotent(values: Seq<Ternary>, threshold: int)
    ensures
        gated(gated(values, threshold), threshold) == gated(values, threshold),
        gated(values, threshold) == values || gated(values, threshold) == zeros(values.len()),
        gated(values, threshold).len() == values.len(),
{
    let z = zeros(values.len());
    lemma_count_uniform(z, |t: Ternary| t == Ternary::Pos);
    assert(zeros(z.len()) =~= z);
}

/// One Hebbian step already learns all it can: repeating it with the same input and
/// error leaves the weights as they are; and an all-zero error changes nothing.
pub proof fn lemma_hebbian_idempotent(
    weights: Seq<Ternary>,
    width: int,
    rate: int,
    input: Seq<Ternary>,
    error: Seq<Ternary>,
)
    ensures
        hebbian(hebbian(weights, width, rate, input, error), width, rate, input, error)
            == hebbian(weights, width, rate, input, error),
        (forall|i: int| 0 <= i < error.len() ==> error[i] == Ternary::Zero) ==> hebbian(
            weights,
            width,
            rate,
            input,
            error,
        ) == weights,
{
    assert(hebbian(hebbian(weights, width, rate, input, error), width, rate, input, error)
        =~= hebbian(weights, width, rate, input, error));
    if forall|i: int| 0 <= i < error.len() ==> error[i] == Ternary::Zero {
        assert(hebbian(weights, width, rate, input, error) =~= weights);
    }
}

/// A position whose weight is `Zero` kills the signal there; a `Pos` weight passes it.
pub proof fn lemma_weighted_kill_and_pass(
    input: Seq<Ternary>,
    weights: Seq<Ternary>,
    width: int,
    i: int,
)
    requires
        0 <= i < weighted(input, weights, width).len(),
    ensures
        weights[i] == Ternary::Zero ==> weighted(input, weights, width)[i] == Ternary::Zero,
        weights[i] == Ternary::Pos ==> weighted(input, weights, width)[i] == input[i],
{
}

} // verus!
