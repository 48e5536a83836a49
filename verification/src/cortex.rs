use vstd::prelude::*;

use crate::column::{shifted_in, CorticalColumn};
use crate::counting::zeros;
use crate::counting::lemma_count_is_filter_len;
use crate::layer::{gated, lemma_gate_counts_every_value, lemma_weighted_values, weighted, CortexLayer};
use crate::ternary::Ternary;
use crate::thalamus::{received, Thalamus};

verus! {

/// The widest layer among `sizes`, or 0 when there is none.
pub open spec fn max_width(sizes: Seq<(usize, usize)>) -> nat
    decreases sizes.len(),
{
    if sizes.len() == 0 {
        0
    } else {
        let rest = max_width(sizes.drop_last());
        if sizes.last().0 > rest {
            sizes.last().0 as nat
        } else {
            rest
        }
    }
}

/// One layer's pass: multiply by its weights, then apply its threshold gate.
pub open spec fn layer_step(layer: CortexLayer, signal: Seq<Ternary>) -> Seq<Ternary> {
    gated(weighted(signal, layer.weights@, layer.width as int), layer.threshold as int)
}

/// The signal after the first `k` layers of a feed-forward pass.
pub open spec fn feed_forward(layers: Seq<CortexLayer>, input: Seq<Ternary>, k: nat) -> Seq<
    Ternary,
>
    decreases k,
{
    if k == 0 {
        input
    } else {
        layer_step(layers[k - 1], feed_forward(layers, input, (k - 1) as nat))
    }
}

/// The signal and the relay buffer after the first `k` layers of a pass in which, before
/// every layer but the first, the signal goes through the relay: the relay takes it in on
/// its open gates and hands on its whole buffer.
pub open spec fn relayed(
    layers: Seq<CortexLayer>,
    gates: Seq<bool>,
    buffer: Seq<Ternary>,
    input: Seq<Ternary>,
    k: nat,
) -> (Seq<Ternary>, Seq<Ternary>)
    decreases k,
{
    if k == 0 {
        (input, buffer)
    } else {
        let prev = relayed(layers, gates, buffer, input, (k - 1) as nat);
        if k == 1 {
            (layer_step(layers[0], prev.0), prev.1)
        } else {
            let buf = received(prev.1, gates, prev.0);
            (layer_step(layers[k - 1], buf), buf)
        }
    }
}

/// Every column that receives a non-zero value of `signal` has at least one activation.
pub open spec fn columns_ready(columns: Seq<CorticalColumn>, signal: Seq<Ternary>) -> bool {
    forall|i: int|
        0 <= i < columns.len() && i < signal.len() && #[trigger] signal[i] != Ternary::Zero
            ==> columns[i].activations@.len() > 0
}

/// The columns after feeding `signal`: column `i` takes `signal[i]` where the signal
/// reaches it and is left alone elsewhere.
pub open spec fn columns_fed(
    before: Seq<CorticalColumn>,
    after: Seq<CorticalColumn>,
    signal: Seq<Ternary>,
) -> bool {
    &&& after.len() == before.len()
    &&& forall|i: int|
        0 <= i < before.len() ==> if i < signal.len() {
            &&& (#[trigger] after[i]).activations@ == shifted_in(before[i].activations@, signal[i])
            &&& after[i].active == (signal[i] != Ternary::Zero)
            &&& after[i].index == before[i].index
        } else {
            after[i] == before[i]
        }
}

/// The full hierarchical cortex: layers, a relay between them, and one column per
/// position of the widest layer.
#[derive(Clone, Debug)]
pub struct Cortex {
    pub layers: Vec<CortexLayer>,
    pub thalamus: Thalamus,
    pub columns: Vec<CorticalColumn>,
}

impl Cortex {
    /// A cortex with one layer per `(width, threshold)` pair, numbered in order, a relay
    /// of as many channels as the widest layer, and that many columns, each as deep as
    /// there are layers.
    pub fn new(layer_sizes: &[(usize, usize)]) -> (r: Self)
        ensures
            r.layers@.len() == layer_sizes@.len(),
            forall|i: int|
                0 <= i < layer_sizes@.len() ==> {
                    &&& (#[trigger] r.layers@[i]).id == i
                    &&& r.layers@[i].width == layer_sizes@[i].0
                    &&& r.layers@[i].threshold == layer_sizes@[i].1
                    &&& r.layers@[i].weights@ == zeros(layer_sizes@[i].0 as nat)
                    &&& r.layers@[i].learning_rate == 10
                },
            r.columns@.len() == max_width(layer_sizes@),
            forall|i: int|
                0 <= i < r.columns@.len() ==> {
                    &&& (#[trigger] r.columns@[i]).index == i
                    &&& r.columns@[i].activations@ == zeros(layer_sizes@.len())
                    &&& !r.columns@[i].active
                },
            r.thalamus.buffer_view() == zeros(max_width(layer_sizes@)),
            r.thalamus.gates_view() == Seq::new(max_width(layer_sizes@), |i: int| true),
            r.thalamus.attention_view() == Seq::new(max_width(layer_sizes@), |i: int| 0i32),
    {
        let mut layers: Vec<CortexLayer> = Vec::new();
        let mut max_w: usize = 0;
        let mut i: usize = 0;
        while i < layer_sizes.len()
            invariant
                i <= layer_sizes@.len(),
                layers@.len() == i,
                max_w == max_width(layer_sizes@.take(i as int)),
                forall|j: int|
                    0 <= j < i ==> {
                        &&& (#[trigger] layers@[j]).id == j
                        &&& layers@[j].width == layer_sizes@[j].0
                        &&& layers@[j].threshold == layer_sizes@[j].1
                        &&& layers@[j].weights@ == zeros(layer_sizes@[j].0 as nat)
                        &&& layers@[j].learning_rate == 10
                    },
            decreases layer_sizes@.len() - i,
        {
            let (w, t) = layer_sizes[i];
            layers.push(CortexLayer::new(i, w, t));
            assert(layer_sizes@.take(i + 1).drop_last() =~= layer_sizes@.take(i as int));
            if w > max_w {
                max_w = w;
            }
            i = i + 1;
        }
        assert(layer_sizes@.take(layer_sizes@.len() as int) =~= layer_sizes@);
        let depth = layers.len();
        let mut columns: Vec<CorticalColumn> = Vec::new();
        let mut k: usize = 0;
        while k < max_w
            invariant
                k <= max_w,
                depth == layer_sizes@.len(),
                columns@.len() == k,
                forall|j: int|
                    0 <= j < k ==> {
                        &&& (#[trigger] columns@[j]).index == j
                        &&& columns@[j].activations@ == zeros(depth as nat)
                        &&& !columns@[j].active
                    },
            decreases max_w - k,
        {
            columns.push(CorticalColumn::new(k, depth));
            k = k + 1;
        }
        Cortex { layers, thalamus: Thalamus::new(max_w), columns }
    }

    /// Feeds `signal[i]` to column `i`, for every column that the signal reaches.
    fn feed_columns(&mut self, signal: &Vec<Ternary>)
        requires
            columns_ready(old(self).columns@, signal@),
        ensures
            columns_fed(old(self).columns@, final(self).columns@, signal@),
            final(self).layers@ == old(self).layers@,
            final(self).thalamus == old(self).thalamus,
    {
        let ghost c0 = self.columns@;
        let mut i: usize = 0;
        while i < self.columns.len()
            invariant
                c0 == old(self).columns@,
                columns_ready(c0, signal@),
                self.layers@ == old(self).layers@,
                self.thalamus == old(self).thalamus,
                i <= c0.len(),
                self.columns@.len() == c0.len(),
                forall|j: int|
                    0 <= j < c0.len() ==> if j < i && j < signal@.len() {
                        &&& (#[trigger] self.columns@[j]).activations@ == shifted_in(
                            c0[j].activations@,
                            signal@[j],
                        )
                        &&& self.columns@[j].active == (signal@[j] != Ternary::Zero)
                        &&& self.columns@[j].index == c0[j].index
                    } else {
                        self.columns@[j] == c0[j]
                    },
            decreases c0.len() - i,
        {
            if i < signal.len() {
                assert(signal@[i as int] != Ternary::Zero ==> c0[i as int].activations@.len() > 0);
                self.columns[i].activate(signal[i]);
            }
            i = i + 1;
        }
    }

    /// Feed-forward through all layers; each column then takes the output at its position.
    pub fn process(&mut self, input: &[Ternary]) -> (r: Vec<Ternary>)
        requires
            columns_ready(
                old(self).columns@,
                feed_forward(old(self).layers@, input@, old(self).layers@.len()),
            ),
        ensures
            r@ == feed_forward(old(self).layers@, input@, old(self).layers@.len()),
            columns_fed(old(self).columns@, final(self).columns@, r@),
            final(self).layers@ == old(self).layers@,
            final(self).thalamus == old(self).thalamus,
    {
        let mut signal = vstd::slice::slice_to_vec(input);
        let mut idx: usize = 0;
        while idx < self.layers.len()
            invariant
                idx <= self.layers@.len(),
                self.layers@ == old(self).layers@,
                self.columns@ == old(self).columns@,
                self.thalamus == old(self).thalamus,
                signal@ == feed_forward(self.layers@, input@, idx as nat),
            decreases self.layers@.len() - idx,
        {
            let layer = &self.layers[idx];
            let weighted_signal = layer.process(signal.as_slice());
            signal = layer.threshold_gate(weighted_signal.as_slice());
            idx = idx + 1;
        }
        self.feed_columns(&signal);
        signal
    }

    /// Feed-forward with the thalamic relay between each pair of layers; each column
    /// then takes the output at its position.
    pub fn process_with_relay(&mut self, input: &[Ternary]) -> (r: Vec<Ternary>)
        requires
            columns_ready(
                old(self).columns@,
                relayed(
                    old(self).layers@,
                    old(self).thalamus.gates_view(),
                    old(self).thalamus.buffer_view(),
                    input@,
                    old(self).layers@.len(),
                ).0,
            ),
        ensures
            ({
                let run = relayed(
                    old(self).layers@,
                    old(self).thalamus.gates_view(),
                    old(self).thalamus.buffer_view(),
                    input@,
                    old(self).layers@.len(),
                );
                &&& r@ == run.0
                &&& final(self).thalamus.buffer_view() == run.1
            }),
            final(self).thalamus.gates_view() == old(self).thalamus.gates_view(),
            final(self).thalamus.attention_view() == old(self).thalamus.attention_view(),
            columns_fed(old(self).columns@, final(self).columns@, r@),
            final(self).layers@ == old(self).layers@,
    {
        let ghost gates = self.thalamus.gates_view();
        let ghost buffer = self.thalamus.buffer_view();
        let mut signal = vstd::slice::slice_to_vec(input);
        let mut idx: usize = 0;
        while idx < self.layers.len()
            invariant
                idx <= self.layers@.len(),
                self.layers@ == old(self).layers@,
                self.columns@ == old(self).columns@,
                gates == old(self).thalamus.gates_view(),
                buffer == old(self).thalamus.buffer_view(),
                self.thalamus.gates_view() == gates,
                self.thalamus.attention_view() == old(self).thalamus.attention_view(),
                signal@ == relayed(self.layers@, gates, buffer, input@, idx as nat).0,
                self.thalamus.buffer_view() == relayed(
                    self.layers@,
                    gates,
                    buffer,
                    input@,
                    idx as nat,
                ).1,
            decreases self.layers@.len() - idx,
        {
            if idx > 0 {
                self.thalamus.receive(signal.as_slice());
                signal = vstd::slice::slice_to_vec(self.thalamus.relay());
            }
            let layer = &self.layers[idx];
            let weighted_signal = layer.process(signal.as_slice());
            signal = layer.threshold_gate(weighted_signal.as_slice());
            idx = idx + 1;
        }
        self.feed_columns(&signal);
        signal
    }

    /// The number of layers.
    pub fn depth(&self) -> (r: usize)
        ensures
            r == self.layers@.len(),
    {
        self.layers.len()
    }

    /// The number of columns.
    pub fn width(&self) -> (r: usize)
        ensures
            r == self.columns@.len(),
    {
        self.columns.len()
    }
}

/// Feeding the columns: a column that gets a non-zero value becomes active with that
/// value at depth 0 and its old activations one step deeper; a column that gets `Zero`
/// becomes inactive and keeps its activations; a column the signal does not reach stays
/// as it was. Every column keeps its index and its depth.
pub proof fn lemma_columns_fed(
    before: Seq<CorticalColumn>,
    after: Seq<CorticalColumn>,
    signal: Seq<Ternary>,
    i: int,
)
    requires
        columns_fed(before, after, signal),
        columns_ready(before, signal),
        0 <= i < before.len(),
    ensures
        after.len() == before.len(),
        i < signal.len() && signal[i] != Ternary::Zero ==> {
            &&& after[i].active
            &&& after[i].index == before[i].index
            &&& after[i].activations@.len() == before[i].activations@.len()
            &&& after[i].activations@[0] == signal[i]
            &&& forall|j: int|
                1 <= j < before[i].activations@.len() ==> #[trigger] after[i].activations@[j]
                    == before[i].activations@[j - 1]
        },
        i < signal.len() && signal[i] == Ternary::Zero ==> {
            &&& !after[i].active
            &&& after[i].index == before[i].index
            &&& after[i].activations@ == before[i].activations@
        },
        i >= signal.len() ==> after[i] == before[i],
{
    assert(after[i] == after[i]);
    if i < signal.len() && signal[i] != Ternary::Zero {
        assert(before[i].activations@.len() > 0);
    }
}

/// One feed-forward step: layer `k` first multiplies the signal by its weights, each
/// output having the value signal times weight, and then gates the products: they pass
/// unchanged when at least `threshold` of them are `Pos`, and become zeros otherwise.
pub proof fn lemma_feed_forward_step(layers: Seq<CortexLayer>, input: Seq<Ternary>, k: nat)
    requires
        k < layers.len(),
    ensures
        ({
            let layer = layers[k as int];
            let prev = feed_forward(layers, input, k);
            let next = feed_forward(layers, input, k + 1);
            let products = weighted(prev, layer.weights@, layer.width as int);
            &&& products.len() <= layer.width
            &&& products.len() <= prev.len()
            &&& products.len() <= layer.weights@.len()
            &&& (products.len() == layer.width || products.len() == prev.len() || products.len()
                == layer.weights@.len())
            &&& forall|i: int|
                0 <= i < products.len() ==> (#[trigger] products[i]).value() == prev[i].value()
                    * layer.weights@[i].value()
            &&& products.filter(|t: Ternary| t == Ternary::Pos).len() >= layer.threshold ==> next
                == products
            &&& products.filter(|t: Ternary| t == Ternary::Pos).len() < layer.threshold ==> {
                &&& next.len() == products.len()
                &&& forall|i: int| 0 <= i < next.len() ==> #[trigger] next[i] == Ternary::Zero
            }
        }),
{
    let layer = layers[k as int];
    let prev = feed_forward(layers, input, k);
    lemma_weighted_values(prev, layer.weights@, layer.width as nat);
    lemma_gate_counts_every_value(
        weighted(prev, layer.weights@, layer.width as int),
        layer.threshold as int,
    );
    assert(feed_forward(layers, input, k + 1) == layer_step(layer, prev));
}

/// With no layers the signal is the input itself.
pub proof fn lemma_feed_forward_start(layers: Seq<CortexLayer>, input: Seq<Ternary>)
    ensures
        feed_forward(layers, input, 0) == input,
{
}

/// The first layer of a relayed pass works on the raw input, exactly as in a plain
/// feed-forward pass, and leaves the relay's buffer untouched.
pub proof fn lemma_relay_first_layer(
    layers: Seq<CortexLayer>,
    gates: Seq<bool>,
    buffer: Seq<Ternary>,
    input: Seq<Ternary>,
)
    requires
        layers.len() >= 1,
    ensures
        relayed(layers, gates, buffer, input, 1) == (feed_forward(layers, input, 1), buffer),
{
    assert(relayed(layers, gates, buffer, input, 0) == (input, buffer));
    assert(feed_forward(layers, input, 0) == input);
}

/// Every later layer of a relayed pass first sends the signal through the relay, which
/// takes it in on its open gates and hands on its whole buffer, and then works on that
/// buffer as a plain layer step does.
pub proof fn lemma_relay_later_layer(
    layers: Seq<CortexLayer>,
    gates: Seq<bool>,
    buffer: Seq<Ternary>,
    input: Seq<Ternary>,
    k: nat,
)
    requires
        1 <= k < layers.len(),
    ensures
        ({
            let prev = relayed(layers, gates, buffer, input, k);
            let next = relayed(layers, gates, buffer, input, k + 1);
            &&& next.1.len() == prev.1.len()
            &&& forall|i: int|
                0 <= i < prev.1.len() ==> #[trigger] next.1[i] == if i < prev.0.len() && gates[i] {
                    prev.0[i]
                } else {
                    prev.1[i]
                }
            &&& next.0 == feed_forward(seq![layers[k as int]], next.1, 1)
        }),
{
    let prev = relayed(layers, gates, buffer, input, k);
    let one = seq![layers[k as int]];
    assert(one[0] == layers[k as int]);
    assert(feed_forward(one, received(prev.1, gates, prev.0), 0) == received(prev.1, gates, prev.0));
}

/// A relayed pass through a single layer is a plain feed-forward pass: no relay happens.
pub proof fn lemma_single_layer_relay_is_plain(
    layers: Seq<CortexLayer>,
    gates: Seq<bool>,
    buffer: Seq<Ternary>,
    input: Seq<Ternary>,
)
    requires
        layers.len() == 1,
    ensures
        relayed(layers, gates, buffer, input, layers.len()).0 == feed_forward(
            layers,
            input,
            layers.len(),
        ),
        relayed(layers, gates, buffer, input, layers.len()).1 == buffer,
{
    lemma_relay_first_layer(layers, gates, buffer, input);
}

/// The widest layer is at least as wide as every layer, and is the width of one of them
/// when there is any.
pub proof fn lemma_max_width(sizes: Seq<(usize, usize)>)
    ensures
        forall|i: int| 0 <= i < sizes.len() ==> #[trigger] sizes[i].0 <= max_width(sizes),
        sizes.len() == 0 ==> max_width(sizes) == 0,
        sizes.len() > 0 ==> exists|i: int| 0 <= i < sizes.len() && #[trigger] sizes[i].0 == max_width(sizes),
    decreases sizes.len(),
{
    if sizes.len() > 0 {
        let rest = sizes.drop_last();
        lemma_max_width(rest);
        assert(forall|i: int| 0 <= i < rest.len() ==> #[trigger] rest[i] == sizes[i]);
        assert forall|i: int| 0 <= i < sizes.len() implies #[trigger] sizes[i].0 <= max_width(
            sizes,
        ) by {
            if i < rest.len() {
                assert(rest[i].0 <= max_width(rest));
            }
        }
        if rest.len() > 0 && sizes.last().0 <= max_width(rest) {
            let j = choose|j: int| 0 <= j < rest.len() && #[trigger] rest[j].0 == max_width(rest);
            assert(sizes[j].0 == max_width(sizes));
        } else {
            assert(sizes[sizes.len() - 1].0 == max_width(sizes));
        }
    }
}

} // verus!
