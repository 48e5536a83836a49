use vstd::prelude::*;

use crate::counting::{count_true, lemma_count_prefix_step, lemma_count_uniform, lemma_count_update, zeros};
use crate::layer::zero_vec;
use crate::ternary::Ternary;

verus! {

/// The buffer after receiving `input`: each channel whose gate is open and that the
/// input reaches takes the input's value; every other channel keeps its value.
pub open spec fn received(buffer: Seq<Ternary>, gates: Seq<bool>, input: Seq<Ternary>) -> Seq<
    Ternary,
> {
    Seq::new(
        buffer.len(),
        |i: int|
            if i < input.len() && gates[i] {
                input[i]
            } else {
                buffer[i]
            },
    )
}

/// The attention after adding `signal`, channel by channel, over the channels it reaches.
pub open spec fn attended(attention: Seq<i32>, signal: Seq<i32>) -> Seq<int> {
    Seq::new(
        attention.len(),
        |i: int|
            if i < signal.len() {
                attention[i] + signal[i]
            } else {
                attention[i] as int
            },
    )
}

/// The gates after attention modulation with hysteresis: a channel that the signal
/// reaches closes when its new attention is below -3, opens when it is above 0, and
/// keeps its gate in between; channels it does not reach keep their gate.
pub open spec fn modulated_gates(gates: Seq<bool>, attention: Seq<i32>, signal: Seq<i32>) -> Seq<
    bool,
> {
    Seq::new(
        gates.len(),
        |i: int|
            if i < signal.len() && i < attention.len() {
                if attention[i] + signal[i] < -3 {
                    false
                } else if attention[i] + signal[i] > 0 {
                    true
                } else {
                    gates[i]
                }
            } else {
                gates[i]
            },
    )
}

/// Adding `signal` to `attention` stays within `i32` on every channel it reaches.
pub open spec fn attention_fits(attention: Seq<i32>, signal: Seq<i32>) -> bool {
    forall|i: int|
        0 <= i < attention.len() && i < signal.len() ==> i32::MIN <= #[trigger] attention[i]
            + signal[i] <= i32::MAX
}

/// Relay between layers: a buffer of channels, each with a gate and an attention score.
#[derive(Debug)]
pub struct Thalamus {
    buffer: Vec<Ternary>,
    gates: Vec<bool>,
    attention: Vec<i32>,
}

impl Thalamus {
    #[verifier::type_invariant]
    spec fn well_formed(self) -> bool {
        &&& self.gates@.len() == self.buffer@.len()
        &&& self.attention@.len() == self.buffer@.len()
    }

    /// The value held on each channel.
    pub closed spec fn buffer_view(&self) -> Seq<Ternary> {
        self.buffer@
    }

    /// Whether each channel's gate is open.
    pub closed spec fn gates_view(&self) -> Seq<bool> {
        self.gates@
    }

    /// The attention score of each channel.
    pub closed spec fn attention_view(&self) -> Seq<i32> {
        self.attention@
    }

    /// `channels` channels, all holding zero, all gates open, all attention zero.
    pub fn new(channels: usize) -> (r: Self)
        ensures
            r.buffer_view() == zeros(channels as nat),
            r.gates_view() == Seq::new(channels as nat, |i: int| true),
            r.attention_view() == Seq::new(channels as nat, |i: int| 0i32),
    {
        let gates = vec![true; channels];
        let attention = vec![0i32; channels];
        assert(gates@ =~= Seq::new(channels as nat, |i: int| true));
        assert(attention@ =~= Seq::new(channels as nat, |i: int| 0i32));
        Thalamus { buffer: zero_vec(channels), gates, attention }
    }

    /// Takes the input into the buffer on every channel whose gate is open.
    pub fn receive(&mut self, input: &[Ternary])
        ensures
            final(self).buffer_view() == received(
                old(self).buffer_view(),
                old(self).gates_view(),
                input@,
            ),
            final(self).gates_view() == old(self).gates_view(),
            final(self).attention_view() == old(self).attention_view(),
    {
        proof {
            use_type_invariant(&*self);
        }
        let ghost b0 = self.buffer@;
        let mut limit = self.buffer.len();
        if input.len() < limit {
            limit = input.len();
        }
        let mut i: usize = 0;
        while i < limit
            invariant
                i <= limit,
                limit <= input.len(),
                limit <= b0.len(),
                limit == b0.len() || limit == input.len(),
                b0 == old(self).buffer@,
                self.gates@ == old(self).gates@,
                self.attention@ == old(self).attention@,
                self.gates@.len() == b0.len(),
                self.attention@.len() == b0.len(),
                self.buffer@.len() == b0.len(),
                forall|j: int|
                    0 <= j < b0.len() ==> #[trigger] self.buffer@[j] == if j < i {
                        received(b0, self.gates@, input@)[j]
                    } else {
                        b0[j]
                    },
            decreases limit - i,
        {
            if self.gates[i] {
                self.buffer[i] = input[i];
            }
            i = i + 1;
        }
        assert(self.buffer@ =~= received(b0, self.gates@, input@));
    }

    /// The buffered values, one per channel.
    pub fn relay(&self) -> (r: &[Ternary])
        ensures
            r@ == self.buffer_view(),
    {
        self.buffer.as_slice()
    }

    /// The gates, one per channel: `true` where the channel is open.
    pub fn gates(&self) -> (r: &[bool])
        ensures
            r@ == self.gates_view(),
    {
        self.gates.as_slice()
    }

    /// Opens or closes one channel; a channel out of range changes nothing.
    pub fn set_gate(&mut self, channel: usize, open: bool)
        ensures
            final(self).gates_view() == if channel < old(self).gates_view().len() {
                old(self).gates_view().update(channel as int, open)
            } else {
                old(self).gates_view()
            },
            final(self).buffer_view() == old(self).buffer_view(),
            final(self).attention_view() == old(self).attention_view(),
    {
        proof {
            use_type_invariant(&*self);
        }
        if channel < self.gates.len() {
            self.gates[channel] = open;
        }
    }

    /// Adds the signal to the attention scores and opens or closes gates with hysteresis.
    pub fn modulate_attention(&mut self, signal: &[i32])
        requires
            attention_fits(old(self).attention_view(), signal@),
        ensures
            final(self).attention_view().len() == old(self).attention_view().len(),
            forall|i: int|
                0 <= i < old(self).attention_view().len() ==> #[trigger] final(self).attention_view()[i]
                    == attended(old(self).attention_view(), signal@)[i],
            forall|i: int|
                0 <= i < old(self).attention_view().len() && i < signal@.len() ==> #[trigger] final(
                self).attention_view()[i] == old(self).attention_view()[i] + signal@[i],
            forall|i: int|
                0 <= i < old(self).attention_view().len() && i >= signal@.len() ==> #[trigger] final(
                self).attention_view()[i] == old(self).attention_view()[i],
            final(self).gates_view() == modulated_gates(
                old(self).gates_view(),
                old(self).attention_view(),
                signal@,
            ),
            final(self).buffer_view() == old(self).buffer_view(),
    {
        proof {
            use_type_invariant(&*self);
        }
        let ghost a0 = self.attention@;
        let ghost g0 = self.gates@;
        let mut limit = self.attention.len();
        if signal.len() < limit {
            limit = signal.len();
        }
        let mut i: usize = 0;
        while i < limit
            invariant
                i <= limit,
                limit <= signal.len(),
                limit <= a0.len(),
                limit == a0.len() || limit == signal.len(),
                a0 == old(self).attention@,
                g0 == old(self).gates@,
                attention_fits(a0, signal@),
                g0.len() == a0.len(),
                self.buffer@ == old(self).buffer@,
                self.buffer@.len() == a0.len(),
                self.attention@.len() == a0.len(),
                self.gates@.len() == a0.len(),
                forall|j: int|
                    0 <= j < a0.len() ==> #[trigger] self.attention@[j] == if j < i {
                        attended(a0, signal@)[j]
                    } else {
                        a0[j] as int
                    },
                forall|j: int|
                    0 <= j < a0.len() ==> #[trigger] self.gates@[j] == if j < i {
                        modulated_gates(g0, a0, signal@)[j]
                    } else {
                        g0[j]
                    },
            decreases limit - i,
        {
            assert(i32::MIN <= a0[i as int] + signal@[i as int] <= i32::MAX);
            let next = self.attention[i] + signal[i];
            self.attention[i] = next;
            if next < -3 {
                self.gates[i] = false;
            } else if next > 0 {
                self.gates[i] = true;
            }
            i = i + 1;
        }
        assert(self.gates@ =~= modulated_gates(g0, a0, signal@));
    }

    /// The number of open channels.
    pub fn open_channel_count(&self) -> (r: usize)
        ensures
            r == count_true(self.gates_view()),
    {
        let mut count: usize = 0;
        let mut i: usize = 0;
        while i < self.gates.len()
            invariant
                i <= self.gates@.len(),
                count <= i,
                count == count_true(self.gates@.take(i as int)),
            decreases self.gates@.len() - i,
        {
            proof {
                lemma_count_prefix_step(self.gates@, |b: bool| b, i as int);
            }
            if self.gates[i] {
                count = count + 1;
            }
            i = i + 1;
        }
        assert(self.gates@.take(self.gates@.len() as int) =~= self.gates@);
        count
    }

    /// Zeroes the buffer and the attention and opens every gate, keeping the channels.
    pub fn reset(&mut self)
        ensures
            final(self).buffer_view() == zeros(old(self).buffer_view().len()),
            final(self).gates_view() == Seq::new(old(self).gates_view().len(), |i: int| true),
            final(self).attention_view() == Seq::new(
                old(self).attention_view().len(),
                |i: int| 0i32,
            ),
    {
        proof {
            use_type_invariant(&*self);
        }
        self.buffer = zero_vec(self.buffer.len());
        let gates = vec![true; self.gates.len()];
        assert(gates@ =~= Seq::new(old(self).gates@.len(), |i: int| true));
        self.gates = gates;
        let attention = vec![0i32; self.attention.len()];
        assert(attention@ =~= Seq::new(old(self).attention@.len(), |i: int| 0i32));
        self.attention = attention;
    }
}

/// A closed gate blocks its channel: receiving leaves the buffered value there; an open
/// gate lets the input through where the input reaches.
pub proof fn lemma_gate_blocks(buffer: Seq<Ternary>, gates: Seq<bool>, input: Seq<Ternary>, i: int)
    requires
        0 <= i < buffer.len(),
        gates.len() == buffer.len(),
    ensures
        !gates[i] ==> received(buffer, gates, input)[i] == buffer[i],
        gates[i] && i < input.len() ==> received(buffer, gates, input)[i] == input[i],
        received(buffer, gates, input).len() == buffer.len(),
{
}

/// After a reset every channel is open, and a relay with all gates open passes on the
/// whole input it receives, as far as the input reaches.
pub proof fn lemma_all_open(buffer: Seq<Ternary>, input: Seq<Ternary>)
    ensures
        count_true(Seq::new(buffer.len(), |i: int| true)) == buffer.len(),
        input.len() >= buffer.len() ==> received(
            buffer,
            Seq::new(buffer.len(), |i: int| true),
            input,
        ) == input.take(buffer.len() as int),
{
    lemma_count_uniform(Seq::new(buffer.len(), |i: int| true), |b: bool| b);
    if input.len() >= buffer.len() {
        assert(received(buffer, Seq::new(buffer.len(), |i: int| true), input) =~= input.take(
            buffer.len() as int,
        ));
    }
}

/// Closing an open gate lowers the open count by one, opening a closed one raises it by
/// one, and setting a gate to what it already is leaves the count alone.
pub proof fn lemma_set_gate_count(gates: Seq<bool>, channel: int, open: bool)
    requires
        0 <= channel < gates.len(),
    ensures
        count_true(gates.update(channel, open)) + (if gates[channel] { 1int } else { 0int })
            == count_true(gates) + (if open { 1int } else { 0int }),
{
    lemma_count_update(gates, |b: bool| b, channel, open);
}

/// Attention accumulates: on every channel that both signals reach, modulating with
/// `s1` and then with `s2` leaves the old score plus both signals; a channel a signal does
/// not reach keeps its score.
pub proof fn lemma_attention_accumulates(
    attention: Seq<i32>,
    s1: Seq<i32>,
    s2: Seq<i32>,
    after_first: Seq<i32>,
)
    requires
        after_first.len() == attention.len(),
        forall|i: int|
            0 <= i < attention.len() ==> #[trigger] after_first[i] == attended(attention, s1)[i],
    ensures
        attended(attention, s1).len() == attention.len(),
        forall|i: int|
            0 <= i < attention.len() && i < s1.len() && i < s2.len() ==> #[trigger] attended(
                after_first,
                s2,
            )[i] == attention[i] + s1[i] + s2[i],
        forall|i: int|
            0 <= i < attention.len() && i >= s1.len() ==> #[trigger] attended(attention, s1)[i]
                == attention[i],
{
    assert forall|i: int|
        0 <= i < attention.len() && i < s1.len() && i < s2.len() implies #[trigger] attended(
            after_first,
            s2,
        )[i] == attention[i] + s1[i] + s2[i] by {
        assert(after_first[i] == attended(attention, s1)[i]);
    }
}

/// On a channel that the signal reaches, modulation closes its gate when the new score
/// (old score plus signal) is below -3, opens it when that score is above 0, and leaves it
/// otherwise; a channel the signal does not reach keeps its gate.
pub proof fn lemma_gate_rule(gates: Seq<bool>, attention: Seq<i32>, signal: Seq<i32>, i: int)
    requires
        0 <= i < gates.len(),
        gates.len() == attention.len(),
    ensures
        modulated_gates(gates, attention, signal).len() == gates.len(),
        i < signal.len() && attention[i] + signal[i] < -3 ==> !modulated_gates(
            gates,
            attention,
            signal,
        )[i],
        i < signal.len() && attention[i] + signal[i] > 0 ==> modulated_gates(
            gates,
            attention,
            signal,
        )[i],
        !(i < signal.len() && (attention[i] + signal[i] < -3 || attention[i] + signal[i] > 0))
            ==> modulated_gates(gates, attention, signal)[i] == gates[i],
{
}

/// Hysteresis: once attention has closed a gate, a signal that leaves the attention at
/// or below zero keeps it closed; only attention above zero reopens it.
pub proof fn lemma_hysteresis(gates: Seq<bool>, attention: Seq<i32>, signal: Seq<i32>, i: int)
    requires
        0 <= i < gates.len(),
        i < attention.len(),
        i < signal.len(),
        !gates[i],
    ensures
        modulated_gates(gates, attention, signal)[i] <==> attention[i] + signal[i] > 0,
{
}

impl Clone for Thalamus {
    fn clone(&self) -> (r: Self)
        ensures
            r.buffer_view() == self.buffer_view(),
            r.gates_view() == self.gates_view(),
            r.attention_view() == self.attention_view(),
    {
        proof {
            use_type_invariant(self);
        }
        let buffer = self.buffer.clone();
        let gates = self.gates.clone();
        let attention = self.attention.clone();
        assert(buffer@ =~= self.buffer@);
        assert(gates@ =~= self.gates@);
        assert(attention@ =~= self.attention@);
        Thalamus { buffer, gates, attention }
    }
}

} // verus!
