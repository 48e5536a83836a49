use ternary_cortex::{
    ternary_mul, CorpusCallosum, Cortex, CortexLayer, CorticalColumn, CorticalMap, Ternary,
    Thalamus,
};

#[test]
fn test_ternary_from_i8() {
    assert_eq!(Ternary::from_i8(-1), Some(Ternary::Neg));
    assert_eq!(Ternary::from_i8(0), Some(Ternary::Zero));
    assert_eq!(Ternary::from_i8(1), Some(Ternary::Pos));
    assert_eq!(Ternary::from_i8(2), None);
}

#[test]
fn test_ternary_to_i8() {
    assert_eq!(Ternary::Neg.to_i8(), -1);
    assert_eq!(Ternary::Zero.to_i8(), 0);
    assert_eq!(Ternary::Pos.to_i8(), 1);
}

#[test]
fn test_ternary_mul_table() {
    assert_eq!(ternary_mul(Ternary::Pos, Ternary::Pos), Ternary::Pos);
    assert_eq!(ternary_mul(Ternary::Neg, Ternary::Neg), Ternary::Pos);
    assert_eq!(ternary_mul(Ternary::Pos, Ternary::Neg), Ternary::Neg);
    assert_eq!(ternary_mul(Ternary::Neg, Ternary::Pos), Ternary::Neg);
    assert_eq!(ternary_mul(Ternary::Zero, Ternary::Pos), Ternary::Zero);
    assert_eq!(ternary_mul(Ternary::Pos, Ternary::Zero), Ternary::Zero);
    assert_eq!(ternary_mul(Ternary::Zero, Ternary::Zero), Ternary::Zero);
}

#[test]
fn test_cortex_layer_process() {
    let mut layer = CortexLayer::new(0, 3, 1);
    layer.weights = vec![Ternary::Pos, Ternary::Neg, Ternary::Pos];
    let input = vec![Ternary::Pos, Ternary::Pos, Ternary::Neg];
    let out = layer.process(&input);
    assert_eq!(out, vec![Ternary::Pos, Ternary::Neg, Ternary::Neg]);
}

#[test]
fn test_cortex_layer_threshold_gate_pass() {
    let layer = CortexLayer::new(0, 4, 2);
    let vals = vec![Ternary::Pos, Ternary::Pos, Ternary::Zero, Ternary::Neg];
    let gated = layer.threshold_gate(&vals);
    assert_eq!(gated, vals);
}

#[test]
fn test_cortex_layer_threshold_gate_block() {
    let layer = CortexLayer::new(0, 4, 3);
    let vals = vec![Ternary::Pos, Ternary::Pos, Ternary::Zero, Ternary::Neg];
    let gated = layer.threshold_gate(&vals);
    assert_eq!(gated, vec![Ternary::Zero; 4]);
}

#[test]
fn test_cortex_layer_adapt() {
    let mut layer = CortexLayer::new(0, 3, 1);
    let input = vec![Ternary::Pos, Ternary::Neg, Ternary::Zero];
    let error = vec![Ternary::Pos, Ternary::Neg, Ternary::Pos];
    layer.adapt(&input, &error);
    // Hebbian rule: w[i] = sign(x[i] × e[i])
    // i=0: sign(+1 × +1) = +1 → Pos
    assert_eq!(layer.weights[0], Ternary::Pos);
    // i=1: sign(-1 × -1) = +1 → Pos
    assert_eq!(layer.weights[1], Ternary::Pos);
    // i=2: input is Zero → weight unchanged (stays Zero)
    assert_eq!(layer.weights[2], Ternary::Zero);
}

#[test]
fn test_cortex_layer_adapt_all_nonzero_combos() {
    // Verify the full Hebbian truth table: w[i] = sign(x[i] × e[i])
    let mut layer = CortexLayer::new(0, 4, 1);
    let input = vec![Ternary::Pos, Ternary::Neg, Ternary::Pos, Ternary::Neg];
    let error = vec![Ternary::Pos, Ternary::Pos, Ternary::Neg, Ternary::Neg];
    layer.adapt(&input, &error);
    assert_eq!(layer.weights[0], Ternary::Pos); // +1 × +1 = +1
    assert_eq!(layer.weights[1], Ternary::Neg); // -1 × +1 = -1
    assert_eq!(layer.weights[2], Ternary::Neg); // +1 × -1 = -1
    assert_eq!(layer.weights[3], Ternary::Pos); // -1 × -1 = +1
}

#[test]
fn test_cortex_layer_reset() {
    let mut layer = CortexLayer::new(0, 3, 1);
    layer.weights = vec![Ternary::Pos; 3];
    layer.reset();
    assert!(layer.weights.iter().all(|&w| w == Ternary::Zero));
}

#[test]
fn test_cortical_column_activate() {
    let mut col = CorticalColumn::new(0, 3);
    col.activate(Ternary::Pos);
    assert!(col.active);
    assert_eq!(col.activations[0], Ternary::Pos);
}

#[test]
fn test_cortical_column_shift() {
    let mut col = CorticalColumn::new(0, 3);
    col.activate(Ternary::Pos);
    col.activate(Ternary::Neg);
    assert_eq!(col.activations[0], Ternary::Neg);
    assert_eq!(col.activations[1], Ternary::Pos);
    assert_eq!(col.activations[2], Ternary::Zero);
}

#[test]
fn test_cortical_column_output() {
    let mut col = CorticalColumn::new(0, 2);
    col.activate(Ternary::Pos);
    col.activate(Ternary::Neg);
    assert_eq!(col.output(), Ternary::Pos);
}

#[test]
fn test_cortical_column_deactivate_on_zero() {
    let mut col = CorticalColumn::new(0, 2);
    col.activate(Ternary::Pos);
    col.activate(Ternary::Zero);
    assert!(!col.active);
}

#[test]
fn test_thalamus_receive_and_relay() {
    let mut t = Thalamus::new(3);
    t.receive(&[Ternary::Pos, Ternary::Neg, Ternary::Zero]);
    assert_eq!(t.relay(), &[Ternary::Pos, Ternary::Neg, Ternary::Zero]);
}

#[test]
fn test_thalamus_gate_blocks() {
    let mut t = Thalamus::new(3);
    t.set_gate(1, false);
    t.receive(&[Ternary::Pos, Ternary::Neg, Ternary::Pos]);
    assert_eq!(t.relay()[1], Ternary::Zero); // gate blocked
    assert_eq!(t.relay()[0], Ternary::Pos);
}

#[test]
fn test_thalamus_attention_modulation() {
    let mut t = Thalamus::new(2);
    t.modulate_attention(&[-5, 2]);
    assert!(!t.gates()[0]); // attention < -3
    assert!(t.gates()[1]);
}

#[test]
fn test_corpus_callosum_transfer() {
    let mut cc = CorpusCallosum::new(3);
    cc.receive_left(&[Ternary::Pos, Ternary::Neg, Ternary::Zero]);
    let right = cc.transfer_left_to_right();
    assert_eq!(right, vec![Ternary::Pos, Ternary::Neg, Ternary::Zero]);
}

#[test]
fn test_corpus_callosum_sever() {
    let mut cc = CorpusCallosum::new(3);
    cc.sever_fiber(1);
    assert_eq!(cc.active_fiber_count(), 2);
    cc.receive_left(&[Ternary::Pos, Ternary::Pos, Ternary::Pos]);
    let right = cc.transfer_left_to_right();
    assert_eq!(right[1], Ternary::Zero); // severed
}

#[test]
fn test_cortical_map_set_get() {
    let mut m = CorticalMap::new(3, 3);
    assert!(m.set(1, 2, Ternary::Pos));
    assert_eq!(m.get(1, 2), Some(Ternary::Pos));
    assert_eq!(m.get(0, 0), Some(Ternary::Zero));
    assert_eq!(m.get(3, 0), None); // out of bounds
}

#[test]
fn test_cortical_map_neighbors() {
    let mut m = CorticalMap::new(3, 3);
    m.set(1, 1, Ternary::Pos);
    let n = m.neighbors(1, 1);
    assert_eq!(n.len(), 4); // all 4 neighbors in interior
}

#[test]
fn test_cortical_map_neighbors_corner() {
    let m = CorticalMap::new(3, 3);
    let n = m.neighbors(0, 0);
    assert_eq!(n.len(), 2); // corner has 2 neighbors
}

#[test]
fn test_cortex_process() {
    let mut cortex = Cortex::new(&[(4, 1), (4, 1)]);
    // Set all weights to Pos on both layers
    for layer in &mut cortex.layers {
        for w in &mut layer.weights {
            *w = Ternary::Pos;
        }
    }
    let input = vec![Ternary::Pos, Ternary::Pos, Ternary::Pos, Ternary::Pos];
    let out = cortex.process(&input);
    // Layer 0: Pos⊙Pos=Pos for all 4, threshold 1: 4≥1 → [Pos;4]
    // Layer 1: Pos⊙Pos=Pos for all 4, threshold 1: 4≥1 → [Pos;4]
    assert_eq!(out, vec![Ternary::Pos; 4]);
}

#[test]
fn test_cortex_process_threshold_blocks() {
    let mut cortex = Cortex::new(&[(4, 1), (4, 3)]);
    for layer in &mut cortex.layers {
        for w in &mut layer.weights {
            *w = Ternary::Pos;
        }
    }
    // Only 2 positives — layer 1 threshold is 3, so output is blocked
    let input = vec![Ternary::Pos, Ternary::Pos, Ternary::Zero, Ternary::Zero];
    let out = cortex.process(&input);
    // Layer 0: [Pos,Pos,Zero,Zero], threshold 1: 2≥1 → pass
    // Layer 1: [Pos,Pos,Zero,Zero], threshold 3: 2<3 → blocked → [Zero;4]
    assert_eq!(out, vec![Ternary::Zero; 4]);
}

#[test]
fn test_cortex_depth_and_width() {
    let cortex = Cortex::new(&[(8, 1), (6, 2), (4, 1)]);
    assert_eq!(cortex.depth(), 3);
    assert_eq!(cortex.width(), 8); // max width
}

#[test]
fn test_cortex_process_with_relay() {
    let mut cortex = Cortex::new(&[(3, 1), (3, 1)]);
    for layer in &mut cortex.layers {
        for w in &mut layer.weights {
            *w = Ternary::Pos;
        }
    }
    let input = vec![Ternary::Pos, Ternary::Pos, Ternary::Pos];
    let out = cortex.process_with_relay(&input);
    // Layer 0: Pos⊙Pos=Pos, threshold 1: 3≥1 → [Pos;3]
    // Relay (all gates open): [Pos;3]
    // Layer 1: Pos⊙Pos=Pos, threshold 1: 3≥1 → [Pos;3]
    assert_eq!(out, vec![Ternary::Pos; 3]);
}

#[test]
fn test_thalamus_open_channel_count() {
    let mut t = Thalamus::new(4);
    assert_eq!(t.open_channel_count(), 4);
    t.set_gate(0, false);
    t.set_gate(2, false);
    assert_eq!(t.open_channel_count(), 2);
}

#[test]
fn test_thalamus_reset() {
    let mut t = Thalamus::new(2);
    t.receive(&[Ternary::Pos, Ternary::Neg]);
    t.set_gate(0, false);
    t.reset();
    assert_eq!(t.relay(), &[Ternary::Zero, Ternary::Zero]);
    assert_eq!(t.open_channel_count(), 2);
}
