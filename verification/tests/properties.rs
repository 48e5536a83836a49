use ternary_cortex::{
    ternary_mul, CorpusCallosum, Cortex, CortexLayer, CorticalColumn, CorticalMap, Ternary,
    Thalamus,
};

const ALL: [Ternary; 3] = [Ternary::Neg, Ternary::Zero, Ternary::Pos];

#[test]
fn round_trip_through_i8() {
    for t in ALL {
        assert_eq!(Ternary::from_i8(t.to_i8()), Some(t));
    }
    assert_eq!(Ternary::from_i8(-2), None);
    assert_eq!(Ternary::from_i8(i8::MIN), None);
    assert_eq!(Ternary::from_i8(i8::MAX), None);
}

#[test]
fn product_is_value_product_and_commutes() {
    for a in ALL {
        for b in ALL {
            let r = ternary_mul(a, b);
            assert_eq!(r.to_i8(), a.to_i8() * b.to_i8());
            assert_eq!(r, ternary_mul(b, a));
            for c in ALL {
                assert_eq!(ternary_mul(r, c), ternary_mul(a, ternary_mul(b, c)));
            }
        }
        assert_eq!(ternary_mul(Ternary::Pos, a), a);
    }
}

#[test]
fn process_stops_at_shortest_of_width_input_weights() {
    let mut layer = CortexLayer::new(7, 4, 0);
    layer.weights = vec![Ternary::Neg, Ternary::Pos, Ternary::Zero];
    let out = layer.process(&[Ternary::Pos, Ternary::Neg, Ternary::Pos, Ternary::Pos, Ternary::Pos]);
    assert_eq!(out, vec![Ternary::Neg, Ternary::Neg, Ternary::Zero]);
    let short = layer.process(&[Ternary::Neg]);
    assert_eq!(short, vec![Ternary::Pos]);
    let mut narrow = CortexLayer::new(0, 1, 0);
    narrow.weights = vec![Ternary::Pos; 3];
    assert_eq!(narrow.process(&[Ternary::Neg, Ternary::Neg]), vec![Ternary::Neg]);
}

#[test]
fn new_layer_fields() {
    let layer = CortexLayer::new(3, 5, 2);
    assert_eq!(layer.id, 3);
    assert_eq!(layer.width, 5);
    assert_eq!(layer.threshold, 2);
    assert_eq!(layer.learning_rate, 10);
    assert_eq!(layer.weights, vec![Ternary::Zero; 5]);
}

#[test]
fn gate_is_idempotent_and_zero_threshold_passes() {
    let layer = CortexLayer::new(0, 3, 2);
    let vals = vec![Ternary::Pos, Ternary::Neg, Ternary::Neg];
    let once = layer.threshold_gate(&vals);
    assert_eq!(once, vec![Ternary::Zero; 3]);
    assert_eq!(layer.threshold_gate(&once), once);
    let open = CortexLayer::new(0, 3, 0);
    assert_eq!(open.threshold_gate(&vals), vals);
    assert_eq!(layer.threshold_gate(&[]), Vec::<Ternary>::new());
}

#[test]
fn adapt_respects_schedule_and_is_idempotent() {
    let mut layer = CortexLayer::new(0, 12, 1);
    layer.learning_rate = 2;
    let input = vec![Ternary::Neg; 12];
    let error = vec![Ternary::Pos; 12];
    layer.adapt(&input, &error);
    let expected: Vec<Ternary> = (0..12)
        .map(|i| if i % 10 < 2 { Ternary::Neg } else { Ternary::Zero })
        .collect();
    assert_eq!(layer.weights, expected);
    layer.adapt(&input, &error);
    assert_eq!(layer.weights, expected);
    layer.adapt(&input, &vec![Ternary::Zero; 12]);
    assert_eq!(layer.weights, expected);
}

#[test]
fn adapt_keeps_weight_where_input_is_zero() {
    let mut layer = CortexLayer::new(0, 2, 1);
    layer.weights = vec![Ternary::Neg, Ternary::Pos];
    layer.adapt(&[Ternary::Zero, Ternary::Neg], &[Ternary::Neg, Ternary::Neg]);
    assert_eq!(layer.weights, vec![Ternary::Neg, Ternary::Pos]);
}

#[test]
fn reset_layer_takes_width() {
    let mut layer = CortexLayer::new(0, 3, 1);
    layer.weights = vec![Ternary::Pos; 6];
    layer.reset();
    assert_eq!(layer.weights, vec![Ternary::Zero; 3]);
}

#[test]
fn column_outputs_first_value_after_depth_shifts() {
    let mut col = CorticalColumn::new(4, 3);
    col.activate(Ternary::Neg);
    col.activate(Ternary::Pos);
    assert_eq!(col.output(), Ternary::Zero);
    col.activate(Ternary::Zero);
    assert!(!col.active);
    assert_eq!(col.activations, vec![Ternary::Pos, Ternary::Neg, Ternary::Zero]);
    col.activate(Ternary::Pos);
    assert!(col.active);
    assert_eq!(col.output(), Ternary::Neg);
    assert_eq!(col.index, 4);
    col.reset();
    assert_eq!(col.activations, vec![Ternary::Zero; 3]);
    assert!(!col.active);
}

#[test]
fn empty_column_outputs_zero() {
    let mut col = CorticalColumn::new(0, 0);
    assert_eq!(col.output(), Ternary::Zero);
    col.activate(Ternary::Zero);
    assert!(!col.active);
}

#[test]
fn thalamus_set_gate_out_of_range_and_counts() {
    let mut t = Thalamus::new(3);
    t.set_gate(5, false);
    assert_eq!(t.open_channel_count(), 3);
    t.set_gate(1, false);
    t.set_gate(1, false);
    assert_eq!(t.open_channel_count(), 2);
    t.set_gate(1, true);
    assert_eq!(t.open_channel_count(), 3);
}

#[test]
fn thalamus_short_and_long_input() {
    let mut t = Thalamus::new(3);
    t.receive(&[Ternary::Neg]);
    assert_eq!(t.relay(), &[Ternary::Neg, Ternary::Zero, Ternary::Zero]);
    t.receive(&[Ternary::Pos, Ternary::Pos, Ternary::Pos, Ternary::Neg]);
    assert_eq!(t.relay(), &[Ternary::Pos, Ternary::Pos, Ternary::Pos]);
}

#[test]
fn attention_hysteresis() {
    let mut t = Thalamus::new(3);
    t.modulate_attention(&[-4, -3, 1]);
    assert_eq!(t.gates(), &[false, true, true]);
    t.modulate_attention(&[3, -1, -1]);
    // attention is now [-1, -4, 0]: channel 0 stays closed, channel 1 closes,
    // channel 2 sits at zero and keeps its gate open
    assert_eq!(t.gates(), &[false, false, true]);
    t.modulate_attention(&[2]);
    assert_eq!(t.gates(), &[true, false, true]);
    t.reset();
    assert_eq!(t.gates(), &[true, true, true]);
    assert_eq!(t.relay(), &[Ternary::Zero; 3]);
}

#[test]
fn callosum_both_directions() {
    let mut cc = CorpusCallosum::new(3);
    cc.receive_right(&[Ternary::Neg, Ternary::Pos]);
    assert_eq!(cc.transfer_right_to_left(), vec![Ternary::Neg, Ternary::Pos, Ternary::Zero]);
    assert_eq!(cc.transfer_left_to_right(), vec![Ternary::Zero; 3]);
    cc.weights = vec![Ternary::Neg, Ternary::Neg];
    assert_eq!(cc.transfer_right_to_left(), vec![Ternary::Pos, Ternary::Neg]);
    assert_eq!(cc.fiber_count, 3);
}

#[test]
fn sever_counts() {
    let mut cc = CorpusCallosum::new(4);
    assert_eq!(cc.active_fiber_count(), 4);
    cc.sever_fiber(2);
    cc.sever_fiber(2);
    cc.sever_fiber(9);
    assert_eq!(cc.active_fiber_count(), 3);
    cc.receive_left(&[Ternary::Neg; 4]);
    assert_eq!(
        cc.transfer_left_to_right(),
        vec![Ternary::Neg, Ternary::Neg, Ternary::Zero, Ternary::Neg]
    );
}

#[test]
fn map_read_after_write() {
    let mut m = CorticalMap::new(3, 2);
    assert_eq!(m.grid.len(), 6);
    assert!(m.set(2, 1, Ternary::Neg));
    assert!(!m.set(3, 0, Ternary::Pos));
    assert!(!m.set(0, 2, Ternary::Pos));
    assert_eq!(m.get(2, 1), Some(Ternary::Neg));
    assert_eq!(m.grid[5], Ternary::Neg);
    assert_eq!(m.get(1, 1), Some(Ternary::Zero));
    assert_eq!(m.get(0, 2), None);
    m.clear();
    assert_eq!(m.get(2, 1), Some(Ternary::Zero));
}

#[test]
fn map_neighbors_order_and_values() {
    let mut m = CorticalMap::new(3, 3);
    m.set(0, 1, Ternary::Neg);
    m.set(1, 2, Ternary::Pos);
    let n = m.neighbors(1, 1);
    assert_eq!(
        n,
        vec![
            (0, 1, Ternary::Neg),
            (2, 1, Ternary::Zero),
            (1, 0, Ternary::Zero),
            (1, 2, Ternary::Pos)
        ]
    );
    let edge = m.neighbors(2, 1);
    assert_eq!(edge.len(), 3);
    let outside = m.neighbors(5, 5);
    assert!(outside.is_empty());
}

#[test]
fn map_positive_moments() {
    let mut m = CorticalMap::new(4, 3);
    assert_eq!(m.positive_moments(), Some((0, 0, 0)));
    m.set(0, 0, Ternary::Pos);
    m.set(3, 2, Ternary::Pos);
    m.set(1, 2, Ternary::Neg);
    assert_eq!(m.positive_moments(), Some((3, 2, 2)));
}

#[test]
fn cortex_new_shapes() {
    let cortex = Cortex::new(&[(2, 0), (5, 1), (3, 2)]);
    assert_eq!(cortex.depth(), 3);
    assert_eq!(cortex.width(), 5);
    for (i, layer) in cortex.layers.iter().enumerate() {
        assert_eq!(layer.id, i);
    }
    assert_eq!(cortex.layers[1].threshold, 1);
    for (i, col) in cortex.columns.iter().enumerate() {
        assert_eq!(col.index, i);
        assert_eq!(col.activations.len(), 3);
    }
    assert_eq!(cortex.thalamus.relay().len(), 5);
    let empty = Cortex::new(&[]);
    assert_eq!(empty.depth(), 0);
    assert_eq!(empty.width(), 0);
}

#[test]
fn cortex_process_feeds_columns() {
    let mut cortex = Cortex::new(&[(3, 1)]);
    cortex.layers[0].weights = vec![Ternary::Pos, Ternary::Neg, Ternary::Zero];
    let out = cortex.process(&[Ternary::Pos, Ternary::Pos, Ternary::Pos]);
    assert_eq!(out, vec![Ternary::Pos, Ternary::Neg, Ternary::Zero]);
    assert!(cortex.columns[0].active);
    assert!(cortex.columns[1].active);
    assert!(!cortex.columns[2].active);
    assert_eq!(cortex.columns[1].output(), Ternary::Neg);
}

#[test]
fn cortex_relay_blocks_closed_channel() {
    let mut cortex = Cortex::new(&[(3, 1), (3, 1)]);
    for layer in &mut cortex.layers {
        for w in &mut layer.weights {
            *w = Ternary::Pos;
        }
    }
    cortex.thalamus.set_gate(1, false);
    let out = cortex.process_with_relay(&[Ternary::Pos, Ternary::Neg, Ternary::Pos]);
    assert_eq!(out, vec![Ternary::Pos, Ternary::Zero, Ternary::Pos]);
    assert_eq!(cortex.thalamus.relay(), &[Ternary::Pos, Ternary::Zero, Ternary::Pos]);
}
