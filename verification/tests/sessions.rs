use garbled_twopc::bits::u128_to_bits;
use garbled_twopc::circuit::Circuit;
use garbled_twopc::circuit::Gate;
use garbled_twopc::errors::TwopcError;
use garbled_twopc::gadgets::adder_circuit;
use garbled_twopc::session::garbled_add;
use garbled_twopc::session::garbled_compare;
use garbled_twopc::session::garbled_sum;
use garbled_twopc::session::run_session;
use garbled_twopc::session::Evaluator;
use garbled_twopc::session::Garbler;
use garbled_twopc::session::ResultMsg;
use garbled_twopc::session::TablesMsg;

#[test]
fn sum_fifteen_against_zero() {
    // Garbler holds 15, evaluator holds 0: the decoded sum is 15.
    assert_eq!(garbled_sum(vec![15u16]), Ok(15));
    assert_eq!(garbled_add(15, 0, 8), Ok(15));
}

#[test]
fn eight_bit_sum_wraps_around() {
    // 200 + 56 = 256, which wraps to 0 at an 8-bit width.
    assert_eq!(garbled_add(200, 56, 8), Ok(0));
}

#[test]
fn small_adder_sweep() {
    for a in 0u64..4 {
        for b in 0u64..4 {
            assert_eq!(garbled_add(a, b, 2), Ok(((a + b) % 4) as u128));
        }
    }
}

#[test]
fn ages_against_threshold() {
    // Ages {16, 20, 15} against the constant 18: {false, true, false}.
    let expected = [(16u64, false), (20u64, true), (15u64, false)];
    for &(age, over) in &expected {
        assert_eq!(garbled_compare(age, 18, 8), Ok(over));
    }
}

#[test]
fn comparator_boundaries() {
    // A tie at every bit decides to true, and the extremes order as
    // numbers do.
    assert_eq!(garbled_compare(18, 18, 8), Ok(true));
    assert_eq!(garbled_compare(255, 0, 8), Ok(true));
    assert_eq!(garbled_compare(0, 255, 8), Ok(false));
    assert_eq!(garbled_compare(0, 0, 8), Ok(true));
}

#[test]
fn full_width_sum() {
    assert_eq!(garbled_sum(vec![65535u16, 65535, 1]), Ok(131071));
}

#[test]
fn width_mismatch_is_rejected_before_the_protocol() {
    let c = adder_circuit(8);
    let short = u128_to_bits(3, 4);
    let good = u128_to_bits(3, 8);
    assert_eq!(
        run_session(&c, short.clone(), good.clone()).err(),
        Some(TwopcError::WidthMismatch)
    );
    assert_eq!(
        run_session(&c, good, short).err(),
        Some(TwopcError::WidthMismatch)
    );
}

#[test]
fn malformed_circuit_is_rejected() {
    // Gate 0 reads wire 5, which is not defined yet.
    let c = Circuit {
        garbler_width: 1,
        evaluator_width: 1,
        gates: vec![Gate::And { a: 0, b: 5 }],
        outputs: vec![2],
    };
    let bits = u128_to_bits(1, 1);
    assert_eq!(
        run_session(&c, bits.clone(), bits).err(),
        Some(TwopcError::MalformedCircuit)
    );
}

#[test]
fn too_many_output_wires_are_rejected() {
    let c = Circuit {
        garbler_width: 1,
        evaluator_width: 1,
        gates: vec![],
        outputs: vec![0; 129],
    };
    let bits = u128_to_bits(1, 1);
    assert_eq!(
        run_session(&c, bits.clone(), bits).err(),
        Some(TwopcError::OutputTooWide)
    );
}

#[test]
fn evaluator_rejects_a_malformed_table_blob() {
    let c = adder_circuit(1);
    let ev = Evaluator::new(&c, u128_to_bits(1, 1)).unwrap();
    let tm = TablesMsg { garbler_labels: vec![], tables: vec![] };
    let my_labels = vec![0u128];
    assert_eq!(ev.evaluate(&c, &tm, &my_labels).err(), Some(TwopcError::MalformedTables));
}

#[test]
fn corrupted_table_surfaces_a_decode_mismatch() {
    // A full session driven message by message, with one garbled-table
    // row flipped in transit: the garbler must report a decode mismatch,
    // not a default result.
    let c = adder_circuit(1);
    let gb = Garbler::new(&c, u128_to_bits(1, 1)).unwrap();
    let mut ev = Evaluator::new(&c, u128_to_bits(1, 1)).unwrap();
    ev.set_setup(&gb.setup_msg());
    let mut my_labels = Vec::new();
    for i in 0..c.evaluator_width {
        let req = ev.ot_request_msg(&c, i);
        let rep = gb.ot_reply_msg(&c, i, &req).unwrap();
        my_labels.push(ev.ot_receive_label(&c, i, &rep).unwrap());
    }
    let mut tm = gb.tables_msg(&c);
    tm.tables[0].rows[0] ^= 1u128 << 77;
    tm.tables[0].rows[1] ^= 1u128 << 77;
    tm.tables[0].rows[2] ^= 1u128 << 77;
    tm.tables[0].rows[3] ^= 1u128 << 77;
    let all_labels = ev.evaluate(&c, &tm, &my_labels).unwrap();
    let rm = ev.result_msg(&c, &all_labels);
    assert_eq!(gb.finish(&c, &rm), Err(TwopcError::DecodeMismatch));
}

#[test]
fn message_level_session_decodes_on_both_sides() {
    // The same message sequence without corruption: both parties decode
    // the same sum.
    let c = adder_circuit(8);
    let gb = Garbler::new(&c, u128_to_bits(150, 8)).unwrap();
    let mut ev = Evaluator::new(&c, u128_to_bits(51, 8)).unwrap();
    ev.set_setup(&gb.setup_msg());
    let mut my_labels = Vec::new();
    for i in 0..c.evaluator_width {
        let req = ev.ot_request_msg(&c, i);
        let rep = gb.ot_reply_msg(&c, i, &req).unwrap();
        my_labels.push(ev.ot_receive_label(&c, i, &rep).unwrap());
    }
    let tm = gb.tables_msg(&c);
    let all_labels = ev.evaluate(&c, &tm, &my_labels).unwrap();
    let rm = ev.result_msg(&c, &all_labels);
    let dm = gb.decode_msg(&c);
    assert_eq!(ev.decode_result(&rm, &dm), Ok(201));
    assert_eq!(gb.finish(&c, &rm), Ok(201));
}

#[test]
fn garbler_rejects_an_unknown_output_label() {
    let c = adder_circuit(1);
    let gb = Garbler::new(&c, u128_to_bits(1, 1)).unwrap();
    let wire = c.outputs[0];
    let neither = gb.pairs[wire].l0 ^ 0b100;
    let res = ResultMsg { out_labels: vec![neither] };
    assert_eq!(gb.finish(&c, &res).err(), Some(TwopcError::DecodeMismatch));
}
