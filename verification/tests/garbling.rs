use garbled_twopc::circuit::Circuit;
use garbled_twopc::circuit::Gate;
use garbled_twopc::garble::eval_gate_bin;
use garbled_twopc::garble::eval_gate_not;
use garbled_twopc::garble::garble_circuit;
use garbled_twopc::garble::WirePair;

fn pair(l0: u128, l1: u128) -> WirePair {
    // Permutation bits (the low-order bit) must differ within a pair.
    assert_ne!(l0 & 1, l1 & 1);
    WirePair { l0, l1 }
}

fn select(p: &WirePair, v: bool) -> u128 {
    if v {
        p.l1
    } else {
        p.l0
    }
}

fn one_binary_gate(gate: Gate, truth: [bool; 4]) {
    let c = Circuit {
        garbler_width: 1,
        evaluator_width: 1,
        gates: vec![gate],
        outputs: vec![2],
    };
    let pa = pair(0x5a5a_0000_0000_0002, 0xc3c3_0000_0000_0001);
    let pb = pair(0x1133_0000_0000_0005, 0x2244_0000_0000_0008);
    let po = pair(0x9abc_0000_0000_0006, 0x8def_0000_0000_000b);
    let pairs = vec![pa, pb, po];
    let tables = garble_circuit(&c, &pairs);
    assert_eq!(tables.len(), 1);
    assert_eq!(tables[0].rows.len(), 4);
    let mut case: usize = 0;
    for &va in &[false, true] {
        for &vb in &[false, true] {
            let la = select(&pa, va);
            let lb = select(&pb, vb);
            let out = eval_gate_bin(&tables[0].rows, la, lb, 0);
            let expected = select(&po, truth[case]);
            let wrong = select(&po, !truth[case]);
            assert_eq!(out, expected);
            assert_ne!(out, wrong);
            case += 1;
        }
    }
}

#[test]
fn and_gate_decrypts_to_the_true_output_label() {
    one_binary_gate(Gate::And { a: 0, b: 1 }, [false, false, false, true]);
}

#[test]
fn xor_gate_decrypts_to_the_true_output_label() {
    one_binary_gate(Gate::Xor { a: 0, b: 1 }, [false, true, true, false]);
}

#[test]
fn not_gate_decrypts_to_the_true_output_label() {
    let c = Circuit {
        garbler_width: 1,
        evaluator_width: 0,
        gates: vec![Gate::Not { a: 0 }],
        outputs: vec![1],
    };
    let pa = pair(0x0123_0000_0000_0004, 0x4567_0000_0000_0003);
    let po = pair(0x89ab_0000_0000_000a, 0xcdef_0000_0000_000d);
    let pairs = vec![pa, po];
    let tables = garble_circuit(&c, &pairs);
    assert_eq!(tables.len(), 1);
    assert_eq!(tables[0].rows.len(), 2);
    for &va in &[false, true] {
        let out = eval_gate_not(&tables[0].rows, select(&pa, va), 0);
        assert_eq!(out, select(&po, !va));
        assert_ne!(out, select(&po, va));
    }
}
