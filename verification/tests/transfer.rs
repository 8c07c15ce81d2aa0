use garbled_twopc::errors::TwopcError;
use garbled_twopc::garble::gate_pad;
use garbled_twopc::ot::ot_receive;
use garbled_twopc::ot::ot_reply;
use garbled_twopc::ot::ot_request;
use garbled_twopc::ot::ot_sender_setup;
use garbled_twopc::ot::random_group_element;
use garbled_twopc::ot::GROUP_MOD;

const M0: u128 = 0x1111_2222_3333_4444_5555_6666_7777_8888;
const M1: u128 = 0xaaaa_bbbb_cccc_dddd_eeee_ffff_0000_9999;

fn one_transfer(choice: bool) -> u128 {
    let sk: u64 = 7_654_321;
    let x: u64 = 1_234_567;
    let other: u64 = 42_424_242;
    let big_a = ot_sender_setup(sk);
    let (b0, b1) = ot_request(choice, x, other);
    let (e0, e1) = ot_reply(sk, b0, b1, M0, M1).unwrap();
    ot_receive(big_a, x, choice, e0, e1).unwrap()
}

#[test]
fn receiver_obtains_exactly_the_chosen_message() {
    assert_eq!(one_transfer(false), M0);
    assert_eq!(one_transfer(true), M1);
    assert_ne!(one_transfer(false), one_transfer(true));
}

#[test]
fn unselected_message_stays_hidden() {
    // The receiver's whole final state after a transfer with choice bit
    // false: its chosen message and the pad it can derive.  Unblinding
    // the other ciphertext with that one pad must not yield the other
    // message.
    let sk: u64 = 99_999;
    let x: u64 = 1_048_575;
    let other: u64 = 31_415_926;
    let big_a = ot_sender_setup(sk);
    let (b0, b1) = ot_request(false, x, other);
    let (e0, e1) = ot_reply(sk, b0, b1, M0, M1).unwrap();
    let m = ot_receive(big_a, x, false, e0, e1).unwrap();
    assert_eq!(m, M0);
    let receiver_pad = e0 ^ m;
    assert_ne!(e1 ^ receiver_pad, M1);
}

#[test]
fn malformed_transfer_messages_abort() {
    assert_eq!(
        ot_reply(3, GROUP_MOD, 0, M0, M1),
        Err(TwopcError::MalformedOtMessage)
    );
    assert_eq!(
        ot_reply(3, 0, u64::MAX, M0, M1),
        Err(TwopcError::MalformedOtMessage)
    );
    assert_eq!(
        ot_receive(GROUP_MOD, 5, false, 1, 2),
        Err(TwopcError::MalformedOtMessage)
    );
}

#[test]
fn group_elements_stay_in_range() {
    for _ in 0..32 {
        assert!(random_group_element() < GROUP_MOD);
    }
}

#[test]
fn row_pads_are_not_the_identity() {
    // Under an identity cipher the pad of a zero mix would collapse to
    // zero; the real block cipher does not.
    assert_ne!(gate_pad(0x1234_5678, 0, 0), 0);
    assert_ne!(gate_pad(0, 0, 0), 0);
}
