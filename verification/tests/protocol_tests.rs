//! The action sequences the protocol layer queues for the hardware, and
//! the bounded-retry plan of line acquisition.

use pcd8544::Action;
use pcd8544::AcquireResult;
use pcd8544::Orientation;
use pcd8544::PCD8544;
use pcd8544::plan_acquire;

fn fresh() -> PCD8544 {
    let mut d = PCD8544::new(Orientation::Landscape(false));
    let _ = d.take_pending();
    d
}

fn extended(c: u8) -> Vec<Action> {
    vec![
        Action::SetDc(false),
        Action::Write(0x21),
        Action::SetDc(false),
        Action::Write(c),
        Action::SetDc(false),
        Action::Write(0x20),
        Action::SetDc(false),
        Action::Write(0x0C),
    ]
}

#[test]
fn construction_queues_reset_then_contrast_then_bias() {
    let mut d = PCD8544::new(Orientation::Landscape(false));
    let mut expected = vec![Action::SetRst(false), Action::Settle, Action::SetRst(true)];
    expected.extend(extended(0x80 | 40));
    expected.extend(extended(0x10 | 4));
    assert_eq!(d.take_pending(), expected);
    assert_eq!(d.take_pending(), Vec::new());
}

#[test]
fn send_command_selects_command_mode_first() {
    let mut d = fresh();
    d.send_command(0x0D);
    assert_eq!(d.take_pending(), vec![Action::SetDc(false), Action::Write(0x0D)]);
}

#[test]
fn send_data_byte_selects_data_mode_first() {
    let mut d = fresh();
    d.send_data_byte(0xA5);
    assert_eq!(d.take_pending(), vec![Action::SetDc(true), Action::Write(0xA5)]);
}

#[test]
fn extended_command_is_a_self_contained_transaction() {
    let mut d = fresh();
    d.send_extended_command(0x14);
    assert_eq!(d.take_pending(), extended(0x14));
}

#[test]
fn reset_pulses_the_reset_line() {
    let mut d = fresh();
    d.reset();
    assert_eq!(
        d.take_pending(),
        vec![Action::SetRst(false), Action::Settle, Action::SetRst(true)]
    );
}

#[test]
fn contrast_saturates_at_127() {
    let mut a = fresh();
    a.set_contrast(200);
    let mut b = fresh();
    b.set_contrast(127);
    assert_eq!(a.take_pending(), b.take_pending());
}

#[test]
fn contrast_payloads_differ_only_in_the_low_seven_bits() {
    let mut a = fresh();
    a.set_contrast(0);
    let mut b = fresh();
    b.set_contrast(127);
    let pa = a.take_pending();
    let pb = b.take_pending();
    assert_eq!(pa[3], Action::Write(0x80));
    assert_eq!(pb[3], Action::Write(0xFF));
    // Same opcode bit, different low 7 bits; all other steps identical.
    assert_ne!(pa, pb);
    for i in 0..8 {
        if i != 3 {
            assert_eq!(pa[i], pb[i]);
        }
    }
}

#[test]
fn set_bias_carries_the_raw_code() {
    let mut d = fresh();
    d.set_bias(4);
    assert_eq!(d.take_pending(), extended(0x10 | 4));
}

#[test]
fn update_streams_the_whole_buffer_after_homing_the_address() {
    let mut d = fresh();
    d.set_pixel(0, 0, true);
    d.set_pixel(83, 47, true);
    d.update();
    let ops = d.take_pending();
    assert_eq!(ops.len(), 5 + 504);
    assert_eq!(
        &ops[..5],
        &[
            Action::SetDc(false),
            Action::Write(0x40),
            Action::SetDc(false),
            Action::Write(0x80),
            Action::SetDc(true),
        ]
    );
    assert_eq!(ops[5], Action::Write(0x01));
    assert_eq!(ops[5 + 503], Action::Write(0x80));
    for i in 6..(5 + 503) {
        assert_eq!(ops[i], Action::Write(0x00));
    }
}

#[test]
fn drawing_queues_nothing() {
    let mut d = fresh();
    d.set_pixel(1, 1, true);
    d.clear();
    assert_eq!(d.take_pending(), Vec::new());
}

#[test]
fn acquisition_succeeds_on_the_first_good_attempt() {
    let r = plan_acquire(&vec![false, false, true], 3);
    assert_eq!(r, AcquireResult::Configured { attempt: 3 });
    let r = plan_acquire(&vec![true, false, false], 3);
    assert_eq!(r, AcquireResult::Configured { attempt: 1 });
    let r = plan_acquire(&vec![false, true, true], 3);
    assert_eq!(r, AcquireResult::Configured { attempt: 2 });
}

#[test]
fn acquisition_reports_the_error_of_the_last_attempt() {
    let r = plan_acquire(&vec![false, false, false], 3);
    assert_eq!(r, AcquireResult::Failed { last_attempt: 3 });
}

#[test]
fn acquisition_with_no_attempts_hands_the_line_back_untried() {
    let r = plan_acquire(&vec![], 0);
    assert_eq!(r, AcquireResult::Configured { attempt: 0 });
}
