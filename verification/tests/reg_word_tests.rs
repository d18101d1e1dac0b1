use riscv::reg::Register;
use riscv::word;

/// Register 0 is invariant: staged and direct writes to it are discarded.
#[test]
fn x0_stays_zero() {
    let mut r = Register::new(32);
    r.force_assign(0, 55);
    assert_eq!(r.read(0), 0);
    r.assign(0, 77);
    assert_eq!(r.read(0), 0);
    assert!(r.writeback(0));
    assert_eq!(r.read(0), 0);
}

/// After a staged write retires, a read observes exactly the staged value.
#[test]
fn retired_value_is_read_back() {
    let mut r = Register::new(32);
    r.assign(3, 77);
    assert_eq!(r.read(3), 77, "forwarding: the staged value is visible before retirement");
    assert!(r.writeback(3));
    assert_eq!(r.read(3), 77, "the retired value is the committed one");
    assert!(!r.writeback(3), "nothing left to retire");
}

/// A read observes the newest staged write when several are in flight,
/// and retirement drains them oldest first.
#[test]
fn newest_staged_write_wins() {
    let mut r = Register::new(32);
    r.assign(5, 1);
    r.assign(5, 2);
    assert_eq!(r.read(5), 2);
    assert!(r.writeback(5));
    assert_eq!(r.read(5), 2, "the newer staged write still shadows the committed 1");
    assert!(r.writeback(5));
    assert_eq!(r.read(5), 2);
}

#[test]
fn pc_staging_and_retirement() {
    let mut r = Register::new(32);
    assert_eq!(r.pc(), 0);
    r.inc_pc();
    assert_eq!(r.pc(), 4);
    r.stage_pc(100);
    assert_eq!(r.pc_read(), 100, "fetch observes the staged counter");
    assert_eq!(r.pc(), 4, "the committed counter is untouched");
    r.inc_pc();
    assert_eq!(r.pc_read(), 104, "advancing moves the staged slot");
    assert!(r.retire_pc());
    assert_eq!(r.pc(), 104);
    assert!(!r.retire_pc());
}

#[test]
fn word_reinterpretation_is_bit_preserving() {
    assert_eq!(word::to_signed(0xffff_ffff), -1);
    assert_eq!(word::to_signed(0x8000_0000), i32::MIN);
    assert_eq!(word::from_signed(-1), 0xffff_ffff);
    assert_eq!(word::from_signed(i32::MIN), 0x8000_0000);
    assert_eq!(word::from_signed(word::to_signed(0xdead_beef)), 0xdead_beef);
}

#[test]
fn word_offset_wraps_modulo_two_to_the_32() {
    assert_eq!(word::offset(4, -8), 0xffff_fffc);
    assert_eq!(word::offset(0xffff_fffc, 8), 4);
    assert_eq!(word::offset(100, 0), 100);
}

#[test]
fn word_byte_composition_round_trips() {
    let v = 0x0403_0201u32;
    assert_eq!(word::to_le_byte(v, 0), 1);
    assert_eq!(word::to_le_byte(v, 3), 4);
    assert_eq!(word::from_le_bytes(1, 2, 3, 4), v);
    assert_eq!(word::from_le_half(0xcd, 0xab), 0xabcd);
}
