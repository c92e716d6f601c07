use kolakoski::wide::MyU128;

fn combine(v: MyU128) -> u128 {
    ((v.hi as u128) << 64) | (v.lo as u128)
}

#[test]
fn new_sets_low_half_only() {
    let v = MyU128::new(12345);
    assert_eq!(v.hi, 0);
    assert_eq!(v.lo, 12345);
}

#[test]
fn add_one_simple() {
    let v = MyU128::new(41).add_one();
    assert_eq!(v.hi, 0);
    assert_eq!(v.lo, 42);
}

#[test]
fn add_one_carries_into_high_half() {
    let v = MyU128::new(u64::MAX).add_one();
    assert_eq!(v.hi, 1);
    assert_eq!(v.lo, 0);
}

#[test]
fn add_one_carries_from_partial_low_half() {
    let v = MyU128 { hi: 7, lo: u64::MAX }.add_one();
    assert_eq!(v.hi, 8);
    assert_eq!(v.lo, 0);
}

#[test]
fn and_or_exact_values() {
    let a = MyU128 { hi: 0b1100, lo: 0b1010 };
    let b = MyU128 { hi: 0b1010, lo: 0b0110 };
    let c = a.and(b);
    assert_eq!(c.hi, 0b1000);
    assert_eq!(c.lo, 0b0010);
    let d = a.or(b);
    assert_eq!(d.hi, 0b1110);
    assert_eq!(d.lo, 0b1110);
}

#[test]
fn not_complements_both_halves() {
    let v = MyU128 { hi: 0, lo: u64::MAX }.not();
    assert_eq!(v.hi, u64::MAX);
    assert_eq!(v.lo, 0);
}

#[test]
fn xor_assign_mutates_in_place() {
    let mut v = MyU128 { hi: 0b1100, lo: 0b1010 };
    v.xor_assign(MyU128 { hi: 0b1010, lo: 0b0110 });
    assert_eq!(v.hi, 0b0110);
    assert_eq!(v.lo, 0b1100);
}

#[test]
fn and_with_own_complement_is_zero() {
    let samples = [
        MyU128 { hi: 0, lo: 0 },
        MyU128 { hi: 0, lo: 1 },
        MyU128 { hi: u64::MAX, lo: u64::MAX },
        MyU128 { hi: 0xdead_beef, lo: 0x1234_5678_9abc_def0 },
        MyU128 { hi: 1 << 63, lo: 1 },
    ];
    for v in samples {
        let r = v.and(v.not());
        assert_eq!(r.hi, 0);
        assert_eq!(r.lo, 0);
    }
}

#[test]
fn shift_right_by_zero_is_identity() {
    let v = MyU128 { hi: 0x8765_4321_0fed_cba9, lo: 0x0123_4567_89ab_cdef };
    let r = v.shift_right(0);
    assert_eq!(r.hi, v.hi);
    assert_eq!(r.lo, v.lo);
}

#[test]
fn shift_right_matches_native_128_bit_shift() {
    let v = MyU128 { hi: 0x8765_4321_0fed_cba9, lo: 0x0123_4567_89ab_cdef };
    for k in [1usize, 32, 63] {
        let r = v.shift_right(k);
        assert_eq!(combine(r), combine(v) >> k);
    }
}

#[test]
fn shift_right_then_left_recovers_high_bits() {
    let v = MyU128 { hi: 0x8765_4321_0fed_cba9, lo: 0x0123_4567_89ab_cdef };
    for k in [0usize, 1, 32, 63] {
        let r = v.shift_right(k);
        let low_bits = if k == 0 { 0 } else { combine(v) & ((1u128 << k) - 1) };
        assert_eq!((combine(r) << k) | low_bits, combine(v));
    }
}

#[test]
fn shift_right_migrates_bits_across_halves() {
    let v = MyU128 { hi: 1, lo: 0 };
    let r = v.shift_right(1);
    assert_eq!(r.hi, 0);
    assert_eq!(r.lo, 1 << 63);
}

#[test]
fn bit_count_is_bit_length_of_low_half() {
    assert_eq!(MyU128::new(0).bit_count(), 0);
    assert_eq!(MyU128::new(1).bit_count(), 1);
    assert_eq!(MyU128::new(0b101).bit_count(), 3);
    assert_eq!(MyU128::new(u64::MAX).bit_count(), 64);
}

#[test]
fn bit_count_ignores_low_half_when_high_is_set() {
    assert_eq!(MyU128 { hi: 1, lo: 0 }.bit_count(), 65);
    assert_eq!(MyU128 { hi: 1, lo: u64::MAX }.bit_count(), 65);
    assert_eq!(MyU128 { hi: 0b100, lo: 7 }.bit_count(), 67);
    assert_eq!(MyU128 { hi: 1 << 63, lo: 0 }.bit_count(), 128);
}
