use risk5::insns::comp::{Add, Div, Mul, Mulh, Operation, Rem, Sll, Slt, Sra, Srl, Sub};

#[test]
fn division_edge_cases() {
    assert_eq!(<Div as Operation<i64>>::exec(7, 0), u64::MAX);
    assert_eq!(<Div as Operation<i64>>::exec(i64::MIN, -1), i64::MIN as u64);
    assert_eq!(<Div as Operation<i64>>::exec(-7, 2), (-3i64) as u64);
    assert_eq!(<Rem as Operation<i64>>::exec(-7, 2), (-1i64) as u64);
    assert_eq!(<Rem as Operation<i64>>::exec(7, 0), 7);
    assert_eq!(<Rem as Operation<i64>>::exec(i64::MIN, -1), 0);
    assert_eq!(<Div as Operation<u64>>::exec(7, 0), u64::MAX);
    assert_eq!(<Rem as Operation<u64>>::exec(7, 0), 7);
    assert_eq!(<Div as Operation<i32>>::exec(i32::MIN, -1), i32::MIN as i64 as u64);
    assert_eq!(<Div as Operation<u32>>::exec(0xffff_fffe, 1), 0xffff_ffff_ffff_fffe);
    assert_eq!(<Rem as Operation<u32>>::exec(7, 0), 7);
}

#[test]
fn word_operations_sign_extend() {
    assert_eq!(<Add as Operation<i32>>::exec(i32::MAX, 1), 0xffff_ffff_8000_0000);
    assert_eq!(<Sub as Operation<i32>>::exec(0, 1), u64::MAX);
    assert_eq!(<Mul as Operation<i32>>::exec(0x10000, 0x10000), 0);
    assert_eq!(<Sll as Operation<i32>>::exec(1, 31), 0xffff_ffff_8000_0000);
    assert_eq!(<Srl as Operation<u32>>::exec(0x8000_0000, 1), 0x4000_0000);
    assert_eq!(<Sra as Operation<i32>>::exec(i32::MIN, 4), 0xffff_ffff_f800_0000);
}

#[test]
fn full_width_operations() {
    assert_eq!(<Add as Operation<i64>>::exec(i64::MAX, 1), i64::MIN as u64);
    assert_eq!(<Mulh as Operation<i64>>::exec(-1, -1), 0);
    assert_eq!(<Mulh as Operation<u64>>::exec(u64::MAX, u64::MAX), u64::MAX - 1);
    assert_eq!(<Slt as Operation<i64>>::exec(-1, 0), 1);
    assert_eq!(<Slt as Operation<u64>>::exec(u64::MAX, 0), 0);
    assert_eq!(<Sll as Operation<i64>>::exec(1, 65), 2);
    assert_eq!(<Srl as Operation<u64>>::exec(u64::MAX, 63), 1);
    assert_eq!(<Sra as Operation<i64>>::exec(-8, 2), (-2i64) as u64);
}
