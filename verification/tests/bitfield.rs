use risk5::bitfield::BitField;
use risk5::bitfield::Mstatus;

#[test]
fn bitfield_bit_field() {
    assert_eq!(BitField::new(0).into_val(), 0);
    assert_eq!(BitField::new(0).with_field(0, 1, 1).into_val(), 1);
    assert_eq!(BitField::new(0).with_field(0, 1, 3).into_val(), 1);
    assert_eq!(BitField::new(0).with_field(1, 1, 1).into_val(), 2);
    assert_eq!(BitField::new(0).with_field(2, 1, 1).into_val(), 4);

    assert_eq!(BitField::new(0).with_field(0, 1, 1).field(0, 1), 1);
    assert_eq!(BitField::new(0).with_field(0, 1, 3).field(0, 1), 1);
    assert_eq!(BitField::new(0).with_field(1, 1, 1).field(1, 1), 1);
    assert_eq!(BitField::new(0).with_field(2, 1, 1).field(2, 1), 1);

    assert_eq!(BitField::new(3).with_field(0, 1, 1).with_field(1, 1, 1).into_val(), 3);
    assert_eq!(BitField::new(3).with_field(0, 2, 3).into_val(), 3);

    assert_eq!(BitField::new(0).with_field(0, 1, 1).with_field(1, 1, 1).field(0, 2), 3);

    assert_eq!(BitField::new(0).with_field(0, 1, 1).with_field(2, 1, 1).field(0, 3), 5);
}

#[test]
fn mstatus_bit_field() {
    assert_eq!(BitField::new(0).into_val(), 0);
    assert_eq!(BitField::new(0).with_field(0, 1, 1).into_val(), 1);
    assert_eq!(BitField::new(0).with_field(0, 1, 3).into_val(), 1);
    assert_eq!(BitField::new(0).with_field(1, 1, 1).into_val(), 2);
    assert_eq!(BitField::new(0).with_field(2, 1, 1).into_val(), 4);

    assert_eq!(BitField::new(0).with_field(0, 1, 1).field(0, 1), 1);
    assert_eq!(BitField::new(0).with_field(0, 1, 3).field(0, 1), 1);
    assert_eq!(BitField::new(0).with_field(1, 1, 1).field(1, 1), 1);
    assert_eq!(BitField::new(0).with_field(2, 1, 1).field(2, 1), 1);

    assert_eq!(BitField::new(3).with_field(0, 1, 1).with_field(1, 1, 1).into_val(), 3);
    assert_eq!(BitField::new(3).with_field(0, 2, 3).into_val(), 3);

    assert_eq!(BitField::new(0).with_field(0, 1, 1).with_field(1, 1, 1).field(0, 2), 3);

    assert_eq!(BitField::new(0).with_field(0, 1, 1).with_field(2, 1, 1).field(0, 3), 5);
}

#[test]
fn field_write_keeps_other_fields() {
    let mut b = BitField::new(0xffff_0000_0000_ffff);
    b.set_field(16, 8, 0xab);
    assert_eq!(b.val(), 0xffff_0000_00ab_ffff);
    assert_eq!(b.field(0, 16), 0xffff);
    assert_eq!(b.field(48, 16), 0xffff);
    b.set_field(16, 8, 0x1ff);
    assert_eq!(b.field(16, 8), 0xff);
}

#[test]
fn mstatus_fields() {
    let mut m = Mstatus::new_with_val(0);
    m.set_machine_interrupt_enabled(1);
    assert_eq!(m.val(), 0x8);
    m.move_machine_interrupt_enabled_to_prior();
    assert_eq!(m.machine_prior_interrupt_enabled(), 1);
    m.set_machine_previous_privilege(3);
    assert_eq!(m.val(), 0x8 | 0x80 | 0x1800);
    m.set_user_interrupt_enabled(1);
    assert_eq!(m.user_interrupt_enabled(), 1);
}
