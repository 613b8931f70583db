use risk5::insn::Instruction;

#[test]
fn rd() {
    assert_eq!(0x2000006u32.rd(), 0);
    assert_eq!(0x05013503u32.rd(), 10);
    assert_eq!(0x01813183u32.rd(), 3);
}

fn jal_target(pc: u32, insn: u32, target: u32) {
    let offset = target as i32 - pc as i32;
    let jimm20 = insn.jimm20();
    assert_eq!(jimm20, offset as i64);
}

#[test]
fn jimm20() {
    // 80002d60: 84dff0ef  jal ra,800025ac
    let n: u32 = 0x84dff0ef;
    let offset: i64 = 0x800025ac - 0x80002d60;
    assert_eq!(n.jimm20(), offset);

    jal_target(0x80002bbc, 0xc2dff0ef, 0x800027e8);
    jal_target(0x80002bc0, 0xc7dff0ef, 0x8000283c);
    jal_target(0x80002bc4, 0xd21ff0ef, 0x800028e4);
    jal_target(0x80002bc8, 0xdbdff0ef, 0x80002984);
    jal_target(0x80002bdc, 0xf14fd06f, 0x800002f0);
    jal_target(0x80002d54, 0xfc0ff0ef, 0x80002514);
    jal_target(0x80002d60, 0x84dff0ef, 0x800025ac);
    jal_target(0x80002d80, 0xf94ff0ef, 0x80002514);
    jal_target(0x80002d8c, 0x821ff0ef, 0x800025ac);
    jal_target(0x80002db4, 0x314050ef, 0x800080c8);
}

#[test]
fn register_fields() {
    // add a0, a1, a2
    let add: u32 = 0x00c58533;
    assert_eq!(add.rd(), 10);
    assert_eq!(add.rs1(), 11);
    assert_eq!(add.rs2(), 12);
    // addi a0, a0, -1: the word is taken as unsigned, so the field reads 0xfff
    let addi: u32 = 0xfff50513;
    assert_eq!(addi.i_imm(), 0xfff);
    // lui a5, 0x12345
    let lui: u32 = 0x123457b7;
    assert_eq!(lui.u_imm(), 0x12345000);
}
