use um::command::Command;

#[test]
fn roundtrip_all_fourteen_shapes() {
    let cases: Vec<Command> = vec![
        Command::CondMove { dst: 1, src: 2, cnd: 3 },
        Command::ArrLoad { dst: 4, arr: 5, offset: 6 },
        Command::ArrStore { src: 7, arr: 0, offset: 1 },
        Command::Add { dst: 2, op1: 3, op2: 4 },
        Command::Mul { dst: 5, op1: 6, op2: 7 },
        Command::Div { dst: 0, op1: 1, op2: 2 },
        Command::NotAnd { dst: 3, op1: 4, op2: 5 },
        Command::Halt,
        Command::Alloc { dst: 6, size: 7 },
        Command::Free { arr: 0 },
        Command::Output { src: 1 },
        Command::Input { dst: 2 },
        Command::LoadProg { arr: 3, offset: 4 },
        Command::StoreConst { dst: 5, val: 0x1ABCDEF },
    ];
    for c in cases {
        let p = c.encode();
        assert_eq!(Command::decode(p), c);
    }
}

#[test]
fn decode_standard_form_fields() {
    // opcode 3 (Add), A = 1, B = 2, C = 3
    let p: u32 = (3 << 28) | (1 << 6) | (2 << 3) | 3;
    assert_eq!(Command::decode(p), Command::Add { dst: 1, op1: 2, op2: 3 });
}

#[test]
fn decode_special_form_fields() {
    let p: u32 = (13u32 << 28) | (6u32 << 25) | 0x155_5555;
    assert_eq!(Command::decode(p), Command::StoreConst { dst: 6, val: 0x155_5555 });
}

#[test]
fn decode_halt_platter() {
    assert_eq!(Command::decode(0x7000_0000), Command::Halt);
}

#[test]
fn decode_command_id_sees_top_bits() {
    assert_eq!(Command::decode_command_id(0xF000_0000), 15);
    assert_eq!(Command::decode_command_id(0xE000_0001), 14);
    assert_eq!(Command::decode_command_id(0x0000_0000), 0);
    assert_eq!(Command::decode_command_id(0xD000_0000), 13);
}

#[test]
fn encode_is_not_the_identity_on_fields() {
    // The Halt platter is exactly opcode 7 in the top bits.
    assert_eq!(Command::Halt.encode(), 0x7000_0000);
    // An orthography platter keeps the immediate in the low 25 bits.
    let p = Command::StoreConst { dst: 0, val: 0x1FF_FFFF }.encode();
    assert_eq!(p, (13u32 << 28) | 0x1FF_FFFF);
}
