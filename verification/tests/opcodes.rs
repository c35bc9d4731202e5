use chip8_core::cpu::Emulator;

/// One word per 4-byte fetch slot; padding bytes are never fetched.
fn words_to_image(words: &[u16]) -> Vec<u8> {
    let mut bytes = Vec::new();
    for w in words {
        bytes.push((w >> 8) as u8);
        bytes.push(*w as u8);
        bytes.push(0);
        bytes.push(0);
    }
    bytes
}

fn step(emu: &mut Emulator, cycles: usize) {
    for _ in 0..cycles {
        emu.emulator_cycle().expect("cycle faulted");
    }
}

/// Run `V0 = a; V1 = b; V0 = V0 <op> V1; jump back to start` once and
/// return `(V0, VF)`. The trailing jump leaves the machine ready for
/// the next pair.
fn binary_op(emu: &mut Emulator, opword: u16, a: u8, b: u8) -> (u8, u8) {
    let image = words_to_image(&[0x6000 | a as u16, 0x6100 | b as u16, opword, 0x1200]);
    emu.load_image(&image).unwrap();
    step(emu, 4);
    (emu.register(0), emu.register(0xF))
}

#[test]
fn add_with_carry_exhaustive() {
    let mut emu = Emulator::new();
    for a in 0..=255u8 {
        for b in 0..=255u8 {
            let (r, f) = binary_op(&mut emu, 0x8014, a, b);
            assert_eq!(r, a.wrapping_add(b));
            assert_eq!(f, if (a as u16) + (b as u16) > 255 { 1 } else { 0 });
        }
    }
}

#[test]
fn sub_with_borrow_exhaustive() {
    let mut emu = Emulator::new();
    for a in 0..=255u8 {
        for b in 0..=255u8 {
            let (r, f) = binary_op(&mut emu, 0x8015, a, b);
            assert_eq!(r, a.wrapping_sub(b));
            assert_eq!(f, if a < b { 0 } else { 1 });
        }
    }
}

#[test]
fn rsub_with_borrow_exhaustive() {
    let mut emu = Emulator::new();
    for a in 0..=255u8 {
        for b in 0..=255u8 {
            let (r, f) = binary_op(&mut emu, 0x8017, a, b);
            assert_eq!(r, b.wrapping_sub(a));
            assert_eq!(f, if b < a { 0 } else { 1 });
        }
    }
}

#[test]
fn bitwise_ops() {
    let mut emu = Emulator::new();
    assert_eq!(binary_op(&mut emu, 0x8010, 0x12, 0x34).0, 0x34);
    assert_eq!(binary_op(&mut emu, 0x8011, 0xF0, 0x0F).0, 0xFF);
    assert_eq!(binary_op(&mut emu, 0x8012, 0xF0, 0x3C).0, 0x30);
    assert_eq!(binary_op(&mut emu, 0x8013, 0xFF, 0x0F).0, 0xF0);
}

#[test]
fn shift_right_keeps_low_bit() {
    let mut emu = Emulator::new();
    let (r, f) = binary_op(&mut emu, 0x8006, 3, 0);
    assert_eq!(r, 1);
    assert_eq!(f, 1);
    let (r, f) = binary_op(&mut emu, 0x8006, 8, 0);
    assert_eq!(r, 4);
    assert_eq!(f, 0);
}

#[test]
fn shift_left_keeps_high_bit_normalized() {
    let mut emu = Emulator::new();
    let (r, f) = binary_op(&mut emu, 0x800E, 0x81, 0);
    assert_eq!(r, 0x02);
    assert_eq!(f, 1);
    let (r, f) = binary_op(&mut emu, 0x800E, 0x41, 0);
    assert_eq!(r, 0x82);
    assert_eq!(f, 0);
}

#[test]
fn add_immediate_wraps_without_flag() {
    let mut emu = Emulator::new();
    emu.load_image(&words_to_image(&[0x60FF, 0x7002])).unwrap();
    step(&mut emu, 2);
    assert_eq!(emu.register(0), 1);
    assert_eq!(emu.register(0xF), 0);
}

#[test]
fn skip_if_equal_immediate() {
    let mut emu = Emulator::new();
    emu.load_image(&words_to_image(&[0x6007, 0x3007])).unwrap();
    step(&mut emu, 2);
    assert_eq!(emu.pc(), 0x20A);
    let mut emu = Emulator::new();
    emu.load_image(&words_to_image(&[0x6007, 0x3008])).unwrap();
    step(&mut emu, 2);
    assert_eq!(emu.pc(), 0x208);
}

#[test]
fn skip_if_not_equal_immediate() {
    let mut emu = Emulator::new();
    emu.load_image(&words_to_image(&[0x6007, 0x4008])).unwrap();
    step(&mut emu, 2);
    assert_eq!(emu.pc(), 0x20A);
}

#[test]
fn skip_if_registers_equal() {
    let mut emu = Emulator::new();
    emu.load_image(&words_to_image(&[0x6202, 0x6302, 0x5230])).unwrap();
    step(&mut emu, 3);
    assert_eq!(emu.pc(), 0x20E);
    let mut emu = Emulator::new();
    emu.load_image(&words_to_image(&[0x6202, 0x6303, 0x5230])).unwrap();
    step(&mut emu, 3);
    assert_eq!(emu.pc(), 0x20C);
}

#[test]
fn skip_if_registers_not_equal() {
    let mut emu = Emulator::new();
    emu.load_image(&words_to_image(&[0x6202, 0x6303, 0x9230])).unwrap();
    step(&mut emu, 3);
    assert_eq!(emu.pc(), 0x20E);
}

#[test]
fn jump_direct_and_offset() {
    let mut emu = Emulator::new();
    emu.load_image(&words_to_image(&[0x1400])).unwrap();
    step(&mut emu, 1);
    assert_eq!(emu.pc(), 0x400);
    let mut emu = Emulator::new();
    emu.load_image(&words_to_image(&[0x6004, 0xB300])).unwrap();
    step(&mut emu, 2);
    assert_eq!(emu.pc(), 0x304);
}

#[test]
fn index_register_ops() {
    let mut emu = Emulator::new();
    // I = 0x123; V0 = 9; I += V0; then I = V1 * 5 for V1 = 7
    emu.load_image(&words_to_image(&[0xA123, 0x6009, 0xF01E, 0x6107, 0xF129])).unwrap();
    step(&mut emu, 1);
    assert_eq!(emu.index(), 0x123);
    step(&mut emu, 2);
    assert_eq!(emu.index(), 0x12C);
    step(&mut emu, 2);
    assert_eq!(emu.index(), 35);
}

#[test]
fn bcd_of_157() {
    let mut emu = Emulator::new();
    emu.load_image(&words_to_image(&[0x609D, 0xA300, 0xF033])).unwrap();
    step(&mut emu, 3);
    assert_eq!(emu.read_memory(0x300), 1);
    assert_eq!(emu.read_memory(0x301), 5);
    assert_eq!(emu.read_memory(0x302), 7);
}

#[test]
fn bcd_of_zero() {
    let mut emu = Emulator::new();
    emu.load_image(&words_to_image(&[0x6000, 0xA300, 0xF033])).unwrap();
    step(&mut emu, 3);
    assert_eq!(emu.read_memory(0x300), 0);
    assert_eq!(emu.read_memory(0x301), 0);
    assert_eq!(emu.read_memory(0x302), 0);
}

#[test]
fn dump_then_load_round_trips() {
    let mut emu = Emulator::new();
    // V0 = 5, V1 = 7; dump V0..=V1 at 0x300; clobber V0; load back
    emu.load_image(&words_to_image(&[0x6005, 0x6107, 0xA300, 0xF155, 0x6099, 0xF165])).unwrap();
    step(&mut emu, 4);
    assert_eq!(emu.read_memory(0x300), 5);
    assert_eq!(emu.read_memory(0x301), 7);
    step(&mut emu, 1);
    assert_eq!(emu.register(0), 0x99);
    step(&mut emu, 1);
    assert_eq!(emu.register(0), 5);
    assert_eq!(emu.register(1), 7);
    assert_eq!(emu.index(), 0x300);
}

#[test]
fn random_masked_to_zero() {
    let mut emu = Emulator::new();
    // whatever byte the generator gives, the zero mask forces zero
    emu.load_image(&words_to_image(&[0x6055, 0xC000])).unwrap();
    step(&mut emu, 2);
    assert_eq!(emu.register(0), 0);
}

#[test]
fn unmatched_opcode_is_noop() {
    let mut emu = Emulator::new();
    // E0FF matches no pattern: only the program counter moves
    emu.load_image(&words_to_image(&[0xE0FF])).unwrap();
    step(&mut emu, 1);
    assert_eq!(emu.pc(), 0x204);
    for i in 0..16 {
        assert_eq!(emu.register(i), 0);
    }
}
