use chip8_core::cpu::{Emulator, OpCode};

/// Lay instruction words out as the engine fetches them: one word per
/// 4-byte slot, the two trailing padding bytes never fetched.
fn image_of(words: &[u16]) -> Vec<u8> {
    let mut bytes = Vec::new();
    for w in words {
        bytes.push((w >> 8) as u8);
        bytes.push(*w as u8);
        bytes.push(0);
        bytes.push(0);
    }
    bytes
}

fn run(emu: &mut Emulator, cycles: usize) {
    for _ in 0..cycles {
        emu.emulator_cycle().expect("cycle faulted");
    }
}

#[test]
fn opcode_round_trip_exhaustive() {
    for w in 0..=0xFFFFu16 {
        let op = OpCode::split(w);
        assert_eq!(op.merged_opcode(), w);
    }
}

#[test]
fn new_machine_state() {
    let emu = Emulator::new();
    assert_eq!(emu.pc(), 0x200);
    assert_eq!(emu.index(), 0);
    assert_eq!(emu.delay(), 0);
    assert_eq!(emu.sound(), 0);
    // glyph table at the bottom of memory, zero elsewhere
    assert_eq!(emu.read_memory(0), 0xF0);
    assert_eq!(emu.read_memory(79), 0x80);
    assert_eq!(emu.read_memory(80), 0);
    assert_eq!(emu.read_memory(0x200), 0);
    for i in 0..16 {
        assert_eq!(emu.register(i), 0);
        assert!(!emu.key(i));
    }
    for y in 0..32 {
        for x in 0..64 {
            assert_eq!(emu.pixel(x, y), 0);
        }
    }
}

#[test]
fn load_exactly_to_capacity() {
    let mut emu = Emulator::new();
    let image = vec![0xABu8; 4096 - 0x200];
    assert!(emu.load_image(&image).is_ok());
    assert_eq!(emu.read_memory(0x200), 0xAB);
    assert_eq!(emu.read_memory(4095), 0xAB);
    assert_eq!(emu.read_memory(0x1FF), 0);
}

#[test]
fn load_one_byte_too_many_fails_untouched() {
    let mut emu = Emulator::new();
    let image = vec![0xCDu8; 4096 - 0x200 + 1];
    let err = emu.load_image(&image).unwrap_err();
    assert_eq!(err.image_len, 4096 - 0x200 + 1);
    // prior memory state untouched
    assert_eq!(emu.read_memory(0x200), 0);
    assert_eq!(emu.read_memory(4095), 0);
    assert_eq!(emu.read_memory(0), 0xF0);
    assert_eq!(emu.pc(), 0x200);
}

#[test]
fn clear_screen_blanks_everything() {
    let mut emu = Emulator::new();
    // draw glyph 0 (at memory 0) at (V0, V0) = (0, 0), then clear
    emu.load_image(&image_of(&[0xA000, 0xD005, 0x00E0])).unwrap();
    run(&mut emu, 2);
    assert_eq!(emu.pixel(0, 0), 1, "glyph 0 starts with a lit pixel");
    run(&mut emu, 1);
    for y in 0..32 {
        for x in 0..64 {
            assert_eq!(emu.pixel(x, y), 0);
        }
    }
}

#[test]
fn draw_twice_restores_and_collides() {
    let mut emu = Emulator::new();
    emu.load_image(&image_of(&[0xA000, 0xD005, 0xD005])).unwrap();
    run(&mut emu, 2);
    // first draw of glyph 0: no collision, top row 0xF0 lights (0..4, 0)
    assert_eq!(emu.register(0xF), 0);
    assert_eq!(emu.pixel(0, 0), 1);
    assert_eq!(emu.pixel(1, 0), 1);
    assert_eq!(emu.pixel(2, 0), 1);
    assert_eq!(emu.pixel(3, 0), 1);
    assert_eq!(emu.pixel(4, 0), 0);
    run(&mut emu, 1);
    // second identical draw erases everything it drew and reports it
    assert_eq!(emu.register(0xF), 1);
    for y in 0..32 {
        for x in 0..64 {
            assert_eq!(emu.pixel(x, y), 0);
        }
    }
}

#[test]
fn draw_wraps_both_axes() {
    let mut emu = Emulator::new();
    // V0 = 62, V1 = 31: an 8x2 sprite of glyph 3 rows wraps both ways
    emu.load_image(&image_of(&[0x603E, 0x611F, 0xA000, 0xD012])).unwrap();
    run(&mut emu, 4);
    // row 0 of glyph 0 is 0xF0: bits at columns 62, 63, 0, 1 on row 31
    assert_eq!(emu.pixel(62, 31), 1);
    assert_eq!(emu.pixel(63, 31), 1);
    assert_eq!(emu.pixel(0, 31), 1);
    assert_eq!(emu.pixel(1, 31), 1);
    assert_eq!(emu.pixel(2, 31), 0);
    // row 1 of glyph 0 is 0x90: bits at columns 62 and 1 on row 0
    assert_eq!(emu.pixel(62, 0), 1);
    assert_eq!(emu.pixel(63, 0), 0);
    assert_eq!(emu.pixel(0, 0), 0);
    assert_eq!(emu.pixel(1, 0), 1);
}

#[test]
fn call_then_return_resumes_after_call() {
    let mut emu = Emulator::new();
    // call 0x300; the routine there returns at once
    let mut bytes = image_of(&[0x2300]);
    bytes.resize(0x100, 0);
    bytes.push(0x00);
    bytes.push(0xEE);
    emu.load_image(&bytes).unwrap();
    run(&mut emu, 1);
    assert_eq!(emu.pc(), 0x300);
    run(&mut emu, 1);
    assert_eq!(emu.pc(), 0x204);
}

#[test]
fn sound_timer_beeps_once() {
    let mut emu = Emulator::new();
    // V1 = 1, sound timer = V1, then only no-op instructions
    emu.load_image(&image_of(&[0x6101, 0xF118])).unwrap();
    let mut beeps = 0;
    for _ in 0..4 {
        if emu.emulator_cycle().unwrap() {
            beeps += 1;
        }
    }
    assert_eq!(beeps, 1);
    assert_eq!(emu.sound(), 0);
}

#[test]
fn zero_sound_timer_never_beeps() {
    let mut emu = Emulator::new();
    for _ in 0..8 {
        assert!(!emu.emulator_cycle().unwrap());
    }
    assert_eq!(emu.sound(), 0);
}

#[test]
fn delay_timer_counts_down() {
    let mut emu = Emulator::new();
    // V3 = 5; delay = V3; V4 = delay
    emu.load_image(&image_of(&[0x6305, 0xF315, 0xF407])).unwrap();
    run(&mut emu, 2);
    // the cycle that set it already counted it down once
    assert_eq!(emu.delay(), 4);
    run(&mut emu, 1);
    assert_eq!(emu.register(4), 4);
    assert_eq!(emu.delay(), 3);
}
