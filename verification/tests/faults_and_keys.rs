use chip8_core::cpu::{Emulator, FaultKind};
use chip8_core::input::{process_key, KeyState};

fn build_image(words: &[u16]) -> Vec<u8> {
    let mut bytes = Vec::new();
    for w in words {
        bytes.push((w >> 8) as u8);
        bytes.push(*w as u8);
        bytes.push(0);
        bytes.push(0);
    }
    bytes
}

#[test]
fn return_on_empty_stack_faults() {
    let mut emu = Emulator::new();
    emu.load_image(&build_image(&[0x00EE])).unwrap();
    let err = emu.emulator_cycle().unwrap_err();
    assert_eq!(err.kind, FaultKind::StackUnderflow);
    assert_eq!(err.addr, 0x200);
    assert_eq!(err.opcode, 0x00EE);
    // the machine is left exactly as it was
    assert_eq!(emu.pc(), 0x200);
}

#[test]
fn seventeenth_nested_call_faults() {
    let mut emu = Emulator::new();
    // the call at 0x200 calls itself forever
    emu.load_image(&build_image(&[0x2200])).unwrap();
    for _ in 0..16 {
        emu.emulator_cycle().unwrap();
    }
    let err = emu.emulator_cycle().unwrap_err();
    assert_eq!(err.kind, FaultKind::StackOverflow);
    assert_eq!(err.addr, 0x200);
    assert_eq!(err.opcode, 0x2200);
}

#[test]
fn program_counter_past_memory_faults() {
    let mut emu = Emulator::new();
    emu.load_image(&build_image(&[0x1FFF])).unwrap();
    emu.emulator_cycle().unwrap();
    let err = emu.emulator_cycle().unwrap_err();
    assert_eq!(err.kind, FaultKind::ProgramCounterOutOfBounds);
    assert_eq!(err.addr, 0xFFF);
    assert_eq!(err.opcode, 0);
    assert_eq!(emu.pc(), 0xFFF);
}

#[test]
fn sprite_read_past_memory_faults() {
    let mut emu = Emulator::new();
    emu.load_image(&build_image(&[0xAFFF, 0xD002])).unwrap();
    emu.emulator_cycle().unwrap();
    let err = emu.emulator_cycle().unwrap_err();
    assert_eq!(err.kind, FaultKind::MemoryOutOfBounds);
    assert_eq!(err.addr, 0x204);
    assert_eq!(err.opcode, 0xD002);
}

#[test]
fn sprite_read_up_to_memory_end_is_allowed() {
    let mut emu = Emulator::new();
    emu.load_image(&build_image(&[0xAFFF, 0xD001])).unwrap();
    emu.emulator_cycle().unwrap();
    assert!(emu.emulator_cycle().is_ok());
}

#[test]
fn bcd_write_past_memory_faults() {
    let mut emu = Emulator::new();
    emu.load_image(&build_image(&[0xAFFE, 0xF033])).unwrap();
    emu.emulator_cycle().unwrap();
    let err = emu.emulator_cycle().unwrap_err();
    assert_eq!(err.kind, FaultKind::MemoryOutOfBounds);
}

#[test]
fn register_dump_past_memory_faults() {
    let mut emu = Emulator::new();
    emu.load_image(&build_image(&[0x6001, 0xAFFF, 0xF155])).unwrap();
    emu.emulator_cycle().unwrap();
    emu.emulator_cycle().unwrap();
    let err = emu.emulator_cycle().unwrap_err();
    assert_eq!(err.kind, FaultKind::MemoryOutOfBounds);
    assert_eq!(err.opcode, 0xF155);
}

#[test]
fn key_query_with_wild_register_faults() {
    let mut emu = Emulator::new();
    emu.load_image(&build_image(&[0x60FF, 0xE09E])).unwrap();
    emu.emulator_cycle().unwrap();
    let err = emu.emulator_cycle().unwrap_err();
    assert_eq!(err.kind, FaultKind::KeyOutOfBounds);
    assert_eq!(err.opcode, 0xE09E);
}

#[test]
fn skip_when_key_pressed() {
    let mut emu = Emulator::new();
    emu.load_image(&build_image(&[0xE09E])).unwrap();
    emu.set_key(0, true);
    emu.emulator_cycle().unwrap();
    assert_eq!(emu.pc(), 0x206);
    let mut emu = Emulator::new();
    emu.load_image(&build_image(&[0xE09E])).unwrap();
    emu.emulator_cycle().unwrap();
    assert_eq!(emu.pc(), 0x204);
}

#[test]
fn skip_when_key_not_pressed() {
    let mut emu = Emulator::new();
    emu.load_image(&build_image(&[0xE0A1])).unwrap();
    emu.emulator_cycle().unwrap();
    assert_eq!(emu.pc(), 0x206);
    let mut emu = Emulator::new();
    emu.load_image(&build_image(&[0xE0A1])).unwrap();
    emu.set_key(0, true);
    emu.emulator_cycle().unwrap();
    assert_eq!(emu.pc(), 0x204);
}

#[test]
fn wait_for_key_blocks_until_pressed() {
    let mut emu = Emulator::new();
    emu.load_image(&build_image(&[0xF00A])).unwrap();
    emu.emulator_cycle().unwrap();
    assert_eq!(emu.pc(), 0x200, "still waiting");
    emu.emulator_cycle().unwrap();
    assert_eq!(emu.pc(), 0x200, "still waiting");
    emu.set_key(0, true);
    emu.emulator_cycle().unwrap();
    assert_eq!(emu.pc(), 0x204, "key arrived, execution resumes");
}

#[test]
fn key_layout_mapping() {
    let mut emu = Emulator::new();
    let layout = [
        ('1', 0x1),
        ('2', 0x2),
        ('3', 0x3),
        ('4', 0xC),
        ('q', 0x4),
        ('w', 0x5),
        ('e', 0x6),
        ('r', 0xD),
        ('a', 0x7),
        ('s', 0x8),
        ('d', 0x9),
        ('f', 0xE),
        ('z', 0xA),
        ('x', 0x0),
        ('c', 0xB),
        ('v', 0xF),
    ];
    for (symbol, slot) in layout {
        process_key(&mut emu, symbol, KeyState::Down);
        assert!(emu.key(slot), "pressing {symbol} drives slot {slot}");
        process_key(&mut emu, symbol, KeyState::Up);
        assert!(!emu.key(slot));
    }
}

#[test]
fn unknown_key_symbol_is_ignored() {
    let mut emu = Emulator::new();
    process_key(&mut emu, 'p', KeyState::Down);
    for i in 0..16 {
        assert!(!emu.key(i));
    }
}
