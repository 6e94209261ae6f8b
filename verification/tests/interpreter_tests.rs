use r8::bcd;
use r8::Address;
use r8::Emulator;
use r8::EmulatorError;
use r8::Key;
use r8::Opcode;
use r8::RandGen;
use r8::RegisterIndex;
use r8::State;

const FONT: [u8; 80] = [
    0xF0, 0x90, 0x90, 0x90, 0xF0, 0x20, 0x60, 0x20, 0x20, 0x70, 0xF0, 0x10, 0xF0, 0x80, 0xF0,
    0xF0, 0x10, 0xF0, 0x10, 0xF0, 0x90, 0x90, 0xF0, 0x10, 0x10, 0xF0, 0x80, 0xF0, 0x10, 0xF0,
    0xF0, 0x80, 0xF0, 0x90, 0xF0, 0xF0, 0x10, 0x20, 0x40, 0x40, 0xF0, 0x90, 0xF0, 0x90, 0xF0,
    0xF0, 0x90, 0xF0, 0x10, 0xF0, 0xF0, 0x90, 0xF0, 0x90, 0x90, 0xE0, 0x90, 0xE0, 0x90, 0xE0,
    0xF0, 0x80, 0x80, 0x80, 0xF0, 0xE0, 0x90, 0x90, 0x90, 0xE0, 0xF0, 0x80, 0xF0, 0x80, 0xF0,
    0xF0, 0x80, 0xF0, 0x80, 0x80,
];

#[test]
fn load_rom_places_font_and_zeros() {
    let mut emu = Emulator::new();
    emu.load_rom(&[] as &[u8]).unwrap();
    let font = emu.read_memory(Address::new(0), 80).unwrap();
    assert_eq!(font, FONT.to_vec());
    let gap = emu.read_memory(Address::new(80), 0x200 - 80).unwrap();
    assert!(gap.iter().all(|&b| b == 0));
    let rest = emu.read_memory(Address::new(0x200), 0x1000 - 0x200).unwrap();
    assert!(rest.iter().all(|&b| b == 0));
    assert_eq!(*emu.state(), State::Running);
}

#[test]
fn load_rom_places_bytes_at_entry_point() {
    let mut emu = Emulator::new();
    emu.load_rom(&[0xAB, 0xCD]).unwrap();
    let rom = emu.read_memory(Address::new(0x200), 3).unwrap();
    assert_eq!(rom, vec![0xAB, 0xCD, 0x00]);
    assert_eq!(emu.pc().inner(), 0x200);
    assert_eq!(emu.i().inner(), 0);
}

#[test]
fn new_emulator_does_nothing_until_loaded() {
    let mut emu = Emulator::new();
    assert_eq!(*emu.state(), State::New);
    assert!(emu.tick().is_ok());
    assert_eq!(emu.pc().inner(), 0x200);
    assert_eq!(*emu.state(), State::New);
}

#[test]
fn bcd_digits() {
    assert_eq!(bcd(234), [2, 3, 4]);
    assert_eq!(bcd(0), [0, 0, 0]);
    assert_eq!(bcd(255), [2, 5, 5]);
    assert_eq!(bcd(7), [0, 0, 7]);
}

#[test]
fn bcd_store_writes_three_digits() {
    // Scenario: V3 = 234, I = 0x300, execute F333
    let mut emu = Emulator::new();
    emu.load_rom(&[] as &[u8]).unwrap();
    emu.registers.set(RegisterIndex::new(3), 234);
    emu.i = Address::new(0x300);
    emu.execute_opcode(Opcode::decode(0xF333)).unwrap();
    let digits = emu.read_memory(Address::new(0x300), 3).unwrap();
    assert_eq!(digits, vec![2, 3, 4]);
}

#[test]
fn jp_v0_is_absolute() {
    let mut emu = Emulator::new();
    emu.load_rom(&[0xB3, 0x00]).unwrap();
    emu.registers.set(RegisterIndex::new(0), 4);
    emu.tick().unwrap();
    assert_eq!(emu.pc().inner(), 0x304);
}

#[test]
fn add_register_sets_carry_after_sum() {
    let mut emu = Emulator::new();
    emu.load_rom(&[] as &[u8]).unwrap();
    emu.registers.set(RegisterIndex::new(1), 200);
    emu.registers.set(RegisterIndex::new(2), 100);
    emu.execute_opcode(Opcode::decode(0x8124)).unwrap();
    assert_eq!(emu.registers.get(RegisterIndex::new(1)), 44);
    assert_eq!(emu.registers.get(RegisterIndex::new(0xF)), 1);

    // No carry case
    emu.registers.set(RegisterIndex::new(1), 1);
    emu.registers.set(RegisterIndex::new(2), 2);
    emu.execute_opcode(Opcode::decode(0x8124)).unwrap();
    assert_eq!(emu.registers.get(RegisterIndex::new(1)), 3);
    assert_eq!(emu.registers.get(RegisterIndex::new(0xF)), 0);
}

#[test]
fn add_byte_leaves_flags_alone() {
    let mut emu = Emulator::new();
    emu.load_rom(&[] as &[u8]).unwrap();
    emu.registers.set(RegisterIndex::new(0xF), 1);
    emu.registers.set(RegisterIndex::new(2), 0xFF);
    emu.execute_opcode(Opcode::decode(0x7203)).unwrap();
    assert_eq!(emu.registers.get(RegisterIndex::new(2)), 2);
    assert_eq!(emu.registers.get(RegisterIndex::new(0xF)), 1);
}

#[test]
fn timers_count_down_each_tick() {
    let mut emu = Emulator::new();
    emu.load_rom(&[] as &[u8]).unwrap();
    emu.registers.set(RegisterIndex::new(5), 2);
    // LD DT, V5 then LD ST, V5
    emu.execute_opcode(Opcode::decode(0xF515)).unwrap();
    emu.execute_opcode(Opcode::decode(0xF518)).unwrap();
    assert_eq!(emu.delay_timer(), 2);
    assert_eq!(emu.sound_timer(), 2);
    emu.tick().unwrap();
    assert_eq!(emu.delay_timer(), 1);
    assert_eq!(emu.sound_timer(), 1);
    emu.tick().unwrap();
    emu.tick().unwrap();
    // saturates at zero
    assert_eq!(emu.delay_timer(), 0);
    assert_eq!(emu.sound_timer(), 0);
}

#[test]
fn waiting_key_captures_lowest_pressed_key() {
    let mut emu = Emulator::new();
    // LD V4, K
    emu.load_rom(&[0xF4, 0x0A]).unwrap();
    emu.tick().unwrap();
    assert!(matches!(*emu.state(), State::WaitingKey { .. }));
    let pc_waiting = emu.pc().inner();
    // No key: nothing moves
    emu.tick().unwrap();
    assert_eq!(emu.pc().inner(), pc_waiting);
    // Press two keys; the lowest is captured and execution resumes
    emu.press_key(Key::K7);
    emu.press_key(Key::K3);
    emu.tick().unwrap();
    assert_eq!(emu.registers.get(RegisterIndex::new(4)), 3);
    assert_eq!(*emu.state(), State::Running);
}

#[test]
fn skp_reads_keyboard() {
    let mut emu = Emulator::new();
    // SKP V0 twice in a row
    emu.load_rom(&[0xE0, 0x9E, 0xE0, 0x9E]).unwrap();
    emu.registers.set(RegisterIndex::new(0), 0xB);
    emu.press_key(Key::KB);
    emu.tick().unwrap();
    assert_eq!(emu.pc().inner(), 0x204);
    emu.release_key(Key::KB);
    let mut emu2 = Emulator::new();
    emu2.load_rom(&[0xE0, 0x9E]).unwrap();
    emu2.tick().unwrap();
    assert_eq!(emu2.pc().inner(), 0x202);
}

#[test]
fn rnd_is_deterministic_from_seed() {
    // One LCG step from seed 1: the state's bits 56..63 are 0x6C
    let mut gen = RandGen::from_seed(1);
    assert_eq!(gen.next(), 0x6C);
    assert_eq!(gen.next(), 0x82);

    let mut emu = Emulator::new();
    // RND V0, #FF
    emu.load_rom(&[0xC0, 0xFF]).unwrap();
    emu.rand = RandGen::from_seed(1);
    emu.tick().unwrap();
    assert_eq!(emu.registers.get(RegisterIndex::new(0)), 0x6C);
}

#[test]
fn ret_on_empty_stack_underflows() {
    let mut emu = Emulator::new();
    emu.load_rom(&[0x00, 0xEE]).unwrap();
    assert!(matches!(emu.tick(), Err(EmulatorError::StackUnderFlow)));
}

#[test]
fn add_i_past_range_is_invalid_address() {
    let mut emu = Emulator::new();
    emu.load_rom(&[] as &[u8]).unwrap();
    emu.i = Address::new(0xFFF);
    emu.registers.set(RegisterIndex::new(0), 1);
    assert!(matches!(
        emu.execute_opcode(Opcode::decode(0xF01E)),
        Err(EmulatorError::InvalidAddress(0x1000))
    ));
}

#[test]
fn read_past_memory_is_out_of_bounds() {
    let emu = Emulator::new();
    assert!(matches!(
        emu.read_memory(Address::new(0xFFF), 2),
        Err(EmulatorError::OutOfBounds(0x1001))
    ));
    assert!(emu.read_memory(Address::new(0xFFE), 2).is_ok());
}

#[test]
fn register_index_is_checked() {
    assert!(RegisterIndex::try_new(0xF).is_ok());
    assert!(matches!(
        RegisterIndex::try_new(0x10),
        Err(EmulatorError::InvalidRegister(0x10))
    ));
    assert_eq!(RegisterIndex::new(0x12).inner(), 0x2);
}

#[test]
fn address_is_checked() {
    // 12-bit values are accepted exactly up to 0xFFF
    assert!(Address::try_new(0xFFF).is_ok());
    assert_eq!(Address::try_new(0x123).unwrap().inner(), 0x123);
    assert!(matches!(
        Address::try_new(0x1000),
        Err(EmulatorError::InvalidAddress(0x1000))
    ));
    assert_eq!(Address::new(0x1234).inner(), 0x234);
}

#[test]
fn registers_try_index_is_checked() {
    let mut emu = Emulator::new();
    emu.registers.set(RegisterIndex::new(7), 42);
    assert_eq!(emu.registers.try_index(7).unwrap(), 42);
    assert!(matches!(
        emu.registers.try_index(16),
        Err(EmulatorError::InvalidRegister(16))
    ));
}

#[test]
fn font_glyph_pointer() {
    let mut emu = Emulator::new();
    emu.load_rom(&[] as &[u8]).unwrap();
    emu.registers.set(RegisterIndex::new(1), 0xA);
    // LD F, V1: I points at glyph A, which starts at 10 * 5
    emu.execute_opcode(Opcode::decode(0xF129)).unwrap();
    assert_eq!(emu.i().inner(), 50);
    let glyph = emu.read_memory(Address::new(50), 5).unwrap();
    assert_eq!(glyph, vec![0xF0, 0x90, 0xF0, 0x90, 0x90]);
}

#[test]
fn store_and_load_register_block() {
    let mut emu = Emulator::new();
    emu.load_rom(&[] as &[u8]).unwrap();
    for k in 0..4u8 {
        emu.registers.set(RegisterIndex::new(k), 10 + k);
    }
    emu.i = Address::new(0x400);
    // LD [I], V3: store V0..=V3
    emu.execute_opcode(Opcode::decode(0xF355)).unwrap();
    assert_eq!(emu.read_memory(Address::new(0x400), 4).unwrap(), vec![10, 11, 12, 13]);
    assert_eq!(emu.i().inner(), 0x400);
    // LD V1, [I]: load V0..=V1 back over zeroed registers
    for k in 0..4u8 {
        emu.registers.set(RegisterIndex::new(k), 0);
    }
    emu.execute_opcode(Opcode::decode(0xF165)).unwrap();
    assert_eq!(emu.registers.get(RegisterIndex::new(0)), 10);
    assert_eq!(emu.registers.get(RegisterIndex::new(1)), 11);
    assert_eq!(emu.registers.get(RegisterIndex::new(2)), 0);
}

#[test]
fn pc_cannot_advance_past_memory() {
    let mut emu = Emulator::new();
    // JP #FFE, then executing at 0xFFE fails on the program counter bump
    emu.load_rom(&[0x1F, 0xFE]).unwrap();
    emu.tick().unwrap();
    assert_eq!(emu.pc().inner(), 0xFFE);
    assert!(matches!(emu.tick(), Err(EmulatorError::InvalidAddress(0x1000))));
    assert_eq!(emu.pc().inner(), 0xFFE);
}

#[test]
fn sys_behaves_like_call() {
    let mut emu = Emulator::new();
    // SYS #300 pushes the return point and jumps
    emu.load_rom(&[0x03, 0x00]).unwrap();
    emu.tick().unwrap();
    assert_eq!(emu.pc().inner(), 0x300);
    assert_eq!(emu.stack().len(), 1);
}

#[test]
fn shift_instructions_set_flags() {
    let mut emu = Emulator::new();
    emu.load_rom(&[] as &[u8]).unwrap();
    emu.registers.set(RegisterIndex::new(1), 0b1000_0001);
    // SHR V1: low bit goes to VF
    emu.execute_opcode(Opcode::decode(0x8106)).unwrap();
    assert_eq!(emu.registers.get(RegisterIndex::new(1)), 0b0100_0000);
    assert_eq!(emu.registers.get(RegisterIndex::new(0xF)), 1);
    // SHL V1: high bit goes to VF
    emu.registers.set(RegisterIndex::new(1), 0b1000_0001);
    emu.execute_opcode(Opcode::decode(0x810E)).unwrap();
    assert_eq!(emu.registers.get(RegisterIndex::new(1)), 0b0000_0010);
    assert_eq!(emu.registers.get(RegisterIndex::new(0xF)), 1);
}

#[test]
fn sub_and_subn_set_borrow_flags() {
    let mut emu = Emulator::new();
    emu.load_rom(&[] as &[u8]).unwrap();
    emu.registers.set(RegisterIndex::new(1), 10);
    emu.registers.set(RegisterIndex::new(2), 3);
    // SUB V1, V2: V1 > V2, no borrow
    emu.execute_opcode(Opcode::decode(0x8125)).unwrap();
    assert_eq!(emu.registers.get(RegisterIndex::new(1)), 7);
    assert_eq!(emu.registers.get(RegisterIndex::new(0xF)), 1);
    // SUBN V1, V2: V2 < V1 now (3 < 7), borrow
    emu.registers.set(RegisterIndex::new(1), 7);
    emu.registers.set(RegisterIndex::new(2), 3);
    emu.execute_opcode(Opcode::decode(0x8127)).unwrap();
    assert_eq!(emu.registers.get(RegisterIndex::new(1)), 252);
    assert_eq!(emu.registers.get(RegisterIndex::new(0xF)), 0);
}

#[test]
fn invalid_opcode_is_skipped_not_fatal() {
    let mut emu = Emulator::new();
    emu.load_rom(&[0xFF, 0x99]).unwrap();
    assert!(emu.tick().is_ok());
    assert_eq!(emu.pc().inner(), 0x202);
}
