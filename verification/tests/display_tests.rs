use r8::Address;
use r8::Display;
use r8::Emulator;
use r8::Opcode;
use r8::RegisterIndex;

#[test]
fn blit_and_collision() {
    // Scenario: blit 0xFF at (0, 0) on an empty display, then again
    let mut d = Display::new();
    assert_eq!(d.set(0, 0, 0xFF), 0);
    for x in 0..8 {
        assert!(d.get(x, 0));
    }
    assert!(!d.get(8, 0));
    assert_eq!(d.set(0, 0, 0xFF), 1);
    for x in 0..8 {
        assert!(!d.get(x, 0));
    }
}

#[test]
fn blit_zero_byte_never_collides() {
    let mut d = Display::new();
    assert_eq!(d.set(3, 3, 0x00), 0);
    assert_eq!(d.set(3, 3, 0x00), 0);
    assert!(!d.get(3, 3));
}

#[test]
fn blit_wraps_columns_and_rows() {
    let mut d = Display::new();
    // Column 60 + bit 5 wraps to column 1; row 40 wraps to row 8
    assert_eq!(d.set(60, 40, 0xFF), 0);
    assert!(d.get(60, 8));
    assert!(d.get(63, 8));
    assert!(d.get(0, 8));
    assert!(d.get(3, 8));
    assert!(!d.get(4, 8));
}

#[test]
fn updated_flag_tracks_writes() {
    let mut d = Display::new();
    assert!(!d.updated);
    d.set(0, 0, 0x80);
    assert!(d.updated);
    d.updated = false;
    d.clear();
    assert!(d.updated);
    assert!(!d.get(0, 0));
}

#[test]
fn drw_sets_collision_flag() {
    let mut emu = Emulator::new();
    // Sprite: one row of 0xFF stored at 0x300; draw it twice at (0, 0)
    emu.load_rom(&[] as &[u8]).unwrap();
    emu.memory.read_range(Address::new(0x300), &[0xFF]).unwrap();
    emu.i = Address::new(0x300);
    emu.execute_opcode(Opcode::decode(0xD011)).unwrap();
    assert_eq!(emu.registers.get(RegisterIndex::new(0xF)), 0);
    assert!(emu.display.get(0, 0));
    emu.execute_opcode(Opcode::decode(0xD011)).unwrap();
    assert_eq!(emu.registers.get(RegisterIndex::new(0xF)), 1);
    assert!(!emu.display.get(0, 0));
}

#[test]
fn vram_view_matches_pixels() {
    let mut d = Display::new();
    d.set(10, 5, 0x80);
    let vram = d.get_vram();
    assert!(vram[10][5]);
    assert!(!vram[11][5]);
}
