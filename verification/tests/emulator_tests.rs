use r8::Address;
use r8::Emulator;
use r8::RegisterIndex;

fn initialize_empty_emulator() -> Emulator {
    let mut emulator = Emulator::new();
    assert!(emulator.load_rom(&[0u8] as &[u8]).is_ok());
    emulator
}

#[test]
fn memory_load_and_access() {
    let data = [0xFF, 0xEE, 0xDD, 0xCC];
    let mut emulator = initialize_empty_emulator();

    // Read the program entry point to check the load put nothing there
    let buffer = emulator.memory.write_range(Address::new(0x200), 4).unwrap();
    assert_eq!(buffer, [0; 4]);

    // Test that the write and read functions work as expected
    emulator.memory.read_range(Address::new(0x200), &data).unwrap();
    let buffer = emulator.memory.write_range(Address::new(0x200), 4).unwrap();
    assert_eq!(buffer, data);
}

#[test]
fn tests_memory_load_and_access() {
    let data = [0xFF, 0xEE, 0xDD, 0xCC];
    let mut emulator = initialize_empty_emulator();

    let buffer = emulator.memory.write_range(Address::new(0x200), 4).unwrap();
    assert_eq!(buffer, [0; 4]);

    emulator.memory.read_range(Address::new(0x200), &data).unwrap();
    let buffer = emulator.memory.write_range(Address::new(0x200), 4).unwrap();
    assert_eq!(buffer, data);
}

/// Test 1NNN, 2NNN and 00EE chip-8 instructions
#[test]
fn test_jump_instructions() {
    let mut emulator = initialize_empty_emulator();

    let address: Address = Address::new(0x344);
    // Set the instruction at the entry point to JP 0x344 -> 1344
    let jump_opcode = [0x13, 0x44];
    emulator.memory.read_range(Address::new(0x200), &jump_opcode).unwrap();
    assert!(matches!(emulator.tick(), Ok(())));
    // Program counter must be at the address 0x344
    assert_eq!(address, emulator.pc);
    let program = [
        0x23, 0x46, // Call 0x346
        0x00, 0xEE, // Ret
    ];
    emulator.memory.read_range(address, &program).unwrap();
    assert!(matches!(emulator.tick(), Ok(())));
    // Call pushed the return point; program counter must be 0x346
    assert_eq!(address.inner() + 2, emulator.pc.inner());
    assert!(matches!(emulator.tick(), Ok(())));
    // Ret must set the program counter to the saved return point, 0x346
    assert_eq!(address.inner() + 2, emulator.pc.inner());
}

#[test]
fn tests_test_jump_instructions() {
    let mut emulator = initialize_empty_emulator();

    let address: Address = Address::new(0x344);
    let jump_opcode = [0x13, 0x44];
    emulator.memory.read_range(Address::new(0x200), &jump_opcode).unwrap();
    assert!(matches!(emulator.tick(), Ok(())));
    assert_eq!(address, emulator.pc);
    let program = [0x23, 0x46, 0x00, 0xEE];
    emulator.memory.read_range(address, &program).unwrap();
    assert!(matches!(emulator.tick(), Ok(())));
    assert_eq!(address.inner() + 2, emulator.pc.inner());
    assert!(matches!(emulator.tick(), Ok(())));
    assert_eq!(address.inner() + 2, emulator.pc.inner());
}

/// Test 3xKK, 4xKK and 5xy0 chip-8 instructions
#[test]
fn test_skip() {
    let mut emulator = initialize_empty_emulator();

    // A program with various skip instructions and padding
    let program = [
        0x30, 0x00, // Skip next instruction if V0 equals 0
        0x00, 0x00, // Padding
        0x30, 0x01, // Skip next instruction if V0 equals 1
        0x42, 0x03, // Skip next instruction if V2 does not equal 3
        0x00, 0x00, // Padding
        0x42, 0x04, // Skip next instruction if V2 does not equal 4
        0x51, 0x20, // Skip next instruction if V1 equals V2
        0x00, 0x00, // Padding
        0x51, 0x20, // Skip next instruction if V1 equals V2
    ];

    emulator.memory.read_range(Address::new(0x200), &program).unwrap();

    // Set V0 for the first skip instruction
    emulator.registers.set(RegisterIndex::new(0), 0);

    assert!(matches!(emulator.tick(), Ok(())));
    assert_eq!(emulator.pc.inner(), 0x200 + 4);

    // Change V0 so the second skip does not fire
    emulator.registers.set(RegisterIndex::new(0), 2);
    assert!(matches!(emulator.tick(), Ok(())));
    assert_eq!(emulator.pc.inner(), 0x200 + 6);

    // Set V2 for the third and fourth skip instructions
    emulator.registers.set(RegisterIndex::new(2), 4);
    assert!(matches!(emulator.tick(), Ok(())));
    assert_eq!(emulator.pc.inner(), 0x200 + 10);
    assert!(matches!(emulator.tick(), Ok(())));
    assert_eq!(emulator.pc.inner(), 0x200 + 12);

    // Set V1 and V2 to the same value for the fifth skip instruction
    emulator.registers.set(RegisterIndex::new(1), 6);
    emulator.registers.set(RegisterIndex::new(2), 6);

    assert!(matches!(emulator.tick(), Ok(())));
    assert_eq!(emulator.pc.inner(), 0x200 + 16);

    // Change V1 so the sixth skip fires
    emulator.registers.set(RegisterIndex::new(1), 0);

    assert!(matches!(emulator.tick(), Ok(())));
    assert_eq!(emulator.pc.inner(), 0x200 + 18);
}

#[test]
fn tests_test_skip() {
    let mut emulator = initialize_empty_emulator();

    let program = [
        0x30, 0x00, 0x00, 0x00, 0x30, 0x01, 0x42, 0x03, 0x00, 0x00, 0x42, 0x04, 0x51, 0x20, 0x00,
        0x00, 0x51, 0x20,
    ];
    emulator.memory.read_range(Address::new(0x200), &program).unwrap();

    emulator.registers.set(RegisterIndex::new(0), 0);
    assert!(matches!(emulator.tick(), Ok(())));
    assert_eq!(emulator.pc.inner(), 0x200 + 4);

    emulator.registers.set(RegisterIndex::new(0), 2);
    assert!(matches!(emulator.tick(), Ok(())));
    assert_eq!(emulator.pc.inner(), 0x200 + 6);

    emulator.registers.set(RegisterIndex::new(2), 4);
    assert!(matches!(emulator.tick(), Ok(())));
    assert_eq!(emulator.pc.inner(), 0x200 + 10);
    assert!(matches!(emulator.tick(), Ok(())));
    assert_eq!(emulator.pc.inner(), 0x200 + 12);

    emulator.registers.set(RegisterIndex::new(1), 6);
    emulator.registers.set(RegisterIndex::new(2), 6);
    assert!(matches!(emulator.tick(), Ok(())));
    assert_eq!(emulator.pc.inner(), 0x200 + 16);

    emulator.registers.set(RegisterIndex::new(1), 0);
    assert!(matches!(emulator.tick(), Ok(())));
    assert_eq!(emulator.pc.inner(), 0x200 + 18);
}
