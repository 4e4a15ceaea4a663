use chip8::Chip8;
use chip8::processor::Fault;

#[test]
fn rom_larger_than_the_program_region_is_rejected() {
    let mut machine = Chip8::new();
    let rom = vec![0u8; 0xFFF - 0x200 + 1];
    assert_eq!(machine.load_rom(rom), Err(Fault::RomTooLarge));
}

#[test]
fn rom_filling_the_program_region_exactly_is_accepted() {
    let mut machine = Chip8::new();
    let rom = vec![0u8; 0xFFF - 0x200];
    assert_eq!(machine.load_rom(rom), Ok(()));
}

#[test]
fn loaded_program_draws_the_first_glyph() {
    // Set V3 = 5, then draw a 5-row sprite at (V1, V2) = (0, 0).  The
    // address register is still 0, so the sprite data is the glyph for
    // 0 placed by construction: 0xF0, 0x90, 0x90, 0x90, 0xF0.
    let mut machine = Chip8::new();
    assert_eq!(machine.load_rom(vec![0x63, 0x05, 0xD1, 0x25]), Ok(()));
    assert_eq!(machine.tick(), Ok(()));
    assert_eq!(machine.tick(), Ok(()));

    let glyph: [[bool; 4]; 5] = [
        [true, true, true, true],
        [true, false, false, true],
        [true, false, false, true],
        [true, false, false, true],
        [true, true, true, true],
    ];
    for y in 0..8u8 {
        for x in 0..8u8 {
            let expected = y < 5 && x < 4 && glyph[y as usize][x as usize];
            assert_eq!(machine.get_pixel(x, y), expected, "pixel ({}, {})", x, y);
        }
    }
}

#[test]
fn empty_memory_after_the_program_decodes_as_a_fault_free_nop() {
    // The zeroed byte pair at the program region's base is the no-op
    // encoding, so a fresh machine simply walks the counter forward.
    let mut machine = Chip8::new();
    assert_eq!(machine.tick(), Ok(()));
    assert_eq!(machine.tick(), Ok(()));
}

#[test]
fn taken_key_skip_jumps_over_the_draw() {
    // Skip-if-pressed over a draw instruction: when the key is down
    // the draw is skipped and the screen stays dark.
    let rom = vec![0xE0, 0x9E, 0xD0, 0x15];
    let mut machine = Chip8::new();
    assert_eq!(machine.load_rom(rom.clone()), Ok(()));
    machine.set_key(0, true);
    assert_eq!(machine.tick(), Ok(()));
    assert_eq!(machine.tick(), Ok(()));
    for y in 0..32u8 {
        for x in 0..64u8 {
            assert!(!machine.get_pixel(x, y));
        }
    }

    // With the key up the draw executes and lights glyph pixels.
    let mut machine = Chip8::new();
    assert_eq!(machine.load_rom(rom), Ok(()));
    assert_eq!(machine.tick(), Ok(()));
    assert_eq!(machine.tick(), Ok(()));
    assert!(machine.get_pixel(0, 0));
}

#[test]
fn fault_is_reported_through_tick() {
    let mut machine = Chip8::new();
    assert_eq!(machine.load_rom(vec![0x01, 0x23]), Ok(()));
    assert_eq!(
        machine.tick(),
        Err(Fault::UnknownInstruction { instruction: 0x0123, program_counter: 0x200 })
    );
}

#[test]
fn render_matches_get_pixel() {
    let mut machine = Chip8::new();
    assert_eq!(machine.load_rom(vec![0xD0, 0x15]), Ok(()));
    assert_eq!(machine.tick(), Ok(()));
    let rows = machine.render();
    assert_eq!(rows.len(), 32);
    for y in 0..32u8 {
        assert_eq!(rows[y as usize].len(), 64);
        for x in 0..64u8 {
            assert_eq!(rows[y as usize][x as usize], machine.get_pixel(x, y));
        }
    }
    assert!(rows[0][0]);
}
