use chip8::font::font_data;
use chip8::processor::{Cpu, Fault};

/// A CPU with the glyph data in place and `program` at the program
/// region's base, as the loader would leave it.
fn cpu_with_program(program: &[u8]) -> Cpu {
    let mut cpu = Cpu::new();
    let font = font_data();
    for (i, &byte) in font.iter().enumerate() {
        cpu.edit_memory(i, byte);
    }
    for (i, &byte) in program.iter().enumerate() {
        cpu.edit_memory(0x200 + i, byte);
    }
    cpu
}

#[test]
fn add_register_sets_carry_flag() {
    let mut cpu = Cpu::new();
    cpu.load(0, 0xFF);
    cpu.load(1, 0x01);
    cpu.add_register(0, 1);
    assert_eq!(cpu.register(0), 0x00);
    assert!(cpu.flag());

    let mut cpu = Cpu::new();
    cpu.load(0, 0x01);
    cpu.load(1, 0x01);
    cpu.add_register(0, 1);
    assert_eq!(cpu.register(0), 0x02);
    assert!(!cpu.flag());
}

#[test]
fn subtract_first_sets_no_borrow_flag() {
    let mut cpu = Cpu::new();
    cpu.load(0, 5);
    cpu.load(1, 3);
    cpu.subtract_first(0, 1);
    assert_eq!(cpu.register(0), 2);
    assert!(cpu.flag());

    let mut cpu = Cpu::new();
    cpu.load(0, 3);
    cpu.load(1, 5);
    cpu.subtract_first(0, 1);
    assert_eq!(cpu.register(0), 0xFE);
    assert!(!cpu.flag());
}

#[test]
fn subtract_second_stores_reversed_difference() {
    let mut cpu = Cpu::new();
    cpu.load(0, 3);
    cpu.load(1, 10);
    cpu.subtract_second(0, 1);
    assert_eq!(cpu.register(0), 7);
    assert!(cpu.flag());

    let mut cpu = Cpu::new();
    cpu.load(0, 10);
    cpu.load(1, 3);
    cpu.subtract_second(0, 1);
    assert_eq!(cpu.register(0), 0xF9);
    assert!(!cpu.flag());
}

#[test]
fn shift_right_captures_shifted_out_bit() {
    let mut cpu = Cpu::new();
    cpu.load(2, 0b0000_0011);
    cpu.shift_right(2);
    assert_eq!(cpu.register(2), 0b0000_0001);
    assert!(cpu.flag());

    let mut cpu = Cpu::new();
    cpu.load(2, 0b0000_0100);
    cpu.shift_right(2);
    assert_eq!(cpu.register(2), 0b0000_0010);
    assert!(!cpu.flag());
}

#[test]
fn shift_left_captures_shifted_out_bit() {
    let mut cpu = Cpu::new();
    cpu.load(4, 0b1000_0001);
    cpu.shift_left(4);
    assert_eq!(cpu.register(4), 0b0000_0010);
    assert!(cpu.flag());

    let mut cpu = Cpu::new();
    cpu.load(4, 0b0100_0000);
    cpu.shift_left(4);
    assert_eq!(cpu.register(4), 0b1000_0000);
    assert!(!cpu.flag());
}

#[test]
fn add_immediate_wraps_without_touching_flag() {
    let mut cpu = Cpu::new();
    // Put the flag in a known true state first.
    cpu.load(0, 5);
    cpu.load(1, 3);
    cpu.subtract_first(0, 1);
    assert!(cpu.flag());
    cpu.load(0, 0xFF);
    cpu.add(0, 2);
    assert_eq!(cpu.register(0), 1);
    assert!(cpu.flag());
}

#[test]
fn bitwise_operations_store_exact_results() {
    let mut cpu = Cpu::new();
    cpu.load(0, 0b1100);
    cpu.load(1, 0b1010);
    cpu.or(0, 1);
    assert_eq!(cpu.register(0), 0b1110);

    let mut cpu = Cpu::new();
    cpu.load(0, 0b1100);
    cpu.load(1, 0b1010);
    cpu.and(0, 1);
    assert_eq!(cpu.register(0), 0b1000);

    let mut cpu = Cpu::new();
    cpu.load(0, 0b1100);
    cpu.load(1, 0b1010);
    cpu.xor(0, 1);
    assert_eq!(cpu.register(0), 0b0110);
}

#[test]
fn load_register_copies_value() {
    let mut cpu = Cpu::new();
    cpu.load(7, 42);
    cpu.load_register(2, 7);
    assert_eq!(cpu.register(2), 42);
    assert_eq!(cpu.register(7), 42);
}

#[test]
fn call_then_return_restores_counter_and_depth() {
    // Call 0x300 at the program base; a return instruction at 0x300.
    let mut cpu = cpu_with_program(&[0x23, 0x00]);
    cpu.edit_memory(0x300, 0x00);
    cpu.edit_memory(0x301, 0xEE);
    assert_eq!(cpu.pc(), 0x200);
    assert_eq!(cpu.stack_depth(), 0);

    assert_eq!(cpu.process_instruction(), Ok(()));
    assert_eq!(cpu.pc(), 0x300);
    assert_eq!(cpu.stack_depth(), 1);
    assert_eq!(cpu.stack_entry(0), 0x200);

    assert_eq!(cpu.process_instruction(), Ok(()));
    assert_eq!(cpu.pc(), 0x200);
    assert_eq!(cpu.stack_depth(), 0);
}

#[test]
fn draw_composits_font_glyph() {
    // Set V3 = 5, then draw a 5-row sprite at (V1, V2) = (0, 0) using
    // the data at the address register, preset to the glyph for 2.
    let mut cpu = cpu_with_program(&[0x63, 0x05, 0xD1, 0x25]);
    cpu.load_i(10);
    assert_eq!(cpu.process_instruction(), Ok(()));
    assert_eq!(cpu.register(3), 5);
    assert_eq!(cpu.process_instruction(), Ok(()));
    assert_eq!(cpu.pc(), 0x204);

    // The glyph for 2 is 0xF0, 0x10, 0xF0, 0x80, 0xF0, drawn in the
    // four most significant bits of each row.
    let glyph: [[bool; 4]; 5] = [
        [true, true, true, true],
        [false, false, false, true],
        [true, true, true, true],
        [true, false, false, false],
        [true, true, true, true],
    ];
    for y in 0..8u8 {
        for x in 0..8u8 {
            let expected = y < 5 && x < 4 && glyph[y as usize][x as usize];
            assert_eq!(cpu.get_pixel(x, y), expected, "pixel ({}, {})", x, y);
        }
    }
}

#[test]
fn draw_wraps_at_screen_edges() {
    // A one-row sprite of eight set bits drawn at column 60 wraps onto
    // columns 0 through 3.
    let mut cpu = Cpu::new();
    cpu.edit_memory(0x700, 0xFF);
    cpu.load_i(0x700);
    cpu.load(0, 60);
    cpu.load(1, 31);
    assert_eq!(cpu.draw(0, 1, 1), Ok(()));
    for x in [60u8, 61, 62, 63, 0, 1, 2, 3] {
        assert!(cpu.get_pixel(x, 31));
    }
    assert!(!cpu.get_pixel(4, 31));
    assert!(!cpu.get_pixel(59, 31));
}

#[test]
fn oversized_sprite_is_a_fault_and_draws_nothing() {
    let mut cpu = Cpu::new();
    cpu.edit_memory(0x300, 0xFF);
    cpu.load_i(0x300);
    assert_eq!(cpu.draw(0, 1, 16), Err(Fault::SpriteTooTall));
    for y in 0..32u8 {
        for x in 0..64u8 {
            assert!(!cpu.get_pixel(x, y));
        }
    }
}

#[test]
fn sprite_reaching_past_memory_is_a_fault() {
    let mut cpu = Cpu::new();
    cpu.load_i(0xFFF);
    assert_eq!(cpu.draw(0, 1, 5), Err(Fault::SpriteOutOfBounds));
}

#[test]
fn unknown_opcode_is_a_decode_fault() {
    // Top nibble 0 with a low byte that is none of the recognized
    // encodings.
    let mut cpu = cpu_with_program(&[0x01, 0x23]);
    assert_eq!(
        cpu.process_instruction(),
        Err(Fault::UnknownInstruction { instruction: 0x0123, program_counter: 0x200 })
    );
    assert_eq!(cpu.pc(), 0x200);
}

#[test]
fn unknown_arithmetic_selector_is_a_decode_fault() {
    let mut cpu = cpu_with_program(&[0x80, 0x19]);
    assert_eq!(
        cpu.process_instruction(),
        Err(Fault::UnknownInstruction { instruction: 0x8019, program_counter: 0x200 })
    );
}

#[test]
fn nop_only_advances_the_counter() {
    let mut cpu = cpu_with_program(&[0x00, 0x00]);
    assert_eq!(cpu.process_instruction(), Ok(()));
    assert_eq!(cpu.pc(), 0x202);
    assert_eq!(cpu.stack_depth(), 0);
    assert_eq!(cpu.register(0), 0);
}

#[test]
fn return_with_empty_stack_is_a_fault() {
    let mut cpu = cpu_with_program(&[0x00, 0xEE]);
    assert_eq!(cpu.process_instruction(), Err(Fault::StackUnderflow));
    assert_eq!(cpu.pc(), 0x200);
}

#[test]
fn seventeenth_nested_call_is_a_fault() {
    // The call at the program base targets itself, so every cycle
    // pushes another return address.
    let mut cpu = cpu_with_program(&[0x22, 0x00]);
    for depth in 1..=16usize {
        assert_eq!(cpu.process_instruction(), Ok(()));
        assert_eq!(cpu.stack_depth(), depth);
    }
    assert_eq!(cpu.process_instruction(), Err(Fault::StackOverflow));
    assert_eq!(cpu.stack_depth(), 16);
}

#[test]
fn counter_outside_memory_is_a_fault() {
    // Jump to the last byte of memory: the next fetch would read past
    // the end.
    let mut cpu = cpu_with_program(&[0x1F, 0xFF]);
    assert_eq!(cpu.process_instruction(), Ok(()));
    assert_eq!(cpu.pc(), 0xFFF);
    assert_eq!(cpu.process_instruction(), Err(Fault::ProgramCounterOutOfRange));
}

#[test]
fn skip_equal_immediate_lands_four_ahead() {
    let mut cpu = cpu_with_program(&[0x30, 0x00]);
    assert_eq!(cpu.process_instruction(), Ok(()));
    assert_eq!(cpu.pc(), 0x204);

    let mut cpu = cpu_with_program(&[0x30, 0x07]);
    assert_eq!(cpu.process_instruction(), Ok(()));
    assert_eq!(cpu.pc(), 0x202);
}

#[test]
fn skip_not_equal_immediate_lands_four_ahead() {
    let mut cpu = cpu_with_program(&[0x40, 0x07]);
    assert_eq!(cpu.process_instruction(), Ok(()));
    assert_eq!(cpu.pc(), 0x204);

    let mut cpu = cpu_with_program(&[0x40, 0x00]);
    assert_eq!(cpu.process_instruction(), Ok(()));
    assert_eq!(cpu.pc(), 0x202);
}

#[test]
fn skip_register_comparisons_land_four_ahead() {
    let mut cpu = cpu_with_program(&[0x50, 0x10]);
    cpu.load(0, 9);
    cpu.load(1, 9);
    assert_eq!(cpu.process_instruction(), Ok(()));
    assert_eq!(cpu.pc(), 0x204);

    let mut cpu = cpu_with_program(&[0x90, 0x10]);
    cpu.load(0, 9);
    cpu.load(1, 8);
    assert_eq!(cpu.process_instruction(), Ok(()));
    assert_eq!(cpu.pc(), 0x204);

    let mut cpu = cpu_with_program(&[0x90, 0x10]);
    cpu.load(0, 9);
    cpu.load(1, 9);
    assert_eq!(cpu.process_instruction(), Ok(()));
    assert_eq!(cpu.pc(), 0x202);
}

#[test]
fn load_immediate_through_a_cycle() {
    let mut cpu = cpu_with_program(&[0x6A, 0x2F]);
    assert_eq!(cpu.process_instruction(), Ok(()));
    assert_eq!(cpu.register(0xA), 0x2F);
    assert_eq!(cpu.pc(), 0x202);
}

#[test]
fn load_address_register_through_a_cycle() {
    let mut cpu = cpu_with_program(&[0xA1, 0x23]);
    assert_eq!(cpu.process_instruction(), Ok(()));
    assert_eq!(cpu.index_register(), 0x123);
    assert_eq!(cpu.pc(), 0x202);
}

#[test]
fn jump_replaces_the_counter_outright() {
    let mut cpu = cpu_with_program(&[0x12, 0x34]);
    assert_eq!(cpu.process_instruction(), Ok(()));
    assert_eq!(cpu.pc(), 0x234);
}

#[test]
fn jump_offset_adds_register_zero() {
    let mut cpu = cpu_with_program(&[0xB3, 0x00]);
    cpu.load(0, 4);
    assert_eq!(cpu.process_instruction(), Ok(()));
    assert_eq!(cpu.pc(), 0x304);
}

#[test]
fn add_to_address_register() {
    let mut cpu = cpu_with_program(&[0xF3, 0x1E]);
    cpu.load_i(0x100);
    cpu.load(3, 5);
    assert_eq!(cpu.process_instruction(), Ok(()));
    assert_eq!(cpu.index_register(), 0x105);
    assert_eq!(cpu.pc(), 0x202);
}

#[test]
fn random_respects_its_mask() {
    let mut cpu = cpu_with_program(&[0xC0, 0x0F]);
    assert_eq!(cpu.process_instruction(), Ok(()));
    assert_eq!(cpu.register(0) & 0xF0, 0);
    assert_eq!(cpu.pc(), 0x202);
}

#[test]
fn random_with_injected_byte_is_exact() {
    let mut cpu = Cpu::new();
    cpu.random(1, 0x0F, 0xAB);
    assert_eq!(cpu.register(1), 0x0B);
    cpu.random(1, 0xFF, 0x3C);
    assert_eq!(cpu.register(1), 0x3C);
}

#[test]
fn cycle_with_injected_randomness_is_exact() {
    let mut cpu = cpu_with_program(&[0xC2, 0xF0]);
    assert_eq!(cpu.process_with_random(0x5A), Ok(()));
    assert_eq!(cpu.register(2), 0x50);
    assert_eq!(cpu.pc(), 0x202);
}

#[test]
fn key_skips_consult_the_pressed_set() {
    let mut cpu = cpu_with_program(&[0xE0, 0x9E]);
    cpu.load(0, 5);
    cpu.set_key(5, true);
    assert_eq!(cpu.process_instruction(), Ok(()));
    assert_eq!(cpu.pc(), 0x204);

    let mut cpu = cpu_with_program(&[0xE0, 0x9E]);
    cpu.load(0, 5);
    assert_eq!(cpu.process_instruction(), Ok(()));
    assert_eq!(cpu.pc(), 0x202);

    let mut cpu = cpu_with_program(&[0xE0, 0xA1]);
    cpu.load(0, 5);
    assert_eq!(cpu.process_instruction(), Ok(()));
    assert_eq!(cpu.pc(), 0x204);
}

#[test]
fn clear_screen_through_a_cycle() {
    let mut cpu = cpu_with_program(&[0x00, 0xE0]);
    cpu.edit_memory(0x700, 0xFF);
    cpu.load_i(0x700);
    assert_eq!(cpu.draw(0, 1, 1), Ok(()));
    assert!(cpu.get_pixel(0, 0));
    assert_eq!(cpu.process_instruction(), Ok(()));
    assert_eq!(cpu.pc(), 0x202);
    for y in 0..32u8 {
        for x in 0..64u8 {
            assert!(!cpu.get_pixel(x, y));
        }
    }
}

#[test]
fn drawing_twice_erases_the_sprite() {
    let mut cpu = Cpu::new();
    cpu.edit_memory(0x700, 0xA5);
    cpu.edit_memory(0x701, 0x5A);
    cpu.load_i(0x700);
    cpu.load(0, 10);
    cpu.load(1, 10);
    assert_eq!(cpu.draw(0, 1, 2), Ok(()));
    assert!(cpu.get_pixel(10, 10));
    assert_eq!(cpu.draw(0, 1, 2), Ok(()));
    for y in 0..32u8 {
        for x in 0..64u8 {
            assert!(!cpu.get_pixel(x, y));
        }
    }
}
