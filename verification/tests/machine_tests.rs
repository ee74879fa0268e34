use chip8::chip::{Chip8, DISPLAY_MAX_X, START_ADDR};
use chip8::error::ChipError;

#[test]
fn test_new_machine_defaults() {
    let chip = Chip8::new();
    assert_eq!(START_ADDR, chip.position_in_memory);
    assert_eq!(0, chip.stack_pointer);
    assert_eq!(0, chip.i_register);
    assert_eq!(0, chip.delay_timer_register);
    assert_eq!(0, chip.sound_timer_register);
    assert!(chip.registers.iter().all(|r| *r == 0));
    assert!(chip.keys.iter().all(|k| !*k));
    assert!(chip.display.iter().all(|p| !*p));
    //the glyph set sits at its fixed low region: glyph 0 starts with 0xF0,
    //glyph F ends with 0x80
    assert_eq!(0xF0, chip.memory[0x50]);
    assert_eq!(0x80, chip.memory[0x50 + 79]);
    assert!(chip.memory[..0x50].iter().all(|b| *b == 0));
    assert!(chip.memory[0xA0..].iter().all(|b| *b == 0));
}

#[test]
fn test_load_rom_copies_image() {
    let rom = [0x12u8, 0x34, 0x56];
    let chip = Chip8::new_with_rom(&rom);
    assert_eq!(0x12, chip.memory[START_ADDR]);
    assert_eq!(0x34, chip.memory[START_ADDR + 1]);
    assert_eq!(0x56, chip.memory[START_ADDR + 2]);
    assert_eq!(0, chip.memory[START_ADDR + 3]);
    assert_eq!(START_ADDR, chip.position_in_memory);
}

#[test]
fn test_get_display_matches_field() {
    let mut chip = Chip8::new();
    chip.display[5] = true;
    assert!(chip.get_display()[5]);
    assert_eq!(chip.get_display().len(), 64 * 32);
}

#[test]
fn test_key_press_invalid_key() {
    let mut chip = Chip8::new();
    assert_eq!(Err(ChipError::InvalidKey(16)), chip.key_press(16));
    assert_eq!(Err(ChipError::InvalidKey(255)), chip.key_release(255));
    assert!(chip.keys.iter().all(|k| !*k));
}

#[test]
fn test_key_press_and_release_latch() {
    let mut chip = Chip8::new();
    chip.key_press(0x3).unwrap();
    assert!(chip.keys[0x3]);
    chip.key_release(0x3).unwrap();
    assert!(!chip.keys[0x3]);
}

#[test]
fn test_execute_unknown_opcode_fails() {
    let mut chip = Chip8::new();
    assert_eq!(Err(ChipError::UnknownOpcode(0xFFFF)), chip.execute(0xFFFF));
    assert_eq!(Err(ChipError::UnknownOpcode(0x5231)), chip.execute(0x5231));
}

#[test]
fn test_execute_sys_opcode_fails() {
    let mut chip = Chip8::new();
    assert_eq!(Err(ChipError::SysOpcodeNotSupported(0x123)), chip.execute(0x0123));
}

#[test]
fn test_call_overflow_reports_error() {
    let mut chip = Chip8::new();
    //16 nested calls succeed
    for k in 0u16..16 {
        assert_eq!(Ok(()), chip.call(0x300 + k));
    }
    assert_eq!(16, chip.stack_pointer);
    //the 17th overflows and changes nothing
    let pc_before = chip.position_in_memory;
    assert_eq!(Err(ChipError::StackOverflow), chip.call(0x400));
    assert_eq!(16, chip.stack_pointer);
    assert_eq!(pc_before, chip.position_in_memory);
}

#[test]
fn test_ret_underflow_reports_error() {
    let mut chip = Chip8::new();
    assert_eq!(Err(ChipError::StackUnderflow), chip.ret());
    assert_eq!(0, chip.stack_pointer);
}

#[test]
fn test_call_then_ret_restores_pc() {
    let mut chip = Chip8::new();
    chip.position_in_memory = 0x208;
    chip.call(0x3AB).unwrap();
    assert_eq!(0x3AB, chip.position_in_memory);
    chip.ret().unwrap();
    assert_eq!(0x208, chip.position_in_memory);
    assert_eq!(0, chip.stack_pointer);
}

#[test]
fn test_tick_at_wait_instruction_stalls_then_proceeds() {
    let mut chip = Chip8::new();
    //program: wait for key and store in V0
    chip.memory[0x300] = 0xF0;
    chip.memory[0x301] = 0x0A;
    chip.position_in_memory = 0x300;

    //no key pressed: the tick leaves the program counter where it was
    chip.tick().unwrap();
    assert_eq!(0x300, chip.position_in_memory);
    chip.tick().unwrap();
    assert_eq!(0x300, chip.position_in_memory);

    //once a key is pressed the same instruction completes and advances
    chip.key_press(0x5).unwrap();
    chip.tick().unwrap();
    assert_eq!(0x302, chip.position_in_memory);
    assert_eq!(0x5, chip.registers[0]);
}

#[test]
fn test_wait_for_key_press_highest_pressed_wins() {
    let mut chip = Chip8::new();
    chip.position_in_memory = 0x300;
    chip.key_press(0x2).unwrap();
    chip.key_press(0xB).unwrap();
    chip.key_press(0x7).unwrap();
    chip.wait_for_keypress_store_vx(4);
    //ascending scan, last match wins: the highest pressed index
    assert_eq!(0xB, chip.registers[4]);
    assert_eq!(0x300, chip.position_in_memory);
}

#[test]
fn test_add_to_value_in_register_wraps() {
    let mut chip = Chip8::new();
    chip.registers[0] = 200;
    chip.add_to_value_in_register(0, 100);
    assert_eq!(44, chip.registers[0]);
    //no flag effect
    assert_eq!(0, chip.registers[0xF]);
}

#[test]
fn test_sub_equal_values_strict_no_borrow() {
    let mut chip = Chip8::new();
    chip.registers[0] = 7;
    chip.registers[1] = 7;
    chip.sub_y_from_x(0, 1);
    assert_eq!(0, chip.registers[0]);
    //strict convention: equal values leave the flag register 0
    assert_eq!(0, chip.registers[0xF]);
}

#[test]
fn test_random_number_is_masked() {
    let mut chip = Chip8::new();
    chip.registers[3] = 0xAA;
    chip.execute(0xC30F).unwrap();
    //the drawn byte is ANDed with the immediate mask 0x0F
    assert_eq!(0, chip.registers[3] & 0xF0);
}

#[test]
fn test_draw_sets_pixels_and_reports_no_collision_on_blank() {
    let mut chip = Chip8::new();
    chip.memory[0x300] = 0b11000001;
    chip.i_register = 0x300;
    chip.registers[0] = 4;
    chip.registers[1] = 2;
    chip.draw(0, 1, 1);
    let row = 2 * DISPLAY_MAX_X;
    assert!(chip.display[row + 4]);
    assert!(chip.display[row + 5]);
    assert!(!chip.display[row + 6]);
    assert!(chip.display[row + 11]);
    assert_eq!(0, chip.registers[0xF]);
}

#[test]
fn test_draw_twice_restores_display_and_reports_collision() {
    let mut chip = Chip8::new();
    chip.memory[0x300] = 0b10100101;
    chip.memory[0x301] = 0b01011010;
    chip.i_register = 0x300;
    chip.registers[0] = 10;
    chip.registers[1] = 20;
    let blank = chip.display.clone();

    chip.draw(0, 1, 2);
    assert_eq!(0, chip.registers[0xF]);
    assert!(chip.display.contains(&true));

    //the second identical draw toggles every touched pixel back and collides
    chip.draw(0, 1, 2);
    assert_eq!(1, chip.registers[0xF]);
    assert_eq!(blank, chip.display);
}

#[test]
fn test_draw_wraps_columns_past_right_edge() {
    let mut chip = Chip8::new();
    chip.memory[0x300] = 0xFF;
    chip.i_register = 0x300;
    chip.registers[0] = 60;
    chip.registers[1] = 30;
    chip.draw(0, 1, 1);
    let row = 30 * DISPLAY_MAX_X;
    //columns 60..63 light up, and the rest wrap back to 0..3
    for x in 60..64 {
        assert!(chip.display[row + x]);
    }
    for x in 0..4 {
        assert!(chip.display[row + x]);
    }
    for x in 4..60 {
        assert!(!chip.display[row + x]);
    }
}

#[test]
fn test_draw_wraps_rows_past_bottom_edge() {
    let mut chip = Chip8::new();
    chip.memory[0x300] = 0x80;
    chip.memory[0x301] = 0x80;
    chip.memory[0x302] = 0x80;
    chip.i_register = 0x300;
    chip.registers[0] = 0;
    chip.registers[1] = 30;
    chip.draw(0, 1, 3);
    assert!(chip.display[30 * DISPLAY_MAX_X]);
    assert!(chip.display[31 * DISPLAY_MAX_X]);
    //the third row wraps back to the top
    assert!(chip.display[0]);
}

#[test]
fn test_bcd_boundaries() {
    let mut chip = Chip8::new();
    chip.i_register = 0x400;
    chip.registers[2] = 255;
    chip.load_vx_as_decimal_into_memory_at_i(2);
    assert_eq!(2, chip.memory[0x400]);
    assert_eq!(5, chip.memory[0x401]);
    assert_eq!(5, chip.memory[0x402]);

    chip.registers[2] = 0;
    chip.load_vx_as_decimal_into_memory_at_i(2);
    assert_eq!(0, chip.memory[0x400]);
    assert_eq!(0, chip.memory[0x401]);
    assert_eq!(0, chip.memory[0x402]);
}

#[test]
fn test_tick_skip_instruction() {
    let mut chip = Chip8::new();
    //3xkk: skip when V1 == 0x42
    chip.memory[0x300] = 0x31;
    chip.memory[0x301] = 0x42;
    chip.registers[1] = 0x42;
    chip.position_in_memory = 0x300;
    chip.tick().unwrap();
    assert_eq!(0x304, chip.position_in_memory);
}

#[test]
fn test_font_address_uses_low_nibble() {
    let mut chip = Chip8::new();
    //only the low nibble names the glyph: 0x10 means digit 0, 0x1A digit A
    chip.registers[0] = 0x10;
    chip.set_font_address_for_value_in_vx(0);
    assert_eq!(0x50, chip.i_register);

    chip.registers[0] = 0x1A;
    chip.set_font_address_for_value_in_vx(0);
    assert_eq!(0x50 + 5 * 0xA, chip.i_register);
}

#[test]
fn test_tick_ready_mirrors_bounds() {
    let mut chip = Chip8::new();
    //a fresh machine points at two in-bounds zero bytes
    assert!(chip.tick_ready());
    //a draw whose sprite would be read past the end of memory is refused
    chip.memory[0x300] = 0xD0; //draw 8x2 sprite at (V0, V1)
    chip.memory[0x301] = 0x12;
    chip.position_in_memory = 0x300;
    chip.i_register = 0xFFF;
    assert!(!chip.tick_ready());
    chip.i_register = 0x300;
    assert!(chip.tick_ready());
    //a counter at the last byte cannot fetch a whole word
    chip.position_in_memory = 0xFFF;
    assert!(!chip.tick_ready());
}

#[test]
fn test_timers_stay_at_zero() {
    let mut chip = Chip8::new();
    chip.tick_timers();
    assert_eq!(0, chip.delay_timer_register);
    assert_eq!(0, chip.sound_timer_register);
}
