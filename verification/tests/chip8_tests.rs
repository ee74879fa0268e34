use chip8::chip::Chip8;

#[test]
fn chip8_test_tick() {
    let mut chip = Chip8::new();

    //test load jump command and execute.
    //jump to 400
    chip.memory[0x300] = 0x14;
    chip.memory[0x301] = 0x00;
    chip.position_in_memory = 0x300;
    chip.tick().unwrap();
    assert_eq!(0x400, chip.position_in_memory);
}

#[test]
fn chip8_test_tick_timers() {
    let mut chip = Chip8::new();

    chip.delay_timer_register = 2;
    chip.sound_timer_register = 1;

    chip.tick_timers();

    assert_eq!(1, chip.delay_timer_register);
    assert_eq!(0, chip.sound_timer_register);

    chip.tick_timers();

    assert_eq!(0, chip.delay_timer_register);
    assert_eq!(0, chip.sound_timer_register);
}

#[test]
fn chip8_test_fetch() {
    let mut chip8 = Chip8::new();
    chip8.position_in_memory = 0;
    chip8.memory[0] = 0x12;
    chip8.memory[1] = 0x34;
    assert_eq!(chip8.fetch(), 0x1234);
    assert_eq!(chip8.position_in_memory, 2);
}

#[test]
fn chip8_test_call() {
    let mut chip8 = Chip8::new();
    chip8.position_in_memory = 0x200;
    chip8.stack_pointer = 0;
    chip8.call(0x300).unwrap();
    assert_eq!(chip8.stack_pointer, 1);
    assert_eq!(chip8.stack[0], 0x200);
    assert_eq!(chip8.position_in_memory, 0x300);
}

#[test]
fn chip8_test_ret() {
    let mut chip8 = Chip8::new();
    chip8.stack_pointer = 1;
    chip8.stack[0] = 0x300;
    chip8.ret().unwrap();
    assert_eq!(chip8.stack_pointer, 0);
    assert_eq!(chip8.position_in_memory, 0x300);
}

#[test]
fn chip8_test_jump() {
    let mut chip8 = Chip8::new();
    chip8.jump(0x300);
    assert_eq!(chip8.position_in_memory, 0x300);
}

#[test]
fn chip8_test_jump_plus_v0() {
    let mut chip8 = Chip8::new();
    chip8.registers[0] = 0x21;
    chip8.jump_plus_v0(0x300);
    assert_eq!(chip8.position_in_memory, 0x321);
}

#[test]
fn chip8_test_skip_if_equal_at_x() {
    //position in memory starts at 0 here
    let mut chip8 = Chip8::new();
    chip8.position_in_memory = 0;
    chip8.registers[0] = 0x12;
    //don't call tick, call method manually
    chip8.skip_if_equal_at_x(0, 0x12);
    //position in memory should be incremented by 2
    assert_eq!(chip8.position_in_memory, 2);
}

#[test]
fn chip8_test_skip_if_not_equal_at_x() {
    //position in memory starts at 0 here
    let mut chip8 = Chip8::new();
    chip8.position_in_memory = 0;
    chip8.registers[0] = 0x12;
    //don't call tick, call method manually
    chip8.skip_if_not_equal_at_x(0, 0x13);
    //position in memory should be incremented by 2
    assert_eq!(chip8.position_in_memory, 2);
}

#[test]
fn chip8_test_skip_if_both_values_are_equal() {
    //position in memory starts at 0 here
    let mut chip8 = Chip8::new();
    chip8.position_in_memory = 0;
    chip8.registers[0] = 0x12;
    chip8.registers[1] = 0x12;
    //don't call tick, call method manually
    chip8.skip_if_both_values_are_equal(0, 1);
    //position in memory should be incremented by 2
    assert_eq!(chip8.position_in_memory, 2);
}

#[test]
fn chip8_test_load_value_to_register() {
    let mut chip8 = Chip8::new();
    chip8.load_value_to_register(0, 0x12);
    assert_eq!(chip8.registers[0], 0x12);
}

#[test]
fn chip8_test_add_to_value_in_register() {
    let mut chip8 = Chip8::new();
    chip8.registers[0] = 0x12;
    chip8.add_to_value_in_register(0, 0x12);
    assert_eq!(chip8.registers[0], 0x24);
}

#[test]
fn chip8_test_load_y_into_x() {
    let mut chip8 = Chip8::new();
    chip8.registers[1] = 0x12;
    chip8.load_y_into_x(0, 1);
    assert_eq!(chip8.registers[0], 0x12);
}

#[test]
fn chip8_test_bitwise_or_xy() {
    let mut chip8 = Chip8::new();
    chip8.registers[0] = 0b1010;
    chip8.registers[1] = 0b1100;
    chip8.bitwise_or_xy(0, 1);
    assert_eq!(chip8.registers[0], 0b1110);
}

#[test]
fn chip8_test_bitwise_and_xy() {
    let mut chip8 = Chip8::new();
    chip8.registers[0] = 0b1010;
    chip8.registers[1] = 0b1100;
    chip8.bitwise_and_xy(0, 1);
    assert_eq!(chip8.registers[0], 0b1000);
}

#[test]
fn chip8_test_bitwise_xor_xy() {
    let mut chip8 = Chip8::new();
    chip8.registers[0] = 0b1010;
    chip8.registers[1] = 0b1100;
    chip8.bitwise_xor_xy(0, 1);
    assert_eq!(chip8.registers[0], 0b0110);
}

#[test]
fn chip8_test_add_xy() {
    let mut chip8 = Chip8::new();
    chip8.registers[0] = 5;
    chip8.registers[1] = 10;
    chip8.add_xy(0, 1);
    assert_eq!(chip8.registers[0], 15);
    assert_eq!(chip8.registers[0xF], 0);
}

#[test]
fn chip8_test_add_xy_no_overflow() {
    let mut chip8 = Chip8::new();
    chip8.registers[0] = 5;
    chip8.registers[1] = 10;
    chip8.add_xy(0, 1);
    assert_eq!(chip8.registers[0], 15);
    assert_eq!(chip8.registers[0xF], 0);
}

#[test]
fn chip8_test_add_xy_with_overflow() {
    let mut chip8 = Chip8::new();
    chip8.registers[0] = 200;
    chip8.registers[1] = 100;
    chip8.add_xy(0, 1);
    assert_eq!(chip8.registers[0], 44); // 300 % 256 = 44
    assert_eq!(chip8.registers[0xF], 1);
}

#[test]
fn chip8_test_sub_y_from_x_no_borrow() {
    let mut chip8 = Chip8::new();
    chip8.registers[0] = 10;
    chip8.registers[1] = 5;
    chip8.sub_y_from_x(0, 1);
    assert_eq!(chip8.registers[0], 5);
    //no borrow: the flag register reports 1
    assert_eq!(chip8.registers[0xF], 1);
}

#[test]
fn chip8_test_sub_y_from_x_with_borrow() {
    let mut chip8 = Chip8::new();
    chip8.registers[0] = 5;
    chip8.registers[1] = 10;
    chip8.sub_y_from_x(0, 1);
    assert_eq!(chip8.registers[0], 251); // 5 - 10 = -5, which wraps around to 251 in unsigned 8-bit arithmetic
    //a borrow was needed: the flag register reports 0
    assert_eq!(chip8.registers[0xF], 0);
}

#[test]
fn chip8_test_sub_x_from_y_no_borrow() {
    let mut chip8 = Chip8::new();
    chip8.registers[0] = 5;
    chip8.registers[1] = 10;
    chip8.sub_x_from_y(0, 1);
    assert_eq!(chip8.registers[0], 5);
    //no borrow: the flag register reports 1
    assert_eq!(chip8.registers[0xF], 1);
}

#[test]
fn chip8_test_sub_x_from_y_with_borrow() {
    let mut chip8 = Chip8::new();
    chip8.registers[0] = 10;
    chip8.registers[1] = 5;
    chip8.sub_x_from_y(0, 1);
    assert_eq!(chip8.registers[0], 251); // 5 - 10 = -5, which wraps around to 251 in unsigned 8-bit arithmetic
    //a borrow was needed: the flag register reports 0
    assert_eq!(chip8.registers[0xF], 0);
}

#[test]
fn chip8_test_shift_right_lsb_1() {
    let mut chip8 = Chip8::new();
    chip8.registers[0] = 0b00001001;
    chip8.shift_right(0, 0);
    assert_eq!(1, chip8.registers[0xF]);
    assert_eq!(0b00000100, chip8.registers[0]);
}

#[test]
fn chip8_test_shift_right_lsb_0() {
    let mut chip8 = Chip8::new();
    chip8.registers[0] = 0b00000110;
    chip8.shift_right(0, 0);
    assert_eq!(0, chip8.registers[0xF]);
    assert_eq!(0b00000011, chip8.registers[0]);
}

#[test]
fn chip8_test_shift_left_msb_1() {
    let mut chip8 = Chip8::new();
    chip8.registers[0] = 0b10010000;
    chip8.shift_left(0, 0);
    assert_eq!(1, chip8.registers[0xF]);
    assert_eq!(0b00100000, chip8.registers[0]);
}

#[test]
fn chip8_test_shift_left_msb_0() {
    let mut chip8 = Chip8::new();
    chip8.registers[0] = 0b01100000;
    chip8.shift_left(0, 0);
    assert_eq!(0, chip8.registers[0xF]);
    assert_eq!(0b11000000, chip8.registers[0]);
}

#[test]
fn chip8_test_skip_if_both_values_are_not_equal() {
    //position in memory starts at 0 here
    let mut chip8 = Chip8::new();
    chip8.position_in_memory = 0;
    chip8.registers[0] = 0x12;
    chip8.registers[1] = 0x13;
    //don't call tick, call method manually
    chip8.skip_if_both_values_are_not_equal(0, 1);
    //position in memory should be incremented by 2
    assert_eq!(chip8.position_in_memory, 2);
}

#[test]
fn chip8_test_set_i_register() {
    let mut chip8 = Chip8::new();
    chip8.set_i_register(1);
    assert_eq!(1, chip8.i_register);
}

#[test]
fn chip8_test_load_delay_timer_to_vx() {
    let mut chip8 = Chip8::new();
    chip8.delay_timer_register = 1;
    assert_eq!(0, chip8.registers[0]);
    chip8.load_delay_timer_to_vx(0);
    assert_eq!(1, chip8.registers[0]);
}

#[test]
fn chip8_test_set_delay_timer() {
    let mut chip8 = Chip8::new();
    chip8.registers[0] = 1;
    chip8.set_delay_timer(0);
    assert_eq!(1, chip8.delay_timer_register);
}

#[test]
fn chip8_test_set_sound_timer() {
    let mut chip8 = Chip8::new();
    chip8.registers[0] = 1;
    chip8.set_sound_timer(0);
    assert_eq!(1, chip8.sound_timer_register);
}

#[test]
fn chip8_test_add_vx_to_i_register() {
    let mut chip = Chip8::new();
    chip.registers[0] = 1;
    chip.i_register = 1;
    assert_eq!(1, chip.i_register);
    chip.add_vx_to_i_register(0);
    assert_eq!(2, chip.i_register);
}

#[test]
fn chip8_test_load_vx_as_decimal_into_memory_at_i() {
    let mut chip1 = Chip8::new();
    let mut chip2 = Chip8::new();
    let mut chip3 = Chip8::new();

    chip1.registers[0] = 246;
    chip2.registers[0] = 82;
    chip3.registers[0] = 2;

    chip1.i_register = 0x300;
    chip2.i_register = 0x300;
    chip3.i_register = 0x300;

    chip1.load_vx_as_decimal_into_memory_at_i(0);
    chip2.load_vx_as_decimal_into_memory_at_i(0);
    chip3.load_vx_as_decimal_into_memory_at_i(0);

    assert_eq!(2, chip1.memory[0x300]);
    assert_eq!(4, chip1.memory[0x301]);
    assert_eq!(6, chip1.memory[0x302]);

    assert_eq!(0, chip2.memory[0x300]);
    assert_eq!(8, chip2.memory[0x301]);
    assert_eq!(2, chip2.memory[0x302]);

    assert_eq!(0, chip3.memory[0x300]);
    assert_eq!(0, chip3.memory[0x301]);
    assert_eq!(2, chip3.memory[0x302]);
}

#[test]
fn chip8_test_load_v0_to_vx_into_memory_at_i_all_registers() {
    let mut chip = Chip8::new();
    chip.i_register = 0x300;
    for (i, register) in chip.registers.iter_mut().enumerate() {
        *register = i as u8;
    }

    chip.load_registers_v0_to_vx_into_memory_at_i(0xF);

    let mut memory_counter = 0x300;
    //test all 15 registers
    for i in 0x0..=0xF {
        assert_eq!(i, chip.memory[memory_counter]);
        memory_counter += 1;
    }

    //make sure i is squared away
    assert_eq!(0x310, chip.i_register);
}

#[test]
fn chip8_test_load_v0_to_vx_into_memory_at_i_some_registers() {
    let mut chip = Chip8::new();
    chip.i_register = 0x300;
    chip.registers[0] = 1;
    chip.registers[1] = 2;
    chip.registers[2] = 0;
    chip.registers[3] = 4;

    chip.load_registers_v0_to_vx_into_memory_at_i(0x3);

    assert_eq!(1, chip.memory[0x300]);
    assert_eq!(2, chip.memory[0x301]);
    assert_eq!(0, chip.memory[0x302]);
    assert_eq!(4, chip.memory[0x303]);
    assert_eq!(0, chip.memory[0x304]);

    //make sure i is squared away
    assert_eq!(0x304, chip.i_register);
}

#[test]
fn chip8_test_fill_registers_v0_to_vx_from_memory_at_i_all_registers() {
    let mut chip = Chip8::new();
    chip.i_register = 0x300;

    for i in 0x0..=0xF {
        chip.memory[0x300 + i] = i as u8 + 1;
    }

    chip.fill_registers_v0_to_vx_from_memory_at_i(0xF);

    for i in 0x0..=0xF {
        assert_eq!(i as u8 + 1, chip.registers[i]);
    }

    assert_eq!(0x310, chip.i_register);
}

#[test]
fn chip8_test_fill_registers_v0_to_vx_from_memory_at_i_some_registers() {
    let mut chip = Chip8::new();
    chip.i_register = 0x300;

    chip.memory[0x300] = 12;
    chip.memory[0x301] = 6;
    chip.memory[0x302] = 1;

    chip.fill_registers_v0_to_vx_from_memory_at_i(0x2);

    assert_eq!(12, chip.registers[0]);
    assert_eq!(6, chip.registers[1]);
    assert_eq!(1, chip.registers[2]);
    assert_eq!(0, chip.registers[3]);

    assert_eq!(0x303, chip.i_register);
}

#[test]
fn chip8_test_wait_for_key_press_and_store_at_vx() {
    let mut chip = Chip8::new();
    chip.position_in_memory = 0x300;
    //press key
    chip.key_press(0xF).unwrap();
    //wait for keypress
    chip.wait_for_keypress_store_vx(0);
    assert_eq!(0xF, chip.registers[0]);
    //release key
    chip.key_release(0xF).unwrap();

    //check again no key is pressed
    chip.wait_for_keypress_store_vx(0);
    //program counter drops back 2 spots to re run the wait opcode
    assert_eq!(0x2FE, chip.position_in_memory);
}

#[test]
fn chip8_test_skip_if_key_pressed_at_vx() {
    let mut chip = Chip8::new();

    chip.registers[0] = 0xF;
    chip.position_in_memory = 0x300;

    //press key in V0
    chip.key_press(0xF).unwrap();
    //run skip operation
    chip.skip_if_key_at_vx_pressed(0);
    //program counter move two places
    assert_eq!(0x302, chip.position_in_memory);
    chip.key_release(0xF).unwrap();

    //press wrong key
    chip.key_press(0xA).unwrap();
    //run skip
    chip.skip_if_key_at_vx_pressed(0);
    //should not have moved
    assert_eq!(0x302, chip.position_in_memory);
}

#[test]
fn chip8_test_skip_if_key_not_pressed_at_vx() {
    let mut chip = Chip8::new();

    chip.registers[0] = 0xF;
    chip.position_in_memory = 0x300;

    //press key in V0
    chip.key_press(0xF).unwrap();
    //run skip operation
    chip.skip_if_key_at_vx_not_pressed(0);
    //should not skip
    assert_eq!(0x300, chip.position_in_memory);
    chip.key_release(0xF).unwrap();

    //press wrong key
    chip.key_press(0xA).unwrap();
    //run skip
    chip.skip_if_key_at_vx_not_pressed(0);
    //should skip
    assert_eq!(0x302, chip.position_in_memory);
}
