use vstd::prelude::*;

use rand::Rng;

use crate::error::ChipError;
use crate::opcode::Opcode;
use crate::state::{any_key_pressed, last_pressed, lemma_last_pressed, spec_bcd, spec_clear,
    spec_fill_regs, spec_store_regs, spec_wait_key};
use crate::state::{collides_before, lemma_collides_congruence, lemma_scan_complete,
    lemma_wrap_back, lemma_wrap_round_trip, spec_draw, sprite_bit_set, touched_before};
use crate::state::{advance, exec_rel, glyph_data, init_memory, init_state, spec_add_imm,
    spec_add_vx_to_i, spec_add_xy, spec_and, spec_call, spec_jump, spec_jump_plus_v0,
    spec_key_set, spec_load_delay_to_vx, spec_load_rom, spec_load_value, spec_load_y_into_x,
    spec_or, spec_random, spec_ret, spec_set_delay, spec_set_font, spec_set_i, spec_set_sound,
    spec_set_vf, spec_shift_left, spec_shift_right, spec_skip, spec_sub_x_from_y,
    spec_sub_y_from_x, spec_tick_timers, spec_xor, tick_enabled, tick_rel, word_at, ChipState};

verus! {

pub const NUM_KEYS: usize = 16;
pub const NUM_REGISTERS: usize = 16;
pub const RAM: usize = 0x1000;
pub const STACK_SIZE: usize = 16;
pub const DISPLAY_MAX_Y: usize = 32;
pub const DISPLAY_MAX_X: usize = 64;
pub const FONTSET_SIZE: usize = 80;
pub const START_ADDR: usize = 0x200;
pub const SPRITE_WIDTH: usize = 8;
pub const FONTSET_ADDR: usize = 0x50;

/// The virtual machine: an explicit, independently constructible instance
/// owning all of its state. Fields are public so a host (or a test) can
/// inspect and stage machine state directly; the verified methods demand
/// [`ChipState::wf`] of it, which [`Chip8::new`] establishes and every method
/// preserves.
#[derive(Debug)]
pub struct Chip8 {
    /// 16 general registers; register 15 is the flag register.
    pub registers: Vec<u8>,
    /// The program counter.
    pub position_in_memory: usize,
    /// 4096 bytes of addressable memory.
    pub memory: Vec<u8>,
    /// The 16 return-address slots: 16 nested calls fit, a 17th overflows.
    pub stack: Vec<u16>,
    /// The call-stack depth.
    pub stack_pointer: usize,
    /// The 16-bit index register.
    pub i_register: u16,
    /// The delay countdown timer.
    pub delay_timer_register: u8,
    /// The sound countdown timer.
    pub sound_timer_register: u8,
    /// The 16 key-down latches.
    pub keys: Vec<bool>,
    /// The 64x32 frame buffer, row-major.
    pub display: Vec<bool>,
}

impl View for Chip8 {
    type V = ChipState;

    open spec fn view(&self) -> ChipState {
        ChipState {
            regs: self.registers@,
            pc: self.position_in_memory as int,
            mem: self.memory@,
            stack: self.stack@,
            sp: self.stack_pointer as int,
            i: self.i_register as int,
            delay: self.delay_timer_register,
            sound: self.sound_timer_register,
            keys: self.keys@,
            display: self.display@,
        }
    }
}

/// A vector of `n` copies of one value.
fn repeat_value<T: Copy>(n: usize, value: T) -> (r: Vec<T>)
    ensures
        r@ == Seq::new(n as nat, |k: int| value),
{
    let mut r: Vec<T> = Vec::new();
    let mut k: usize = 0;
    while k < n
        invariant
            k <= n,
            r@.len() == k,
            forall|j: int| 0 <= j < k ==> r@[j] == value,
        decreases n - k,
    {
        r.push(value);
        k = k + 1;
    }
    proof {
        assert(r@ =~= Seq::new(n as nat, |j: int| value));
    }
    r
}

/// The built-in glyph set as bytes: sixteen 5-byte sprites for the
/// hexadecimal digits.
fn glyph_table() -> (r: Vec<u8>)
    ensures
        r@ == glyph_data(),
{
    let r: Vec<u8> = vec![
        0xF0, 0x90, 0x90, 0x90, 0xF0, // 0
        0x20, 0x60, 0x20, 0x20, 0x70, // 1
        0xF0, 0x10, 0xF0, 0x80, 0xF0, // 2
        0xF0, 0x10, 0xF0, 0x10, 0xF0, // 3
        0x90, 0x90, 0xF0, 0x10, 0x10, // 4
        0xF0, 0x80, 0xF0, 0x10, 0xF0, // 5
        0xF0, 0x80, 0xF0, 0x90, 0xF0, // 6
        0xF0, 0x10, 0x20, 0x40, 0x40, // 7
        0xF0, 0x90, 0xF0, 0x90, 0xF0, // 8
        0xF0, 0x90, 0xF0, 0x10, 0xF0, // 9
        0xF0, 0x90, 0xF0, 0x90, 0x90, // A
        0xE0, 0x90, 0xE0, 0x90, 0xE0, // B
        0xF0, 0x80, 0x80, 0x80, 0xF0, // C
        0xE0, 0x90, 0x90, 0x90, 0xE0, // D
        0xF0, 0x80, 0xF0, 0x80, 0xF0, // E
        0xF0, 0x80, 0xF0, 0x80, 0x80, // F
    ];
    proof {
        assert(r@ =~= glyph_data());
    }
    r
}

impl Chip8 {
    /// A fresh machine: glyph set preloaded at its fixed low address, program
    /// counter at the program start offset, every other component cleared.
    pub fn new() -> (r: Chip8)
        ensures
            r@ == init_state(),
            r@.wf(),
    {
        let mut memory = repeat_value(RAM, 0u8);
        let font = glyph_table();
        let mut k: usize = 0;
        while k < FONTSET_SIZE
            invariant
                k <= FONTSET_SIZE,
                memory@.len() == RAM,
                font@ == glyph_data(),
                forall|j: int| 0 <= j < RAM ==> memory@[j] == (
                    if FONTSET_ADDR <= j < FONTSET_ADDR + k {
                        glyph_data()[j - FONTSET_ADDR]
                    } else {
                        0u8
                    }),
            decreases FONTSET_SIZE - k,
        {
            memory.set(FONTSET_ADDR + k, font[k]);
            k = k + 1;
        }
        let chip = Chip8 {
            position_in_memory: START_ADDR,
            registers: repeat_value(NUM_REGISTERS, 0u8),
            memory,
            stack: repeat_value(STACK_SIZE, 0u16),
            stack_pointer: 0,
            i_register: 0,
            delay_timer_register: 0,
            sound_timer_register: 0,
            keys: repeat_value(NUM_KEYS, false),
            display: repeat_value(DISPLAY_MAX_X * DISPLAY_MAX_Y, false),
        };
        proof {
            assert(chip@.mem =~= init_memory());
            assert(chip@ =~= init_state());
        }
        chip
    }

    /// A fresh machine with a program image already copied into the program
    /// region.
    pub fn new_with_rom(rom: &[u8]) -> (r: Chip8)
        requires
            rom@.len() <= RAM - START_ADDR,
        ensures
            r@ == spec_load_rom(init_state(), rom@),
            r@.wf(),
    {
        let mut chip = Chip8::new();
        chip.load_rom(rom);
        chip
    }

    /// Read-only view of the current frame buffer, for rendering.
    pub fn get_display(&self) -> (r: &Vec<bool>)
        ensures
            r@ == self@.display,
    {
        &self.display
    }

    /// Copy a program image into the program region. The caller must ensure
    /// the image fits below the end of memory; a larger one is a caller
    /// contract violation.
    pub fn load_rom(&mut self, rom: &[u8])
        requires
            old(self)@.wf(),
            rom@.len() <= RAM - START_ADDR,
        ensures
            final(self)@ == spec_load_rom(old(self)@, rom@),
            final(self)@.wf(),
    {
        let mut k: usize = 0;
        while k < rom.len()
            invariant
                old(self)@.wf(),
                k <= rom@.len(),
                rom@.len() <= RAM - START_ADDR,
                self.memory@.len() == RAM,
                self.registers == old(self).registers,
                self.position_in_memory == old(self).position_in_memory,
                self.stack == old(self).stack,
                self.stack_pointer == old(self).stack_pointer,
                self.i_register == old(self).i_register,
                self.delay_timer_register == old(self).delay_timer_register,
                self.sound_timer_register == old(self).sound_timer_register,
                self.keys == old(self).keys,
                self.display == old(self).display,
                forall|j: int| 0 <= j < RAM ==> self.memory@[j] == (
                    if START_ADDR <= j < START_ADDR + k {
                        rom@[j - START_ADDR]
                    } else {
                        old(self).memory@[j]
                    }),
            decreases rom@.len() - k,
        {
            self.memory.set(START_ADDR + k, rom[k]);
            k = k + 1;
        }
        proof {
            assert(self@.mem =~= spec_load_rom(old(self)@, rom@).mem);
            assert(self@ =~= spec_load_rom(old(self)@, rom@));
        }
    }

    /// Fetch phase: read the two bytes at the program counter, advance it past
    /// them, and combine them big-endian into one instruction word.
    pub fn fetch(&mut self) -> (r: u16)
        requires
            old(self)@.wf(),
            old(self)@.pc + 1 < RAM,
        ensures
            r == word_at(old(self)@),
            final(self)@ == advance(old(self)@),
            final(self)@.wf(),
    {
        let p = self.position_in_memory;
        let op_byte1 = self.memory[p] as u16;
        let op_byte2 = self.memory[p + 1] as u16;
        self.position_in_memory = p + 2;
        proof {
            assert(self@ =~= advance(old(self)@));
        }
        op_byte1 << 8 | op_byte2
    }

    /// Decrement both countdown timers, saturating at zero. Paced by the host,
    /// independently of the instruction tick rate.
    pub fn tick_timers(&mut self)
        requires
            old(self)@.wf(),
        ensures
            final(self)@ == spec_tick_timers(old(self)@),
            final(self)@.wf(),
    {
        if self.delay_timer_register > 0 {
            self.delay_timer_register = self.delay_timer_register - 1;
        }
        if self.sound_timer_register > 0 {
            self.sound_timer_register = self.sound_timer_register - 1;
        }
        proof {
            assert(self@ =~= spec_tick_timers(old(self)@));
        }
    }

    /// Latch a key down. Succeeds exactly on key indices 0 through 15; any
    /// other index is a caller contract violation reported as `InvalidKey`.
    pub fn key_press(&mut self, key: u8) -> (r: Result<(), ChipError>)
        requires
            old(self)@.wf(),
        ensures
            final(self)@.wf(),
            key > 15 ==> r == Err::<(), ChipError>(ChipError::InvalidKey(key))
                && final(self)@ == old(self)@,
            key <= 15 ==> r == Ok::<(), ChipError>(())
                && final(self)@ == spec_key_set(old(self)@, key as int, true),
    {
        if key > 15 {
            return Err(ChipError::InvalidKey(key));
        }
        self.keys.set(key as usize, true);
        proof {
            assert(self@ =~= spec_key_set(old(self)@, key as int, true));
        }
        Ok(())
    }

    /// Release a key latch; the mirror of [`Chip8::key_press`].
    pub fn key_release(&mut self, key: u8) -> (r: Result<(), ChipError>)
        requires
            old(self)@.wf(),
        ensures
            final(self)@.wf(),
            key > 15 ==> r == Err::<(), ChipError>(ChipError::InvalidKey(key))
                && final(self)@ == old(self)@,
            key <= 15 ==> r == Ok::<(), ChipError>(())
                && final(self)@ == spec_key_set(old(self)@, key as int, false),
    {
        if key > 15 {
            return Err(ChipError::InvalidKey(key));
        }
        self.keys.set(key as usize, false);
        proof {
            assert(self@ =~= spec_key_set(old(self)@, key as int, false));
        }
        Ok(())
    }

    /// One whole tick: fetch the word at the program counter, advance the
    /// counter past it, decode, and execute. Fails fatally — with the machine
    /// otherwise untouched, the counter still advanced — on stack overflow,
    /// stack underflow, an unrecognized opcode, or a system-call opcode.
    pub fn tick(&mut self) -> (r: Result<(), ChipError>)
        requires
            old(self)@.wf(),
            tick_enabled(old(self)@),
        ensures
            final(self)@.wf(),
            tick_rel(old(self)@, final(self)@, r),
    {
        let opcode = self.fetch();
        self.execute(opcode)
    }

    /// Whether one whole tick can execute from the current state: the two
    /// instruction bytes sit inside memory, and the decoded instruction's own
    /// memory accesses and machine limits hold. A host can test this before
    /// each [`Chip8::tick`] and treat a refusal as the malformed-program halt.
    pub fn tick_ready(&self) -> (r: bool)
        requires
            self@.wf(),
        ensures
            r == tick_enabled(self@),
    {
        let p = self.position_in_memory;
        if p >= RAM - 1 {
            return false;
        }
        let word = (self.memory[p] as u16) << 8 | (self.memory[p + 1] as u16);
        proof {
            crate::opcode::lemma_decode_operand_ranges(word);
        }
        let i = self.i_register as usize;
        match Opcode::decode(word) {
            Opcode::LoadVxAsDecimalIntoMemoryAtIRegister { x } => i + 2 < RAM,
            Opcode::LoadRegistersV0ToVxIntoMemoryAtI { x } => i + (x as usize) < RAM,
            Opcode::FillRegistersV0ToVxFromMmoryAtI { x } => i + (x as usize) < RAM,
            Opcode::Draw { x, y, n } => i + (n as usize) <= RAM,
            Opcode::SkipIfKeyAtVxPressed { x } => self.registers[x as usize] < 16,
            Opcode::SkipIfKeyAtVxNotPressed { x } => self.registers[x as usize] < 16,
            _ => true,
        }
    }

    /// Decode one instruction word and execute it against the current state.
    /// The decoded instruction must be executable here ([`safe_op`]); the
    /// word itself may be anything, unrecognized ones come back as errors.
    pub fn execute(&mut self, opcode: u16) -> (r: Result<(), ChipError>)
        requires
            old(self)@.wf(),
            crate::state::safe_op(old(self)@, crate::opcode::decode_op(opcode)),
        ensures
            final(self)@.wf(),
            exec_rel(old(self)@, crate::opcode::decode_op(opcode), final(self)@, r),
    {
        proof {
            crate::opcode::lemma_decode_operand_ranges(opcode);
        }
        match Opcode::decode(opcode) {
            Opcode::Sys(nnn) => Err(ChipError::SysOpcodeNotSupported(nnn)),
            Opcode::Jump(nnn) => {
                self.jump(nnn);
                Ok(())
            },
            Opcode::JumpPlusV0(nnn) => {
                self.jump_plus_v0(nnn);
                Ok(())
            },
            Opcode::Call(nnn) => self.call(nnn),
            Opcode::SkipIfEqualAtX { x, kk } => {
                self.skip_if_equal_at_x(x, kk);
                Ok(())
            },
            Opcode::SkipIfNotEqualAtX { x, kk } => {
                self.skip_if_not_equal_at_x(x, kk);
                Ok(())
            },
            Opcode::LoadValueToRegister { x, kk } => {
                self.load_value_to_register(x, kk);
                Ok(())
            },
            Opcode::AddToValueInRegister { x, kk } => {
                self.add_to_value_in_register(x, kk);
                Ok(())
            },
            Opcode::SkipIfBothValuesEqual { x, y } => {
                self.skip_if_both_values_are_equal(x, y);
                Ok(())
            },
            Opcode::SkipIfBothValuesNotEqual { x, y } => {
                self.skip_if_both_values_are_not_equal(x, y);
                Ok(())
            },
            Opcode::LoadYIntoX { x, y } => {
                self.load_y_into_x(x, y);
                Ok(())
            },
            Opcode::BitwiseOrXY { x, y } => {
                self.bitwise_or_xy(x, y);
                Ok(())
            },
            Opcode::BitwiseAndXY { x, y } => {
                self.bitwise_and_xy(x, y);
                Ok(())
            },
            Opcode::BitwiseXorXY { x, y } => {
                self.bitwise_xor_xy(x, y);
                Ok(())
            },
            Opcode::AddXY { x, y } => {
                self.add_xy(x, y);
                Ok(())
            },
            Opcode::SubYfromX { x, y } => {
                self.sub_y_from_x(x, y);
                Ok(())
            },
            Opcode::SubXfromY { x, y } => {
                self.sub_x_from_y(x, y);
                Ok(())
            },
            Opcode::Ret => self.ret(),
            Opcode::ShiftRight { x, y } => {
                self.shift_right(x, y);
                Ok(())
            },
            Opcode::ShiftLeft { x, y } => {
                self.shift_left(x, y);
                Ok(())
            },
            Opcode::SetIRegister(nnn) => {
                self.set_i_register(nnn);
                Ok(())
            },
            Opcode::RandomNumberToRegisterX { x, kk } => {
                self.random_number_to_x(x, kk);
                Ok(())
            },
            Opcode::LoadDelayTimerToVx { x } => {
                self.load_delay_timer_to_vx(x);
                Ok(())
            },
            Opcode::SetDelayTimer { x } => {
                self.set_delay_timer(x);
                Ok(())
            },
            Opcode::SetSoundTimer { x } => {
                self.set_sound_timer(x);
                Ok(())
            },
            Opcode::AddVxToIRegister { x } => {
                self.add_vx_to_i_register(x);
                Ok(())
            },
            Opcode::LoadVxAsDecimalIntoMemoryAtIRegister { x } => {
                self.load_vx_as_decimal_into_memory_at_i(x);
                Ok(())
            },
            Opcode::LoadRegistersV0ToVxIntoMemoryAtI { x } => {
                self.load_registers_v0_to_vx_into_memory_at_i(x);
                Ok(())
            },
            Opcode::FillRegistersV0ToVxFromMmoryAtI { x } => {
                self.fill_registers_v0_to_vx_from_memory_at_i(x);
                Ok(())
            },
            Opcode::WaitForKeyPressAndStoreVx { x } => {
                self.wait_for_keypress_store_vx(x);
                Ok(())
            },
            Opcode::SkipIfKeyAtVxPressed { x } => {
                self.skip_if_key_at_vx_pressed(x);
                Ok(())
            },
            Opcode::SkipIfKeyAtVxNotPressed { x } => {
                self.skip_if_key_at_vx_not_pressed(x);
                Ok(())
            },
            Opcode::Draw { x, y, n } => {
                self.draw(x, y, n);
                Ok(())
            },
            Opcode::ClearScreen => {
                self.clear_screen();
                Ok(())
            },
            Opcode::SetICorrespondingFontAddressFromVx { x } => {
                self.set_font_address_for_value_in_vx(x);
                Ok(())
            },
            Opcode::UnknownOpcode(w) => Err(ChipError::UnknownOpcode(w)),
        }
    }

    /// Call: push the current (already advanced) program counter, jump to the
    /// 12-bit address. Fails with `StackOverflow` exactly when the stack
    /// already holds 16 return addresses, leaving the machine untouched.
    pub fn call(&mut self, addr: u16) -> (r: Result<(), ChipError>)
        requires
            old(self)@.wf(),
            old(self)@.pc <= 0xFFFF,
        ensures
            final(self)@.wf(),
            exec_rel(old(self)@, Opcode::Call(addr), final(self)@, r),
    {
        let sp = self.stack_pointer;
        if sp >= STACK_SIZE {
            return Err(ChipError::StackOverflow);
        }
        self.stack.set(sp, self.position_in_memory as u16);
        self.stack_pointer = sp + 1;
        self.position_in_memory = addr as usize;
        proof {
            assert(self@ =~= spec_call(old(self)@, addr));
        }
        Ok(())
    }

    /// Return: pop the youngest return address into the program counter.
    /// Fails with `StackUnderflow` exactly when the stack is empty, leaving
    /// the machine untouched.
    pub fn ret(&mut self) -> (r: Result<(), ChipError>)
        requires
            old(self)@.wf(),
        ensures
            final(self)@.wf(),
            exec_rel(old(self)@, Opcode::Ret, final(self)@, r),
    {
        if self.stack_pointer == 0 {
            return Err(ChipError::StackUnderflow);
        }
        self.stack_pointer = self.stack_pointer - 1;
        let call_addr = self.stack[self.stack_pointer];
        self.position_in_memory = call_addr as usize;
        proof {
            assert(self@ =~= spec_ret(old(self)@));
        }
        Ok(())
    }

    /// Jump to an absolute address.
    pub fn jump(&mut self, addr: u16)
        requires
            old(self)@.wf(),
        ensures
            final(self)@.wf(),
            final(self)@ == spec_jump(old(self)@, addr),
    {
        self.position_in_memory = addr as usize;
        proof {
            assert(self@ =~= spec_jump(old(self)@, addr));
        }
    }

    /// Skip the next instruction when the register equals the immediate.
    pub fn skip_if_equal_at_x(&mut self, x: u8, kk: u8)
        requires
            old(self)@.wf(),
            x < 16,
            old(self)@.pc + 2 <= usize::MAX,
        ensures
            final(self)@.wf(),
            final(self)@ == spec_skip(old(self)@, old(self)@.regs[x as int] == kk),
    {
        let vx = self.registers[x as usize];
        if vx == kk {
            self.position_in_memory = self.position_in_memory + 2;
        }
        proof {
            assert(self@ =~= spec_skip(old(self)@, old(self)@.regs[x as int] == kk));
        }
    }

    /// Skip the next instruction when the register differs from the immediate.
    pub fn skip_if_not_equal_at_x(&mut self, x: u8, kk: u8)
        requires
            old(self)@.wf(),
            x < 16,
            old(self)@.pc + 2 <= usize::MAX,
        ensures
            final(self)@.wf(),
            final(self)@ == spec_skip(old(self)@, old(self)@.regs[x as int] != kk),
    {
        let vx = self.registers[x as usize];
        if vx != kk {
            self.position_in_memory = self.position_in_memory + 2;
        }
        proof {
            assert(self@ =~= spec_skip(old(self)@, old(self)@.regs[x as int] != kk));
        }
    }

    /// Skip the next instruction when the two registers are equal.
    pub fn skip_if_both_values_are_equal(&mut self, x: u8, y: u8)
        requires
            old(self)@.wf(),
            x < 16,
            y < 16,
            old(self)@.pc + 2 <= usize::MAX,
        ensures
            final(self)@.wf(),
            final(self)@ == spec_skip(
                old(self)@,
                old(self)@.regs[x as int] == old(self)@.regs[y as int],
            ),
    {
        let vx = self.registers[x as usize];
        let vy = self.registers[y as usize];
        if vx == vy {
            self.position_in_memory = self.position_in_memory + 2;
        }
        proof {
            assert(self@ =~= spec_skip(
                old(self)@,
                old(self)@.regs[x as int] == old(self)@.regs[y as int],
            ));
        }
    }

    /// Skip the next instruction when the two registers differ.
    pub fn skip_if_both_values_are_not_equal(&mut self, x: u8, y: u8)
        requires
            old(self)@.wf(),
            x < 16,
            y < 16,
            old(self)@.pc + 2 <= usize::MAX,
        ensures
            final(self)@.wf(),
            final(self)@ == spec_skip(
                old(self)@,
                old(self)@.regs[x as int] != old(self)@.regs[y as int],
            ),
    {
        let vx = self.registers[x as usize];
        let vy = self.registers[y as usize];
        if vx != vy {
            self.position_in_memory = self.position_in_memory + 2;
        }
        proof {
            assert(self@ =~= spec_skip(
                old(self)@,
                old(self)@.regs[x as int] != old(self)@.regs[y as int],
            ));
        }
    }

    /// Load an immediate into the register.
    pub fn load_value_to_register(&mut self, x: u8, kk: u8)
        requires
            old(self)@.wf(),
            x < 16,
        ensures
            final(self)@.wf(),
            final(self)@ == spec_load_value(old(self)@, x as int, kk),
    {
        self.registers.set(x as usize, kk);
        proof {
            assert(self@ =~= spec_load_value(old(self)@, x as int, kk));
        }
    }

    /// Add an immediate to the register with 8-bit wraparound; no flag effect.
    pub fn add_to_value_in_register(&mut self, x: u8, kk: u8)
        requires
            old(self)@.wf(),
            x < 16,
        ensures
            final(self)@.wf(),
            final(self)@ == spec_add_imm(old(self)@, x as int, kk),
    {
        let vx = self.registers[x as usize];
        self.registers.set(x as usize, vx.wrapping_add(kk));
        proof {
            assert(self@ =~= spec_add_imm(old(self)@, x as int, kk));
        }
    }

    /// Copy one register into another.
    pub fn load_y_into_x(&mut self, x: u8, y: u8)
        requires
            old(self)@.wf(),
            x < 16,
            y < 16,
        ensures
            final(self)@.wf(),
            final(self)@ == spec_load_y_into_x(old(self)@, x as int, y as int),
    {
        let vy = self.registers[y as usize];
        self.registers.set(x as usize, vy);
        proof {
            assert(self@ =~= spec_load_y_into_x(old(self)@, x as int, y as int));
        }
    }

    /// Bitwise OR of two registers into the first; no flag effect.
    pub fn bitwise_or_xy(&mut self, x: u8, y: u8)
        requires
            old(self)@.wf(),
            x < 16,
            y < 16,
        ensures
            final(self)@.wf(),
            final(self)@ == spec_or(old(self)@, x as int, y as int),
    {
        let vx = self.registers[x as usize];
        let vy = self.registers[y as usize];
        self.registers.set(x as usize, vx | vy);
        proof {
            assert(self@ =~= spec_or(old(self)@, x as int, y as int));
        }
    }

    /// Bitwise AND of two registers into the first; no flag effect.
    pub fn bitwise_and_xy(&mut self, x: u8, y: u8)
        requires
            old(self)@.wf(),
            x < 16,
            y < 16,
        ensures
            final(self)@.wf(),
            final(self)@ == spec_and(old(self)@, x as int, y as int),
    {
        let vx = self.registers[x as usize];
        let vy = self.registers[y as usize];
        self.registers.set(x as usize, vx & vy);
        proof {
            assert(self@ =~= spec_and(old(self)@, x as int, y as int));
        }
    }

    /// Bitwise XOR of two registers into the first; no flag effect.
    pub fn bitwise_xor_xy(&mut self, x: u8, y: u8)
        requires
            old(self)@.wf(),
            x < 16,
            y < 16,
        ensures
            final(self)@.wf(),
            final(self)@ == spec_xor(old(self)@, x as int, y as int),
    {
        let vx = self.registers[x as usize];
        let vy = self.registers[y as usize];
        self.registers.set(x as usize, vx ^ vy);
        proof {
            assert(self@ =~= spec_xor(old(self)@, x as int, y as int));
        }
    }

    /// Register add: wraparound sum, flag register 1 exactly when the unsigned
    /// sum overflowed 8 bits.
    pub fn add_xy(&mut self, x: u8, y: u8)
        requires
            old(self)@.wf(),
            x < 16,
            y < 16,
        ensures
            final(self)@.wf(),
            final(self)@ == spec_add_xy(old(self)@, x as int, y as int),
    {
        let vx = self.registers[x as usize];
        let vy = self.registers[y as usize];
        let sum = vx.wrapping_add(vy);
        let carry = (vx as usize) + (vy as usize) > 255;
        self.registers.set(x as usize, sum);
        self.set_vf(carry);
        proof {
            assert(self@ =~= spec_add_xy(old(self)@, x as int, y as int));
        }
    }

    /// Subtract the second register from the first: wraparound difference,
    /// flag register 1 exactly when no borrow was needed.
    pub fn sub_y_from_x(&mut self, x: u8, y: u8)
        requires
            old(self)@.wf(),
            x < 16,
            y < 16,
        ensures
            final(self)@.wf(),
            final(self)@ == spec_sub_y_from_x(old(self)@, x as int, y as int),
    {
        let vx = self.registers[x as usize];
        let vy = self.registers[y as usize];
        self.registers.set(x as usize, vx.wrapping_sub(vy));
        self.set_vf(vx > vy);
        proof {
            assert(self@ =~= spec_sub_y_from_x(old(self)@, x as int, y as int));
        }
    }

    /// Reverse subtract: the first register replaced by second minus first,
    /// flag register 1 exactly when no borrow was needed.
    pub fn sub_x_from_y(&mut self, x: u8, y: u8)
        requires
            old(self)@.wf(),
            x < 16,
            y < 16,
        ensures
            final(self)@.wf(),
            final(self)@ == spec_sub_x_from_y(old(self)@, x as int, y as int),
    {
        let vx = self.registers[x as usize];
        let vy = self.registers[y as usize];
        self.registers.set(x as usize, vy.wrapping_sub(vx));
        self.set_vf(vy > vx);
        proof {
            assert(self@ =~= spec_sub_x_from_y(old(self)@, x as int, y as int));
        }
    }

    /// Shift right: the source register (`y`) shifted one bit right into the
    /// target (`x`); the flag register takes the source's least significant
    /// bit from before the shift. This interpreter uses the two-register form:
    /// the shift source is `Vy`, the destination `Vx`.
    pub fn shift_right(&mut self, x: u8, y: u8)
        requires
            old(self)@.wf(),
            x < 16,
            y < 16,
        ensures
            final(self)@.wf(),
            final(self)@ == spec_shift_right(old(self)@, x as int, y as int),
    {
        let vy = self.registers[y as usize];
        self.registers.set(x as usize, vy >> 1u8);
        self.registers.set(0xF, vy & 1);
        proof {
            assert(self@ =~= spec_shift_right(old(self)@, x as int, y as int));
        }
    }

    /// Shift left: the source register (`y`) shifted one bit left into the
    /// target (`x`), low byte kept; the flag register takes the source's most
    /// significant bit from before the shift. Two-register form, as in
    /// [`Chip8::shift_right`].
    pub fn shift_left(&mut self, x: u8, y: u8)
        requires
            old(self)@.wf(),
            x < 16,
            y < 16,
        ensures
            final(self)@.wf(),
            final(self)@ == spec_shift_left(old(self)@, x as int, y as int),
    {
        let vy = self.registers[y as usize];
        self.registers.set(x as usize, vy << 1u8);
        self.registers.set(0xF, (vy >> 7u8) & 1);
        proof {
            assert(self@ =~= spec_shift_left(old(self)@, x as int, y as int));
        }
    }

    /// Load an absolute 12-bit address into the index register.
    pub fn set_i_register(&mut self, nnn: u16)
        requires
            old(self)@.wf(),
        ensures
            final(self)@.wf(),
            final(self)@ == spec_set_i(old(self)@, nnn),
    {
        self.i_register = nnn;
        proof {
            assert(self@ =~= spec_set_i(old(self)@, nnn));
        }
    }

    /// Jump to the address plus register 0's value.
    pub fn jump_plus_v0(&mut self, nnn: u16)
        requires
            old(self)@.wf(),
            nnn < 0x1000,
        ensures
            final(self)@.wf(),
            final(self)@ == spec_jump_plus_v0(old(self)@, nnn),
    {
        let v0 = self.registers[0];
        self.jump(nnn + (v0 as u16));
        proof {
            assert(self@ =~= spec_jump_plus_v0(old(self)@, nnn));
        }
    }

    /// Draw a uniform random byte, mask it with the immediate, store it in the
    /// register. Everything but the drawn byte's randomness is verified: the
    /// stored value is some byte ANDed with the mask.
    pub fn random_number_to_x(&mut self, x: u8, kk: u8)
        requires
            old(self)@.wf(),
            x < 16,
        ensures
            final(self)@.wf(),
            exists|b: u8| final(self)@ == spec_random(old(self)@, x as int, kk, b),
    {
        let random_number: u8 = random_byte();
        self.registers.set(x as usize, random_number & kk);
        proof {
            assert(self@ =~= spec_random(old(self)@, x as int, kk, random_number));
        }
    }

    /// Copy the delay timer into the register.
    pub fn load_delay_timer_to_vx(&mut self, x: u8)
        requires
            old(self)@.wf(),
            x < 16,
        ensures
            final(self)@.wf(),
            final(self)@ == spec_load_delay_to_vx(old(self)@, x as int),
    {
        let delay = self.delay_timer_register;
        self.registers.set(x as usize, delay);
        proof {
            assert(self@ =~= spec_load_delay_to_vx(old(self)@, x as int));
        }
    }

    /// Copy the register into the delay timer.
    pub fn set_delay_timer(&mut self, x: u8)
        requires
            old(self)@.wf(),
            x < 16,
        ensures
            final(self)@.wf(),
            final(self)@ == spec_set_delay(old(self)@, x as int),
    {
        let vx = self.registers[x as usize];
        self.delay_timer_register = vx;
        proof {
            assert(self@ =~= spec_set_delay(old(self)@, x as int));
        }
    }

    /// Copy the register into the sound timer.
    pub fn set_sound_timer(&mut self, x: u8)
        requires
            old(self)@.wf(),
            x < 16,
        ensures
            final(self)@.wf(),
            final(self)@ == spec_set_sound(old(self)@, x as int),
    {
        let vx = self.registers[x as usize];
        self.sound_timer_register = vx;
        proof {
            assert(self@ =~= spec_set_sound(old(self)@, x as int));
        }
    }

    /// Add the register into the index register with 16-bit wraparound.
    pub fn add_vx_to_i_register(&mut self, x: u8)
        requires
            old(self)@.wf(),
            x < 16,
        ensures
            final(self)@.wf(),
            final(self)@ == spec_add_vx_to_i(old(self)@, x as int),
    {
        let vx = self.registers[x as usize];
        self.i_register = self.i_register.wrapping_add(vx as u16);
        proof {
            assert(self@ =~= spec_add_vx_to_i(old(self)@, x as int));
        }
    }

    /// Point the index register at the built-in 5-byte glyph for the
    /// hexadecimal digit in the register's low nibble.
    pub fn set_font_address_for_value_in_vx(&mut self, x: u8)
        requires
            old(self)@.wf(),
            x < 16,
        ensures
            final(self)@.wf(),
            final(self)@ == spec_set_font(old(self)@, x as int),
    {
        let vx = self.registers[x as usize];
        self.i_register = FONTSET_ADDR as u16 + (vx & 0x0F) as u16 * 5;
        proof {
            assert(self@ =~= spec_set_font(old(self)@, x as int));
        }
    }

    /// Skip the next instruction when the key named by the register is down.
    pub fn skip_if_key_at_vx_pressed(&mut self, x: u8)
        requires
            old(self)@.wf(),
            x < 16,
            old(self)@.regs[x as int] < 16,
            old(self)@.pc + 2 <= usize::MAX,
        ensures
            final(self)@.wf(),
            final(self)@ == spec_skip(
                old(self)@,
                old(self)@.keys[old(self)@.regs[x as int] as int],
            ),
    {
        let vx = self.registers[x as usize];
        if self.keys[vx as usize] {
            self.position_in_memory = self.position_in_memory + 2;
        }
        proof {
            assert(self@ =~= spec_skip(
                old(self)@,
                old(self)@.keys[old(self)@.regs[x as int] as int],
            ));
        }
    }

    /// Skip the next instruction when the key named by the register is up.
    pub fn skip_if_key_at_vx_not_pressed(&mut self, x: u8)
        requires
            old(self)@.wf(),
            x < 16,
            old(self)@.regs[x as int] < 16,
            old(self)@.pc + 2 <= usize::MAX,
        ensures
            final(self)@.wf(),
            final(self)@ == spec_skip(
                old(self)@,
                !old(self)@.keys[old(self)@.regs[x as int] as int],
            ),
    {
        let vx = self.registers[x as usize];
        if !(self.keys[vx as usize]) {
            self.position_in_memory = self.position_in_memory + 2;
        }
        proof {
            assert(self@ =~= spec_skip(
                old(self)@,
                !old(self)@.keys[old(self)@.regs[x as int] as int],
            ));
        }
    }

    /// Decompose the register's value into hundreds, tens and ones digits,
    /// stored at three consecutive addresses from the index register.
    pub fn load_vx_as_decimal_into_memory_at_i(&mut self, x: u8)
        requires
            old(self)@.wf(),
            x < 16,
            old(self)@.i + 2 < RAM,
        ensures
            final(self)@.wf(),
            final(self)@ == spec_bcd(old(self)@, x as int),
    {
        let vx = self.registers[x as usize];
        let hundreds = vx / 100;
        let tens = (vx % 100) / 10;
        let ones = vx % 10;
        let i = self.i_register as usize;
        self.memory.set(i, hundreds);
        self.memory.set(i + 1, tens);
        self.memory.set(i + 2, ones);
        proof {
            assert(self@ =~= spec_bcd(old(self)@, x as int));
        }
    }

    /// Store registers 0 through `x` at consecutive addresses from the index
    /// register, then advance the index register one past the region written.
    /// The flag register is not touched.
    pub fn load_registers_v0_to_vx_into_memory_at_i(&mut self, x: u8)
        requires
            old(self)@.wf(),
            x < 16,
            old(self)@.i + x < RAM,
        ensures
            final(self)@.wf(),
            final(self)@ == spec_store_regs(old(self)@, x as int),
    {
        let mut i = self.i_register as usize;
        let mut r: usize = 0;
        while r < x as usize + 1
            invariant
                old(self)@.wf(),
                x < 16,
                old(self)@.i + x < RAM,
                r <= x + 1,
                i == old(self)@.i + r,
                self.memory@.len() == RAM,
                self.registers == old(self).registers,
                self.position_in_memory == old(self).position_in_memory,
                self.stack == old(self).stack,
                self.stack_pointer == old(self).stack_pointer,
                self.i_register == old(self).i_register,
                self.delay_timer_register == old(self).delay_timer_register,
                self.sound_timer_register == old(self).sound_timer_register,
                self.keys == old(self).keys,
                self.display == old(self).display,
                forall|j: int| 0 <= j < RAM ==> self.memory@[j] == (
                    if old(self)@.i <= j < old(self)@.i + r {
                        old(self)@.regs[j - old(self)@.i]
                    } else {
                        old(self)@.mem[j]
                    }),
            decreases x + 1 - r,
        {
            let vr = self.registers[r];
            self.memory.set(i, vr);
            i = i + 1;
            r = r + 1;
        }
        self.i_register = self.i_register + (x as u16 + 1);
        proof {
            assert(self@.mem =~= spec_store_regs(old(self)@, x as int).mem);
            assert(self@ =~= spec_store_regs(old(self)@, x as int));
        }
    }

    /// Fill registers 0 through `x` from consecutive addresses from the index
    /// register, then advance the index register one past the region read.
    pub fn fill_registers_v0_to_vx_from_memory_at_i(&mut self, x: u8)
        requires
            old(self)@.wf(),
            x < 16,
            old(self)@.i + x < RAM,
        ensures
            final(self)@.wf(),
            final(self)@ == spec_fill_regs(old(self)@, x as int),
    {
        let mut r: usize = 0;
        while r < x as usize + 1
            invariant
                old(self)@.wf(),
                x < 16,
                old(self)@.i + x < RAM,
                r <= x + 1,
                self.registers@.len() == 16,
                self.memory == old(self).memory,
                self.position_in_memory == old(self).position_in_memory,
                self.stack == old(self).stack,
                self.stack_pointer == old(self).stack_pointer,
                self.i_register == old(self).i_register,
                self.delay_timer_register == old(self).delay_timer_register,
                self.sound_timer_register == old(self).sound_timer_register,
                self.keys == old(self).keys,
                self.display == old(self).display,
                forall|k: int| 0 <= k < 16 ==> self.registers@[k] == (
                    if k < r {
                        old(self)@.mem[old(self)@.i + k]
                    } else {
                        old(self)@.regs[k]
                    }),
            decreases x + 1 - r,
        {
            let addr = self.i_register as usize + r;
            let value = self.memory[addr];
            self.registers.set(r, value);
            r = r + 1;
        }
        self.i_register = self.i_register + (x as u16 + 1);
        proof {
            assert(self@.regs =~= spec_fill_regs(old(self)@, x as int).regs);
            assert(self@ =~= spec_fill_regs(old(self)@, x as int));
        }
    }

    /// Key-wait: scan the 16 latches in ascending order; every pressed key
    /// overwrites the register, so the highest pressed index wins. With no key
    /// down, rewind the program counter over this instruction so the next tick
    /// refetches it — the machine's only suspension mechanism, cooperative at
    /// tick granularity.
    pub fn wait_for_keypress_store_vx(&mut self, x: u8)
        requires
            old(self)@.wf(),
            x < 16,
            any_key_pressed(old(self)@.keys) || old(self)@.pc >= 2,
        ensures
            final(self)@.wf(),
            final(self)@ == spec_wait_key(old(self)@, x as int),
    {
        let mut pressed = false;
        let mut k: usize = 0;
        while k < NUM_KEYS
            invariant
                old(self)@.wf(),
                x < 16,
                k <= NUM_KEYS,
                self.registers@.len() == 16,
                self.memory == old(self).memory,
                self.position_in_memory == old(self).position_in_memory,
                self.stack == old(self).stack,
                self.stack_pointer == old(self).stack_pointer,
                self.i_register == old(self).i_register,
                self.delay_timer_register == old(self).delay_timer_register,
                self.sound_timer_register == old(self).sound_timer_register,
                self.keys == old(self).keys,
                self.display == old(self).display,
                pressed == (last_pressed(old(self)@.keys, k as int) >= 0),
                pressed ==> self.registers@ == old(self)@.regs.update(
                    x as int,
                    last_pressed(old(self)@.keys, k as int) as u8,
                ),
                !pressed ==> self.registers == old(self).registers,
            decreases NUM_KEYS - k,
        {
            if self.keys[k] {
                self.registers.set(x as usize, k as u8);
                pressed = true;
            }
            k = k + 1;
        }
        proof {
            lemma_last_pressed(old(self)@.keys, 16);
        }
        if !pressed {
            self.position_in_memory = self.position_in_memory - 2;
        }
        proof {
            assert(self@ =~= spec_wait_key(old(self)@, x as int));
        }
    }

    /// Draw an `n`-row, 8-column sprite read from memory at the index register
    /// at the screen coordinates held in registers `x` and `y`. Each set
    /// sprite bit toggles its pixel; coordinates wrap modulo the screen
    /// dimensions rather than clipping. The flag register is set to 1 exactly
    /// when some toggled pixel was already bright (a collision), else to 0.
    pub fn draw(&mut self, x: u8, y: u8, n: u8)
        requires
            old(self)@.wf(),
            x < 16,
            y < 16,
            n < 16,
            old(self)@.i + n <= RAM,
        ensures
            final(self)@.wf(),
            final(self)@ == spec_draw(old(self)@, x as int, y as int, n as int),
    {
        let ghost s0 = old(self)@;
        let ghost xi: int = x as int;
        let ghost yi: int = y as int;
        let ghost ni: int = n as int;
        let x_coord = self.registers[x as usize];
        let y_coord = self.registers[y as usize];
        let mut flipped = false;
        proof {
            // Before any sprite cell is scanned, nothing is touched yet, so no
            // collision can be on record.
            if collides_before(s0, xi, yi, ni, 0, 0) {
                let p = choose|p: int| 0 <= p < 2048
                    && #[trigger] touched_before(s0, xi, yi, ni, 0, 0, p) && s0.display[p];
                assert(!touched_before(s0, xi, yi, ni, 0, 0, p));
            }
        }
        let mut y_line: usize = 0;
        while y_line < n as usize
            invariant
                s0 == old(self)@,
                s0.wf(),
                x < 16,
                y < 16,
                n < 16,
                s0.i + n <= RAM,
                xi == x as int,
                yi == y as int,
                ni == n as int,
                x_coord == s0.regs[xi],
                y_coord == s0.regs[yi],
                y_line <= n,
                self.display@.len() == DISPLAY_MAX_X * DISPLAY_MAX_Y,
                self.registers == old(self).registers,
                self.memory == old(self).memory,
                self.position_in_memory == old(self).position_in_memory,
                self.stack == old(self).stack,
                self.stack_pointer == old(self).stack_pointer,
                self.i_register == old(self).i_register,
                self.delay_timer_register == old(self).delay_timer_register,
                self.sound_timer_register == old(self).sound_timer_register,
                self.keys == old(self).keys,
                forall|p: int| 0 <= p < 2048 ==> self.display@[p] == (s0.display[p]
                    != touched_before(s0, xi, yi, ni, y_line as int, 0, p)),
                flipped == collides_before(s0, xi, yi, ni, y_line as int, 0),
            decreases n - y_line,
        {
            let ghost rb: int = y_line as int;
            let addr = self.i_register as usize + y_line;
            let pixels = self.memory[addr];
            let mut x_line: usize = 0;
            while x_line < SPRITE_WIDTH
                invariant
                    s0 == old(self)@,
                    s0.wf(),
                    x < 16,
                    y < 16,
                    n < 16,
                    s0.i + n <= RAM,
                    xi == x as int,
                    yi == y as int,
                    ni == n as int,
                    x_coord == s0.regs[xi],
                    y_coord == s0.regs[yi],
                    rb == y_line as int,
                    y_line < n,
                    x_line <= SPRITE_WIDTH,
                    pixels == s0.mem[s0.i + rb],
                    self.display@.len() == DISPLAY_MAX_X * DISPLAY_MAX_Y,
                    self.registers == old(self).registers,
                    self.memory == old(self).memory,
                    self.position_in_memory == old(self).position_in_memory,
                    self.stack == old(self).stack,
                    self.stack_pointer == old(self).stack_pointer,
                    self.i_register == old(self).i_register,
                    self.delay_timer_register == old(self).delay_timer_register,
                    self.sound_timer_register == old(self).sound_timer_register,
                    self.keys == old(self).keys,
                    forall|p: int| 0 <= p < 2048 ==> self.display@[p] == (s0.display[p]
                        != touched_before(s0, xi, yi, ni, rb, x_line as int, p)),
                    flipped == collides_before(s0, xi, yi, ni, rb, x_line as int),
                decreases SPRITE_WIDTH - x_line,
            {
                let ghost cb: int = x_line as int;
                let ghost flipped_in: bool = flipped;
                if pixels & (0b10000000u8 >> (x_line as u8)) != 0 {
                    let px = (x_coord as usize + x_line) % DISPLAY_MAX_X;
                    let py = (y_coord as usize + y_line) % DISPLAY_MAX_Y;
                    let idx = py * DISPLAY_MAX_X + px;
                    proof {
                        lemma_wrap_round_trip(x_coord as int, cb, 64);
                        lemma_wrap_round_trip(y_coord as int, rb, 32);
                        vstd::arithmetic::div_mod::lemma_fundamental_div_mod_converse(
                            idx as int, 64, py as int, px as int);
                        assert(idx as int % 64 == px as int);
                        assert(idx as int / 64 == py as int);
                        assert((px - s0.regs[xi]) % 64 == cb);
                        assert((py - s0.regs[yi]) % 32 == rb);
                        assert(sprite_bit_set(s0.mem[s0.i + rb], cb));
                        assert(!touched_before(s0, xi, yi, ni, rb, cb, idx as int));
                        assert(touched_before(s0, xi, yi, ni, rb, cb + 1, idx as int));
                    }
                    let prior = self.display[idx];
                    flipped = flipped || prior;
                    self.display.set(idx, prior ^ true);
                    proof {
                        let pi = idx as int;
                        assert(prior == s0.display[pi]);
                        assert forall|p: int| 0 <= p < 2048 implies self.display@[p]
                            == (s0.display[p] != touched_before(s0, xi, yi, ni, rb, cb + 1, p))
                        by {
                            if p != pi {
                                if (p % 64 - s0.regs[xi]) % 64 == cb
                                    && (p / 64 - s0.regs[yi]) % 32 == rb {
                                    lemma_wrap_back(s0.regs[xi] as int, p % 64, 64);
                                    lemma_wrap_back(s0.regs[yi] as int, p / 64, 32);
                                    vstd::arithmetic::div_mod::lemma_fundamental_div_mod(p, 64);
                                    assert(p == pi);
                                }
                                assert(touched_before(s0, xi, yi, ni, rb, cb + 1, p)
                                    == touched_before(s0, xi, yi, ni, rb, cb, p));
                            }
                        };
                        if flipped {
                            if flipped_in {
                                let w = choose|p: int| 0 <= p < 2048
                                    && #[trigger] touched_before(s0, xi, yi, ni, rb, cb, p)
                                    && s0.display[p];
                                assert(touched_before(s0, xi, yi, ni, rb, cb + 1, w));
                            } else {
                                assert(touched_before(s0, xi, yi, ni, rb, cb + 1, pi)
                                    && s0.display[pi]);
                            }
                            assert(collides_before(s0, xi, yi, ni, rb, cb + 1));
                        } else {
                            if collides_before(s0, xi, yi, ni, rb, cb + 1) {
                                let w = choose|p: int| 0 <= p < 2048
                                    && #[trigger] touched_before(s0, xi, yi, ni, rb, cb + 1, p)
                                    && s0.display[p];
                                if w != pi {
                                    if (w % 64 - s0.regs[xi]) % 64 == cb
                                        && (w / 64 - s0.regs[yi]) % 32 == rb {
                                        lemma_wrap_back(s0.regs[xi] as int, w % 64, 64);
                                        lemma_wrap_back(s0.regs[yi] as int, w / 64, 32);
                                        vstd::arithmetic::div_mod::lemma_fundamental_div_mod(
                                            w, 64);
                                        assert(w == pi);
                                    }
                                    assert(touched_before(s0, xi, yi, ni, rb, cb, w));
                                    assert(collides_before(s0, xi, yi, ni, rb, cb));
                                }
                                assert(false);
                            }
                        }
                    }
                } else {
                    proof {
                        assert(!sprite_bit_set(s0.mem[s0.i + rb], cb));
                        assert forall|p: int| 0 <= p < 2048 implies
                            touched_before(s0, xi, yi, ni, rb, cb + 1, p)
                            == touched_before(s0, xi, yi, ni, rb, cb, p)
                        by {
                        }
                        lemma_collides_congruence(s0, xi, yi, ni, rb, cb + 1, rb, cb);
                    }
                }
                x_line = x_line + 1;
            }
            proof {
                assert forall|p: int| 0 <= p < 2048 implies
                    touched_before(s0, xi, yi, ni, rb + 1, 0, p)
                    == touched_before(s0, xi, yi, ni, rb, SPRITE_WIDTH as int, p)
                by {
                }
                lemma_collides_congruence(s0, xi, yi, ni, rb + 1, 0, rb, SPRITE_WIDTH as int);
            }
            y_line = y_line + 1;
        }
        proof {
            lemma_scan_complete(s0, xi, yi, ni);
        }
        if flipped {
            self.registers.set(0xF, 1);
        } else {
            self.registers.set(0xF, 0);
        }
        proof {
            assert(self@.display =~= spec_draw(s0, xi, yi, ni).display);
            assert(self@ =~= spec_draw(s0, xi, yi, ni));
        }
    }

    /// Reset every frame-buffer cell to unset.
    pub fn clear_screen(&mut self)
        requires
            old(self)@.wf(),
        ensures
            final(self)@.wf(),
            final(self)@ == spec_clear(old(self)@),
    {
        self.display = repeat_value(DISPLAY_MAX_X * DISPLAY_MAX_Y, false);
        proof {
            assert(self@ =~= spec_clear(old(self)@));
        }
    }

    /// Overwrite the flag register with 1 or 0: the side channel every
    /// arithmetic, shift and draw instruction reports through.
    pub fn set_vf(&mut self, set_to_one: bool)
        requires
            old(self)@.wf(),
        ensures
            final(self)@.wf(),
            final(self)@ == spec_set_vf(old(self)@, set_to_one),
    {
        if set_to_one {
            self.registers.set(0xF, 1);
        } else {
            self.registers.set(0xF, 0);
        }
        proof {
            assert(self@ =~= spec_set_vf(old(self)@, set_to_one));
        }
    }
}

/// Relies on `rand::thread_rng` and `rand::Rng::gen_range` over the inclusive
/// byte range: one uniformly drawn byte. Nothing can be promised of a random
/// value, so this trusted wrapper promises nothing.
#[verifier::external_body]
fn random_byte() -> u8 {
    rand::thread_rng().gen_range(0..=255)
}

} // verus!
