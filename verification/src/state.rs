use vstd::prelude::*;

use crate::chip::{DISPLAY_MAX_X, DISPLAY_MAX_Y, FONTSET_ADDR, FONTSET_SIZE, RAM, STACK_SIZE,
    START_ADDR};
use crate::error::ChipError;
use crate::opcode::Opcode;

verus! {

/// The mathematical model of the whole machine: every field of the executable
/// [`crate::chip::Chip8`] viewed as a sequence or an integer. All contracts of
/// the interpreter are stated over this model and the step functions below.
#[verifier::ext_equal]
pub ghost struct ChipState {
    /// The 16 general 8-bit registers; index 15 is the flag register.
    pub regs: Seq<u8>,
    /// The program counter.
    pub pc: int,
    /// The 4096 addressable bytes.
    pub mem: Seq<u8>,
    /// The 16 return-address slots of the call stack.
    pub stack: Seq<u16>,
    /// The call-stack depth, 0 to 16.
    pub sp: int,
    /// The 16-bit index register.
    pub i: int,
    /// The delay countdown timer.
    pub delay: u8,
    /// The sound countdown timer.
    pub sound: u8,
    /// The 16 key-down latches.
    pub keys: Seq<bool>,
    /// The 64x32 frame buffer, row-major; true = bright.
    pub display: Seq<bool>,
}

impl ChipState {
    /// Well-formedness: the fixed dimensions of every component, a stack depth
    /// within its 16 slots, and an index register within 16 bits.
    pub open spec fn wf(self) -> bool {
        &&& self.regs.len() == 16
        &&& self.mem.len() == RAM
        &&& self.stack.len() == STACK_SIZE
        &&& self.keys.len() == 16
        &&& self.display.len() == DISPLAY_MAX_X * DISPLAY_MAX_Y
        &&& 0 <= self.pc
        &&& 0 <= self.sp <= STACK_SIZE
        &&& 0 <= self.i < 0x10000
    }
}

/// The built-in glyph set: sixteen 5-byte sprites for the hexadecimal digits.
pub open spec fn glyph_data() -> Seq<u8> {
    seq![
        0xF0u8, 0x90, 0x90, 0x90, 0xF0, // 0
        0x20, 0x60, 0x20, 0x20, 0x70, // 1
        0xF0, 0x10, 0xF0, 0x80, 0xF0, // 2
        0xF0, 0x10, 0xF0, 0x10, 0xF0, // 3
        0x90, 0x90, 0xF0, 0x10, 0x10, // 4
        0xF0, 0x80, 0xF0, 0x10, 0xF0, // 5
        0xF0, 0x80, 0xF0, 0x90, 0xF0, // 6
        0xF0, 0x10, 0x20, 0x40, 0x40, // 7
        0xF0, 0x90, 0xF0, 0x90, 0xF0, // 8
        0xF0, 0x90, 0xF0, 0x10, 0xF0, // 9
        0xF0, 0x90, 0xF0, 0x90, 0x90, // A
        0xE0, 0x90, 0xE0, 0x90, 0xE0, // B
        0xF0, 0x80, 0x80, 0x80, 0xF0, // C
        0xE0, 0x90, 0x90, 0x90, 0xE0, // D
        0xF0, 0x80, 0xF0, 0x80, 0xF0, // E
        0xF0, 0x80, 0xF0, 0x80, 0x80, // F
    ]
}

/// Memory as constructed: the glyph set at its fixed low region, zero
/// everywhere else.
pub open spec fn init_memory() -> Seq<u8> {
    Seq::new(RAM as nat, |j: int|
        if FONTSET_ADDR <= j < FONTSET_ADDR + FONTSET_SIZE {
            glyph_data()[j - FONTSET_ADDR]
        } else {
            0u8
        })
}

/// A fresh machine: glyph set preloaded, program counter at the program start
/// offset, everything else cleared.
pub open spec fn init_state() -> ChipState {
    ChipState {
        regs: Seq::new(16, |k: int| 0u8),
        pc: START_ADDR as int,
        mem: init_memory(),
        stack: Seq::new(STACK_SIZE as nat, |k: int| 0u16),
        sp: 0,
        i: 0,
        delay: 0,
        sound: 0,
        keys: Seq::new(16, |k: int| false),
        display: Seq::new((DISPLAY_MAX_X * DISPLAY_MAX_Y) as nat, |p: int| false),
    }
}

/// The program image copied into the program region; the rest of memory keeps
/// its prior contents.
pub open spec fn spec_load_rom(s: ChipState, rom: Seq<u8>) -> ChipState {
    ChipState {
        mem: Seq::new(RAM as nat, |j: int|
            if START_ADDR <= j < START_ADDR + rom.len() {
                rom[j - START_ADDR]
            } else {
                s.mem[j]
            }),
        ..s
    }
}

/// The big-endian 16-bit word at the program counter.
pub open spec fn word_at(s: ChipState) -> u16 {
    ((s.mem[s.pc] as u16) << 8) | (s.mem[s.pc + 1] as u16)
}

/// The state after the fetch phase: the program counter moved past the
/// instruction word, nothing else touched.
pub open spec fn advance(s: ChipState) -> ChipState {
    ChipState { pc: s.pc + 2, ..s }
}

/// 1 for true, 0 for false: the value written into the flag register.
pub open spec fn flag_val(b: bool) -> u8 {
    if b { 1u8 } else { 0u8 }
}

/// 8-bit wraparound sum.
pub open spec fn byte_add(a: u8, b: u8) -> u8 {
    ((a + b) % 256) as u8
}

/// 8-bit wraparound difference.
pub open spec fn byte_sub(a: u8, b: u8) -> u8 {
    ((a - b) % 256) as u8
}

/// The program counter moved two bytes further when the condition holds: a
/// conditional skip.
pub open spec fn spec_skip(s: ChipState, cond: bool) -> ChipState {
    ChipState { pc: s.pc + if cond { 2int } else { 0int }, ..s }
}

pub open spec fn spec_jump(s: ChipState, nnn: u16) -> ChipState {
    ChipState { pc: nnn as int, ..s }
}

pub open spec fn spec_jump_plus_v0(s: ChipState, nnn: u16) -> ChipState {
    ChipState { pc: nnn + s.regs[0], ..s }
}

/// The current (already advanced) program counter pushed, the stack one
/// deeper, control at the call target. Defined only below the stack capacity;
/// the error side lives in [`step_err`].
pub open spec fn spec_call(s: ChipState, nnn: u16) -> ChipState {
    ChipState {
        stack: s.stack.update(s.sp, s.pc as u16),
        sp: s.sp + 1,
        pc: nnn as int,
        ..s
    }
}

/// The youngest return address popped into the program counter. Defined only
/// for a non-empty stack; the error side lives in [`step_err`].
pub open spec fn spec_ret(s: ChipState) -> ChipState {
    ChipState { sp: s.sp - 1, pc: s.stack[s.sp - 1] as int, ..s }
}

pub open spec fn spec_load_value(s: ChipState, x: int, kk: u8) -> ChipState {
    ChipState { regs: s.regs.update(x, kk), ..s }
}

/// Add-immediate: 8-bit wraparound, no flag effect.
pub open spec fn spec_add_imm(s: ChipState, x: int, kk: u8) -> ChipState {
    ChipState { regs: s.regs.update(x, byte_add(s.regs[x], kk)), ..s }
}

pub open spec fn spec_load_y_into_x(s: ChipState, x: int, y: int) -> ChipState {
    ChipState { regs: s.regs.update(x, s.regs[y]), ..s }
}

pub open spec fn spec_or(s: ChipState, x: int, y: int) -> ChipState {
    ChipState { regs: s.regs.update(x, s.regs[x] | s.regs[y]), ..s }
}

pub open spec fn spec_and(s: ChipState, x: int, y: int) -> ChipState {
    ChipState { regs: s.regs.update(x, s.regs[x] & s.regs[y]), ..s }
}

pub open spec fn spec_xor(s: ChipState, x: int, y: int) -> ChipState {
    ChipState { regs: s.regs.update(x, s.regs[x] ^ s.regs[y]), ..s }
}

/// Register add: wraparound sum into the target, flag register 1 exactly when
/// the unsigned sum overflowed 8 bits.
pub open spec fn spec_add_xy(s: ChipState, x: int, y: int) -> ChipState {
    ChipState {
        regs: s.regs
            .update(x, byte_add(s.regs[x], s.regs[y]))
            .update(15, flag_val(s.regs[x] + s.regs[y] >= 256)),
        ..s
    }
}

/// Subtract the second register from the first: wraparound difference, flag
/// register 1 exactly when no borrow was needed (strictly greater source).
pub open spec fn spec_sub_y_from_x(s: ChipState, x: int, y: int) -> ChipState {
    ChipState {
        regs: s.regs
            .update(x, byte_sub(s.regs[x], s.regs[y]))
            .update(15, flag_val(s.regs[x] > s.regs[y])),
        ..s
    }
}

/// Reverse subtract, symmetric to [`spec_sub_y_from_x`].
pub open spec fn spec_sub_x_from_y(s: ChipState, x: int, y: int) -> ChipState {
    ChipState {
        regs: s.regs
            .update(x, byte_sub(s.regs[y], s.regs[x]))
            .update(15, flag_val(s.regs[y] > s.regs[x])),
        ..s
    }
}

/// Shift right: the source register (`y`) halved into the target (`x`), flag
/// register holding the source's least significant bit before the shift.
pub open spec fn spec_shift_right(s: ChipState, x: int, y: int) -> ChipState {
    ChipState {
        regs: s.regs.update(x, s.regs[y] >> 1u8).update(15, s.regs[y] & 1),
        ..s
    }
}

/// Shift left: the source register (`y`) doubled modulo 256 into the target
/// (`x`), flag register holding the source's most significant bit before the
/// shift.
pub open spec fn spec_shift_left(s: ChipState, x: int, y: int) -> ChipState {
    ChipState {
        regs: s.regs.update(x, s.regs[y] << 1u8).update(15, (s.regs[y] >> 7u8) & 1),
        ..s
    }
}

/// The flag register overwritten with 1 or 0.
pub open spec fn spec_set_vf(s: ChipState, set_to_one: bool) -> ChipState {
    ChipState { regs: s.regs.update(15, flag_val(set_to_one)), ..s }
}

pub open spec fn spec_set_i(s: ChipState, nnn: u16) -> ChipState {
    ChipState { i: nnn as int, ..s }
}

/// The value drawn by the random instruction, masked by the immediate. The
/// byte `b` itself comes from the host's random source and is unconstrained.
pub open spec fn spec_random(s: ChipState, x: int, kk: u8, b: u8) -> ChipState {
    ChipState { regs: s.regs.update(x, b & kk), ..s }
}

pub open spec fn spec_load_delay_to_vx(s: ChipState, x: int) -> ChipState {
    ChipState { regs: s.regs.update(x, s.delay), ..s }
}

pub open spec fn spec_set_delay(s: ChipState, x: int) -> ChipState {
    ChipState { delay: s.regs[x], ..s }
}

pub open spec fn spec_set_sound(s: ChipState, x: int) -> ChipState {
    ChipState { sound: s.regs[x], ..s }
}

/// Add a register into the index register with 16-bit wraparound.
pub open spec fn spec_add_vx_to_i(s: ChipState, x: int) -> ChipState {
    ChipState { i: (s.i + s.regs[x]) % 0x10000, ..s }
}

/// Binary-coded-decimal decomposition of the register into hundreds, tens and
/// ones at three consecutive addresses from the index register.
pub open spec fn spec_bcd(s: ChipState, x: int) -> ChipState {
    ChipState {
        mem: s.mem
            .update(s.i, s.regs[x] / 100u8)
            .update(s.i + 1, (s.regs[x] % 100u8) / 10u8)
            .update(s.i + 2, s.regs[x] % 10u8),
        ..s
    }
}

/// Registers 0 through `x` stored at consecutive addresses from the index
/// register, which then lands one past the region written.
pub open spec fn spec_store_regs(s: ChipState, x: int) -> ChipState {
    ChipState {
        mem: Seq::new(RAM as nat, |j: int|
            if s.i <= j <= s.i + x {
                s.regs[j - s.i]
            } else {
                s.mem[j]
            }),
        i: s.i + x + 1,
        ..s
    }
}

/// Registers 0 through `x` filled from consecutive addresses from the index
/// register, which then lands one past the region read.
pub open spec fn spec_fill_regs(s: ChipState, x: int) -> ChipState {
    ChipState {
        regs: Seq::new(16, |r: int|
            if r <= x {
                s.mem[s.i + r]
            } else {
                s.regs[r]
            }),
        i: s.i + x + 1,
        ..s
    }
}

/// The glyph-table address for the hexadecimal digit in the register's low
/// nibble; each glyph occupies a fixed 5-byte slot, so the address is the
/// table base plus five times the digit.
pub open spec fn spec_set_font(s: ChipState, x: int) -> ChipState {
    ChipState { i: FONTSET_ADDR + 5 * (s.regs[x] & 0xF), ..s }
}

/// Some key is latched down.
pub open spec fn any_key_pressed(keys: Seq<bool>) -> bool {
    exists|k: int| 0 <= k < 16 && keys[k]
}

/// The index written by an ascending scan of the latches in which every
/// pressed key overwrites the previous match: the highest pressed index below
/// `n`, or -1 when none is pressed there.
pub open spec fn last_pressed(keys: Seq<bool>, n: int) -> int
    decreases n,
{
    if n <= 0 {
        -1
    } else if keys[n - 1] {
        n - 1
    } else {
        last_pressed(keys, n - 1)
    }
}

/// What the scan index means: a non-negative result is the highest pressed
/// index below `n` (everything above it is up), and -1 means nothing below `n`
/// is pressed.
pub proof fn lemma_last_pressed(keys: Seq<bool>, n: int)
    requires
        0 <= n <= keys.len(),
    ensures
        last_pressed(keys, n) >= 0 ==> 0 <= last_pressed(keys, n) < n
            && keys[last_pressed(keys, n)]
            && (forall|j: int| last_pressed(keys, n) < j < n ==> !keys[j]),
        last_pressed(keys, n) == -1 ==> (forall|j: int| 0 <= j < n ==> !keys[j]),
        last_pressed(keys, n) >= 0 || last_pressed(keys, n) == -1,
    decreases n,
{
    if n > 0 {
        lemma_last_pressed(keys, n - 1);
    }
}

/// Key-wait: with a key down, its index (the last match of the ascending
/// scan) lands in the register and execution proceeds; with none down, the
/// program counter rewinds over the instruction so the next tick refetches it.
pub open spec fn spec_wait_key(s: ChipState, x: int) -> ChipState {
    if any_key_pressed(s.keys) {
        ChipState { regs: s.regs.update(x, last_pressed(s.keys, 16) as u8), ..s }
    } else {
        ChipState { pc: s.pc - 2, ..s }
    }
}

pub open spec fn spec_key_set(s: ChipState, k: int, down: bool) -> ChipState {
    ChipState { keys: s.keys.update(k, down), ..s }
}

/// Both countdown timers decremented, saturating at zero.
pub open spec fn spec_tick_timers(s: ChipState) -> ChipState {
    ChipState {
        delay: if s.delay > 0 { (s.delay - 1) as u8 } else { 0u8 },
        sound: if s.sound > 0 { (s.sound - 1) as u8 } else { 0u8 },
        ..s
    }
}

/// Whether sprite row byte `row` has the bit for column `c` (0 = leftmost,
/// most significant) set.
pub open spec fn sprite_bit_set(row: u8, c: int) -> bool {
    row & (0x80u8 >> (c as u8)) != 0
}

/// Whether the draw of an `n`-row sprite at the coordinates in registers `x`
/// and `y` touches pixel index `p`: the pixel's column and row, taken back
/// modulo the screen dimensions, land inside the sprite on a set bit.
pub open spec fn touched(s: ChipState, x: int, y: int, n: int, p: int) -> bool {
    let px = p % 64;
    let py = p / 64;
    let c = (px - s.regs[x]) % 64;
    let r = (py - s.regs[y]) % 32;
    c < 8 && r < n && sprite_bit_set(s.mem[s.i + r], c)
}

/// Whether the draw turns off some previously bright pixel.
pub open spec fn draw_collides(s: ChipState, x: int, y: int, n: int) -> bool {
    exists|p: int| 0 <= p < 2048 && #[trigger] touched(s, x, y, n, p) && s.display[p]
}

/// [`touched`] restricted to the sprite cells already processed by a row-major
/// scan: full rows below `row_bound`, and in row `row_bound` the columns below
/// `col_bound`.
pub open spec fn touched_before(
    s: ChipState,
    x: int,
    y: int,
    n: int,
    row_bound: int,
    col_bound: int,
    p: int,
) -> bool {
    let px = p % 64;
    let py = p / 64;
    let c = (px - s.regs[x]) % 64;
    let r = (py - s.regs[y]) % 32;
    c < 8 && r < n && (r < row_bound || (r == row_bound && c < col_bound))
        && sprite_bit_set(s.mem[s.i + r], c)
}

/// [`draw_collides`] restricted like [`touched_before`].
pub open spec fn collides_before(
    s: ChipState,
    x: int,
    y: int,
    n: int,
    row_bound: int,
    col_bound: int,
) -> bool {
    exists|p: int| 0 <= p < 2048 && #[trigger] touched_before(s, x, y, n, row_bound, col_bound, p)
        && s.display[p]
}

/// Offsetting a coordinate `a` by `c` and wrapping modulo the screen
/// dimension `m` lands on a cell whose distance back to `a`, modulo `m`, is
/// `c` again.
pub proof fn lemma_wrap_round_trip(a: int, c: int, m: int)
    requires
        0 <= a,
        0 <= c < m,
    ensures
        0 <= (a + c) % m < m,
        ((a + c) % m - a) % m == c,
{
    let s = (a + c) % m;
    let q = (a + c) / m;
    vstd::arithmetic::div_mod::lemma_fundamental_div_mod(a + c, m);
    assert(m * q + (s - a) == c);
    vstd::arithmetic::div_mod::lemma_mod_multiples_vanish(q, s - a, m);
    vstd::arithmetic::div_mod::lemma_small_mod(c as nat, m as nat);
}

/// The converse: a cell whose wrapped distance back to `a` is `c` is exactly
/// the cell reached from `a` offset by `c`.
pub proof fn lemma_wrap_back(a: int, px: int, m: int)
    requires
        0 <= a,
        0 <= px < m,
    ensures
        (a + (px - a) % m) % m == px,
        0 <= (px - a) % m < m,
{
    let c = (px - a) % m;
    let q = (px - a) / m;
    vstd::arithmetic::div_mod::lemma_fundamental_div_mod(px - a, m);
    assert(m * q + (a + c) == px);
    vstd::arithmetic::div_mod::lemma_mod_multiples_vanish(q, a + c, m);
    vstd::arithmetic::div_mod::lemma_small_mod(px as nat, m as nat);
}

/// Two scan positions that touch the same pixels collide alike.
pub proof fn lemma_collides_congruence(
    s: ChipState,
    x: int,
    y: int,
    n: int,
    rb1: int,
    cb1: int,
    rb2: int,
    cb2: int,
)
    requires
        forall|p: int| 0 <= p < 2048 ==> #[trigger] touched_before(s, x, y, n, rb1, cb1, p)
            == touched_before(s, x, y, n, rb2, cb2, p),
    ensures
        collides_before(s, x, y, n, rb1, cb1) == collides_before(s, x, y, n, rb2, cb2),
{
    if collides_before(s, x, y, n, rb1, cb1) {
        let p = choose|p: int| 0 <= p < 2048 && #[trigger] touched_before(s, x, y, n, rb1, cb1, p)
            && s.display[p];
        assert(touched_before(s, x, y, n, rb2, cb2, p));
    }
    if collides_before(s, x, y, n, rb2, cb2) {
        let p = choose|p: int| 0 <= p < 2048 && #[trigger] touched_before(s, x, y, n, rb2, cb2, p)
            && s.display[p];
        assert(touched_before(s, x, y, n, rb1, cb1, p));
    }
}

/// A scan that has processed all `n` rows has touched exactly what the draw
/// touches, and collides exactly when the draw collides.
pub proof fn lemma_scan_complete(s: ChipState, x: int, y: int, n: int)
    ensures
        forall|p: int| 0 <= p < 2048 ==> #[trigger] touched_before(s, x, y, n, n, 0, p)
            == touched(s, x, y, n, p),
        collides_before(s, x, y, n, n, 0) == draw_collides(s, x, y, n),
{
    assert(forall|p: int| 0 <= p < 2048 ==> #[trigger] touched_before(s, x, y, n, n, 0, p)
        == touched(s, x, y, n, p));
    if collides_before(s, x, y, n, n, 0) {
        let p = choose|p: int| 0 <= p < 2048 && #[trigger] touched_before(s, x, y, n, n, 0, p)
            && s.display[p];
        assert(touched(s, x, y, n, p));
    }
    if draw_collides(s, x, y, n) {
        let p = choose|p: int| 0 <= p < 2048 && #[trigger] touched(s, x, y, n, p) && s.display[p];
        assert(touched_before(s, x, y, n, n, 0, p));
    }
}

/// Draw: every touched pixel toggled (coordinates wrap, never clip), the flag
/// register 1 exactly when some touched pixel was already bright.
pub open spec fn spec_draw(s: ChipState, x: int, y: int, n: int) -> ChipState {
    ChipState {
        display: Seq::new((DISPLAY_MAX_X * DISPLAY_MAX_Y) as nat, |p: int|
            s.display[p] != touched(s, x, y, n, p)),
        regs: s.regs.update(15, flag_val(draw_collides(s, x, y, n))),
        ..s
    }
}

pub open spec fn spec_clear(s: ChipState) -> ChipState {
    ChipState {
        display: Seq::new((DISPLAY_MAX_X * DISPLAY_MAX_Y) as nat, |p: int| false),
        ..s
    }
}

/// The fatal condition a decoded instruction raises in state `s`, if any:
/// system calls and unrecognized words are never executable, a call needs a
/// free stack slot, a return needs a non-empty stack.
pub open spec fn step_err(s: ChipState, op: Opcode) -> Option<ChipError> {
    match op {
        Opcode::Sys(nnn) => Some(ChipError::SysOpcodeNotSupported(nnn)),
        Opcode::UnknownOpcode(w) => Some(ChipError::UnknownOpcode(w)),
        Opcode::Call(nnn) => if s.sp >= STACK_SIZE {
            Some(ChipError::StackOverflow)
        } else {
            None
        },
        Opcode::Ret => if s.sp <= 0 {
            Some(ChipError::StackUnderflow)
        } else {
            None
        },
        _ => None,
    }
}

/// The successor state of one successfully executed instruction. Only
/// meaningful where [`step_err`] is `None`; the random instruction has no
/// deterministic successor and is related to its outcomes by [`exec_rel`]
/// instead.
pub open spec fn step(s: ChipState, op: Opcode) -> ChipState {
    match op {
        Opcode::Sys(nnn) => s,
        Opcode::Jump(nnn) => spec_jump(s, nnn),
        Opcode::Call(nnn) => spec_call(s, nnn),
        Opcode::SkipIfEqualAtX { x, kk } => spec_skip(s, s.regs[x as int] == kk),
        Opcode::SkipIfNotEqualAtX { x, kk } => spec_skip(s, s.regs[x as int] != kk),
        Opcode::LoadValueToRegister { x, kk } => spec_load_value(s, x as int, kk),
        Opcode::AddToValueInRegister { x, kk } => spec_add_imm(s, x as int, kk),
        Opcode::SkipIfBothValuesEqual { x, y } => spec_skip(
            s,
            s.regs[x as int] == s.regs[y as int],
        ),
        Opcode::SkipIfBothValuesNotEqual { x, y } => spec_skip(
            s,
            s.regs[x as int] != s.regs[y as int],
        ),
        Opcode::LoadYIntoX { x, y } => spec_load_y_into_x(s, x as int, y as int),
        Opcode::BitwiseOrXY { x, y } => spec_or(s, x as int, y as int),
        Opcode::BitwiseAndXY { x, y } => spec_and(s, x as int, y as int),
        Opcode::BitwiseXorXY { x, y } => spec_xor(s, x as int, y as int),
        Opcode::AddXY { x, y } => spec_add_xy(s, x as int, y as int),
        Opcode::SubYfromX { x, y } => spec_sub_y_from_x(s, x as int, y as int),
        Opcode::SubXfromY { x, y } => spec_sub_x_from_y(s, x as int, y as int),
        Opcode::ShiftRight { x, y } => spec_shift_right(s, x as int, y as int),
        Opcode::ShiftLeft { x, y } => spec_shift_left(s, x as int, y as int),
        Opcode::Ret => spec_ret(s),
        Opcode::SetIRegister(nnn) => spec_set_i(s, nnn),
        Opcode::JumpPlusV0(nnn) => spec_jump_plus_v0(s, nnn),
        Opcode::RandomNumberToRegisterX { x, kk } => s,
        Opcode::LoadDelayTimerToVx { x } => spec_load_delay_to_vx(s, x as int),
        Opcode::SetDelayTimer { x } => spec_set_delay(s, x as int),
        Opcode::SetSoundTimer { x } => spec_set_sound(s, x as int),
        Opcode::AddVxToIRegister { x } => spec_add_vx_to_i(s, x as int),
        Opcode::LoadVxAsDecimalIntoMemoryAtIRegister { x } => spec_bcd(s, x as int),
        Opcode::LoadRegistersV0ToVxIntoMemoryAtI { x } => spec_store_regs(s, x as int),
        Opcode::FillRegistersV0ToVxFromMmoryAtI { x } => spec_fill_regs(s, x as int),
        Opcode::WaitForKeyPressAndStoreVx { x } => spec_wait_key(s, x as int),
        Opcode::SkipIfKeyAtVxPressed { x } => spec_skip(s, s.keys[s.regs[x as int] as int]),
        Opcode::SkipIfKeyAtVxNotPressed { x } => spec_skip(s, !s.keys[s.regs[x as int] as int]),
        Opcode::Draw { x, y, n } => spec_draw(s, x as int, y as int, n as int),
        Opcode::ClearScreen => spec_clear(s),
        Opcode::SetICorrespondingFontAddressFromVx { x } => spec_set_font(s, x as int),
        Opcode::UnknownOpcode(w) => s,
    }
}

/// The memory accesses and machine limits a decoded instruction needs in
/// state `s`; the interpreter's handlers demand exactly these and nothing
/// more. A program that breaks one of them is malformed, and running it is a
/// caller contract violation.
pub open spec fn safe_op(s: ChipState, op: Opcode) -> bool {
    match op {
        Opcode::Call(nnn) => s.pc <= 0xFFFF,
        Opcode::SkipIfEqualAtX { x, kk } => s.pc + 2 <= usize::MAX,
        Opcode::SkipIfNotEqualAtX { x, kk } => s.pc + 2 <= usize::MAX,
        Opcode::SkipIfBothValuesEqual { x, y } => s.pc + 2 <= usize::MAX,
        Opcode::SkipIfBothValuesNotEqual { x, y } => s.pc + 2 <= usize::MAX,
        Opcode::SkipIfKeyAtVxPressed { x } => s.regs[x as int] < 16 && s.pc + 2 <= usize::MAX,
        Opcode::SkipIfKeyAtVxNotPressed { x } => s.regs[x as int] < 16 && s.pc + 2 <= usize::MAX,
        Opcode::JumpPlusV0(nnn) => nnn < 0x1000,
        Opcode::WaitForKeyPressAndStoreVx { x } => any_key_pressed(s.keys) || s.pc >= 2,
        Opcode::LoadVxAsDecimalIntoMemoryAtIRegister { x } => s.i + 2 < RAM,
        Opcode::LoadRegistersV0ToVxIntoMemoryAtI { x } => s.i + x < RAM,
        Opcode::FillRegistersV0ToVxFromMmoryAtI { x } => s.i + x < RAM,
        Opcode::Draw { x, y, n } => s.i + n <= RAM,
        _ => true,
    }
}

/// How one executed instruction relates the machine before (`pre`) and after
/// (`post`) and the returned result: on a fatal condition the matching error
/// comes back and the state stands still; otherwise the state takes exactly
/// one step, except that the random instruction lands on one of its possible
/// outcomes.
pub open spec fn exec_rel(
    pre: ChipState,
    op: Opcode,
    post: ChipState,
    r: Result<(), ChipError>,
) -> bool {
    match step_err(pre, op) {
        Some(e) => r == Err::<(), ChipError>(e) && post == pre,
        None => r == Ok::<(), ChipError>(()) && match op {
            Opcode::RandomNumberToRegisterX { x, kk } => exists|b: u8|
                post == spec_random(pre, x as int, kk, b),
            _ => post == step(pre, op),
        },
    }
}

/// What one whole tick needs: the two instruction bytes inside memory, and
/// the decoded instruction executable from the post-fetch state.
pub open spec fn tick_enabled(s: ChipState) -> bool {
    &&& s.pc + 1 < RAM
    &&& safe_op(advance(s), crate::opcode::decode_op(word_at(s)))
}

/// One whole tick: fetch the word at the program counter, advance it by two,
/// then execute the decoded instruction from that post-fetch state.
pub open spec fn tick_rel(pre: ChipState, post: ChipState, r: Result<(), ChipError>) -> bool {
    exec_rel(advance(pre), crate::opcode::decode_op(word_at(pre)), post, r)
}

} // verus!
