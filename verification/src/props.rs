use vstd::prelude::*;

use crate::chip::{RAM, STACK_SIZE};
use crate::error::ChipError;
use crate::opcode::{decode_op, Opcode};
use crate::state::{advance, any_key_pressed, draw_collides, flag_val, last_pressed,
    lemma_last_pressed, step, step_err, touched, word_at, ChipState};

verus! {

/// Register add, for all 8-bit values `a` and `b` in two distinct registers
/// (the target apart from the flag register): the target takes `(a + b) mod
/// 256` and the flag register becomes 1 exactly when `a + b >= 256`.
pub proof fn lemma_register_add(s: ChipState, x: u8, y: u8)
    requires
        s.wf(),
        x < 16,
        y < 16,
        x != 15,
    ensures
        step(s, Opcode::AddXY { x, y }).regs[x as int]
            == (s.regs[x as int] + s.regs[y as int]) % 256,
        step(s, Opcode::AddXY { x, y }).regs[15]
            == flag_val(s.regs[x as int] + s.regs[y as int] >= 256),
{
}

/// Register subtract, for all 8-bit values `a` and `b` with `a != b`: the
/// target takes `(a - b) mod 256` and the flag register becomes 1 exactly
/// when `a >= b`. (At `a == b` the machine follows the strict no-borrow
/// convention and writes 0, so equality is left out here.)
pub proof fn lemma_register_sub(s: ChipState, x: u8, y: u8)
    requires
        s.wf(),
        x < 16,
        y < 16,
        x != 15,
        s.regs[x as int] != s.regs[y as int],
    ensures
        step(s, Opcode::SubYfromX { x, y }).regs[x as int]
            == (s.regs[x as int] - s.regs[y as int]) % 256,
        step(s, Opcode::SubYfromX { x, y }).regs[15]
            == flag_val(s.regs[x as int] >= s.regs[y as int]),
{
}

/// Shift right of the byte `v` in the source register yields `v >> 1` with
/// the flag register equal to `v & 1`.
pub proof fn lemma_shift_right_bits(s: ChipState, x: u8, y: u8)
    requires
        s.wf(),
        x < 16,
        y < 16,
        x != 15,
    ensures
        step(s, Opcode::ShiftRight { x, y }).regs[x as int] == s.regs[y as int] >> 1u8,
        step(s, Opcode::ShiftRight { x, y }).regs[15] == s.regs[y as int] & 1,
{
}

/// Shift left of the byte `v` in the source register yields `(v * 2) mod 256`
/// (the low byte of `v << 1`) with the flag register equal to `(v >> 7) & 1`.
pub proof fn lemma_shift_left_bits(s: ChipState, x: u8, y: u8)
    requires
        s.wf(),
        x < 16,
        y < 16,
        x != 15,
    ensures
        step(s, Opcode::ShiftLeft { x, y }).regs[x as int]
            == (s.regs[y as int] * 2) % 256,
        step(s, Opcode::ShiftLeft { x, y }).regs[15] == (s.regs[y as int] >> 7u8) & 1,
{
    let v = s.regs[y as int];
    assert((v << 1u8) == (v * 2) % 256) by (bit_vector);
}

/// Drawing the same sprite twice at the same location toggles every pixel
/// back: the frame buffer returns to its pre-draw contents. And the second
/// draw reports a collision exactly when some touched pixel was bright after
/// the first draw. (The coordinate registers must not be the flag register,
/// which the first draw overwrites.)
pub proof fn lemma_draw_twice_restores(s: ChipState, x: u8, y: u8, n: u8)
    requires
        s.wf(),
        x < 16,
        y < 16,
        n < 16,
        x != 15,
        y != 15,
        0 <= s.i,
        s.i + n <= RAM,
    ensures
        step(step(s, Opcode::Draw { x, y, n }), Opcode::Draw { x, y, n }).display == s.display,
        step(step(s, Opcode::Draw { x, y, n }), Opcode::Draw { x, y, n }).regs[15] == 1
            <==> exists|p: int| 0 <= p < 2048
                && #[trigger] touched(s, x as int, y as int, n as int, p)
                && step(s, Opcode::Draw { x, y, n }).display[p],
{
    let xi = x as int;
    let yi = y as int;
    let ni = n as int;
    let op = Opcode::Draw { x, y, n };
    let s1 = step(s, op);
    assert forall|p: int| 0 <= p < 2048 implies #[trigger] touched(s1, xi, yi, ni, p)
        == touched(s, xi, yi, ni, p) by {
        assert(s1.regs[xi] == s.regs[xi]);
        assert(s1.regs[yi] == s.regs[yi]);
    }
    assert(step(s1, op).display =~= s.display);
    if draw_collides(s1, xi, yi, ni) {
        let p = choose|p: int| 0 <= p < 2048 && #[trigger] touched(s1, xi, yi, ni, p)
            && s1.display[p];
        assert(touched(s, xi, yi, ni, p) && s1.display[p]);
    }
    if exists|p: int| 0 <= p < 2048 && #[trigger] touched(s, xi, yi, ni, p) && s1.display[p] {
        let p = choose|p: int| 0 <= p < 2048 && #[trigger] touched(s, xi, yi, ni, p)
            && s1.display[p];
        assert(touched(s1, xi, yi, ni, p));
        assert(draw_collides(s1, xi, yi, ni));
    }
}

/// A call pushes the current program counter into the next stack slot,
/// deepens the stack by one and jumps, leaving every other component — and
/// every older return address — alone; the following return then restores the
/// exact pre-call program counter and stack depth. Neither instruction faults
/// on the way. (The program counter must fit the 16-bit stack slot; within
/// memory bounds it always does.)
pub proof fn lemma_call_then_ret_restores_pc(s: ChipState, nnn: u16)
    requires
        s.wf(),
        0 <= s.pc <= 0xFFFF,
        s.sp < STACK_SIZE,
    ensures
        step_err(s, Opcode::Call(nnn)) is None,
        step(s, Opcode::Call(nnn)).pc == nnn,
        step(s, Opcode::Call(nnn)).sp == s.sp + 1,
        step(s, Opcode::Call(nnn)).stack[s.sp] == s.pc as u16,
        forall|j: int| 0 <= j < s.sp ==> step(s, Opcode::Call(nnn)).stack[j] == s.stack[j],
        step_err(step(s, Opcode::Call(nnn)), Opcode::Ret) is None,
        step(step(s, Opcode::Call(nnn)), Opcode::Ret).pc == s.pc,
        step(step(s, Opcode::Call(nnn)), Opcode::Ret).sp == s.sp,
        step(step(s, Opcode::Call(nnn)), Opcode::Ret)
            == (ChipState { stack: s.stack.update(s.sp, s.pc as u16), ..s }),
{
    assert(step(step(s, Opcode::Call(nnn)), Opcode::Ret)
        =~= (ChipState { stack: s.stack.update(s.sp, s.pc as u16), ..s }));
}

/// When the call stack faults: a call is refused with `StackOverflow` exactly
/// at 16 live return addresses (so 16 nested calls succeed and a 17th fails),
/// and a return is refused with `StackUnderflow` exactly on an empty stack.
pub proof fn lemma_stack_limits(s: ChipState, nnn: u16)
    requires
        s.wf(),
    ensures
        step_err(s, Opcode::Call(nnn)) == (if s.sp >= STACK_SIZE {
            Some(ChipError::StackOverflow)
        } else {
            None::<ChipError>
        }),
        step_err(s, Opcode::Ret) == (if s.sp == 0 {
            Some(ChipError::StackUnderflow)
        } else {
            None::<ChipError>
        }),
        step_err(s, Opcode::Call(nnn)) is None ==> step(s, Opcode::Call(nnn)).sp == s.sp + 1,
        step_err(s, Opcode::Ret) is None ==> step(s, Opcode::Ret).sp == s.sp - 1,
{
}

/// One whole tick at a key-wait instruction. With no key down, the program
/// counter ends exactly where it began — advanced by the fetch, rewound by
/// the handler — and the registers stay, so the same instruction is refetched
/// next tick. With a key down, the tick advances the counter normally and
/// stores a pressed key's index: the highest one, since in the ascending scan
/// the last match wins.
pub proof fn lemma_wait_key_tick(s: ChipState, x: u8)
    requires
        s.wf(),
        x < 16,
        s.pc + 1 < RAM,
        decode_op(word_at(s)) == (Opcode::WaitForKeyPressAndStoreVx { x }),
    ensures
        step_err(advance(s), decode_op(word_at(s))) is None,
        !any_key_pressed(s.keys) ==> {
            &&& step(advance(s), decode_op(word_at(s))).pc == s.pc
            &&& step(advance(s), decode_op(word_at(s))).regs == s.regs
        },
        any_key_pressed(s.keys) ==> {
            &&& step(advance(s), decode_op(word_at(s))).pc == s.pc + 2
            &&& step(advance(s), decode_op(word_at(s))).regs
                == s.regs.update(x as int, last_pressed(s.keys, 16) as u8)
            &&& 0 <= last_pressed(s.keys, 16) < 16
            &&& s.keys[last_pressed(s.keys, 16)]
            &&& forall|j: int| last_pressed(s.keys, 16) < j < 16 ==> !s.keys[j]
        },
{
    lemma_last_pressed(s.keys, 16);
}

} // verus!
