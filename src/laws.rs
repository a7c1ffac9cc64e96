use vstd::prelude::*;
use crate::ChipError;
use crate::chip::{ChipView, collides, covers, cycle_spec, first_pressed, step, valid};
use crate::instruction::Instruction;

verus! {

/// `first_pressed` finds the lowest pressed key, or 16 when none is pressed.
pub proof fn lemma_first_pressed(keys: Seq<bool>, k: int)
    requires
        keys.len() == 16,
        0 <= k <= 16,
    ensures
        k <= first_pressed(keys, k) <= 16,
        first_pressed(keys, k) < 16 ==> keys[first_pressed(keys, k)],
        forall|j: int| k <= j < first_pressed(keys, k) ==> !keys[j],
    decreases 16 - k,
{
    if k < 16 && !keys[k] {
        lemma_first_pressed(keys, k + 1);
    }
}

/// Copying `Vy` into `Vx` makes them equal and leaves the flag register
/// alone unless it is the target.
pub proof fn lemma_ld_reg(s: ChipView, x: u8, y: u8)
    requires
        valid(s),
        x < 16,
        y < 16,
    ensures
        step(s, Instruction::LdReg(x, y)).1 is Ok,
        step(s, Instruction::LdReg(x, y)).0.v[x as int] == s.v[y as int],
        x != 15 ==> step(s, Instruction::LdReg(x, y)).0.v[15] == s.v[15],
{
}

/// Adding registers: `Vx` gets the sum modulo 256 and the flag register
/// tells whether the sum exceeded 255.
pub proof fn lemma_add_reg(s: ChipView, x: u8, y: u8)
    requires
        valid(s),
        x < 16,
        y < 16,
        x != 15,
    ensures
        step(s, Instruction::AddReg(x, y)).1 is Ok,
        step(s, Instruction::AddReg(x, y)).0.v[x as int] == (s.v[x as int] + s.v[y as int])
            % 256,
        step(s, Instruction::AddReg(x, y)).0.v[15] == if s.v[x as int] + s.v[y as int] > 255 {
            1u8
        } else {
            0u8
        },
{
}

/// Subtracting registers: `Vx` gets the difference modulo 256 whatever the
/// operands; when `Vx` is not the flag register, the flag tells whether
/// `Vx` was greater than `Vy` before the operation.
pub proof fn lemma_sub_reg(s: ChipView, x: u8, y: u8)
    requires
        valid(s),
        x < 16,
        y < 16,
    ensures
        step(s, Instruction::Sub(x, y)).1 is Ok,
        step(s, Instruction::Sub(x, y)).0.v[x as int] == (s.v[x as int] - s.v[y as int]) % 256,
        x != 15 ==> step(s, Instruction::Sub(x, y)).0.v[15] == if s.v[x as int] > s.v[y as int] {
            1u8
        } else {
            0u8
        },
{
}

/// A draw sets the flag register to 1 exactly when a set sprite bit lands
/// on a lit cell, and to 0 otherwise, whatever the flag held before.
pub proof fn lemma_draw_flag(s: ChipView, x: u8, y: u8, n: u8)
    requires
        valid(s),
        x < 16,
        y < 16,
        n < 16,
        s.i + n <= 4096,
    ensures
        step(s, Instruction::Drw(x, y, n)).1 is Ok,
        step(s, Instruction::Drw(x, y, n)).0.v[15] == 1 <==> (exists|c: int|
            0 <= c < 2048 && s.display[c] && #[trigger] covers(
                s.mem,
                s.i,
                s.v[x as int],
                s.v[y as int],
                n,
                c,
            )),
        step(s, Instruction::Drw(x, y, n)).0.v[15] == 0 <==> !collides(
            s,
            s.v[x as int],
            s.v[y as int],
            n,
        ),
{
}

/// Clearing the screen turns every cell off.
pub proof fn lemma_cls(s: ChipView)
    requires
        valid(s),
    ensures
        step(s, Instruction::Cls).1 is Ok,
        step(s, Instruction::Cls).0.display.len() == 2048,
        forall|c: int| 0 <= c < 2048 ==> !#[trigger] step(s, Instruction::Cls).0.display[c],
{
}

/// A cycle that runs `JP a` leaves `pc` at `a`, with no further advance.
pub proof fn lemma_jump(s: ChipView, a: u16)
    requires
        valid(s),
        (s.waiting is None),
        s.pc + 1 < 4096,
        a < 4096,
        s.mem[s.pc as int] == 0x10 + a / 256,
        s.mem[s.pc + 1] == a % 256,
    ensures
        cycle_spec(s).1 is Ok,
        cycle_spec(s).0.pc == a,
{
    let op = (s.mem[s.pc as int] * 256 + s.mem[s.pc + 1]) as u16;
    assert(op == 0x1000 + a);
    assert(op / 4096 == 1 && op % 4096 == a);
}

/// A cycle that meets `LD Vx, K` with no key down keeps `pc` on that
/// instruction and marks `Vx` as waiting.
pub proof fn lemma_wait_key_start(s: ChipView, x: u8)
    requires
        valid(s),
        (s.waiting is None),
        s.pc + 1 < 4096,
        x < 16,
        s.mem[s.pc as int] == 0xF0 + x,
        s.mem[s.pc + 1] == 0x0A,
        forall|k: int| 0 <= k < 16 ==> !#[trigger] s.keys[k],
    ensures
        cycle_spec(s) == (ChipView { waiting: Some(x), ..s }, Ok::<(), ChipError>(())),
{
    let op = (s.mem[s.pc as int] * 256 + s.mem[s.pc + 1]) as u16;
    assert(op == 0xF00A + x as int * 256);
    assert(op / 4096 == 15 && (op / 256) % 16 == x && op % 256 == 0x0A);
    lemma_first_pressed(s.keys, 0);
}

/// A cycle that meets `LD Vx, K` with a key down loads the lowest such key
/// into `Vx` and advances `pc` past the instruction.
pub proof fn lemma_wait_key_now(s: ChipView, x: u8)
    requires
        valid(s),
        (s.waiting is None),
        s.pc + 1 < 4096,
        x < 16,
        s.mem[s.pc as int] == 0xF0 + x,
        s.mem[s.pc + 1] == 0x0A,
        exists|k: int| 0 <= k < 16 && #[trigger] s.keys[k],
    ensures
        cycle_spec(s).1 is Ok,
        cycle_spec(s).0.pc == s.pc + 2,
        (cycle_spec(s).0.waiting is None),
        ({
            let k = cycle_spec(s).0.v[x as int] as int;
            0 <= k < 16 && s.keys[k] && forall|j: int| 0 <= j < k ==> !#[trigger] s.keys[j]
        }),
{
    let op = (s.mem[s.pc as int] * 256 + s.mem[s.pc + 1]) as u16;
    assert(op == 0xF00A + x as int * 256);
    assert(op / 4096 == 15 && (op / 256) % 16 == x && op % 256 == 0x0A);
    lemma_first_pressed(s.keys, 0);
}

/// While `Vx` waits and no key is down, a cycle changes nothing.
pub proof fn lemma_wait_key_idle(s: ChipView)
    requires
        valid(s),
        (s.waiting is Some),
        forall|k: int| 0 <= k < 16 ==> !#[trigger] s.keys[k],
    ensures
        cycle_spec(s) == (s, Ok::<(), ChipError>(())),
{
    lemma_first_pressed(s.keys, 0);
}

/// While `Vx` waits, the first cycle with a key down loads the lowest such
/// key into `Vx`, advances `pc` past the instruction and ends the wait.
pub proof fn lemma_wait_key_pressed(s: ChipView, x: u8)
    requires
        valid(s),
        s.waiting == Some(x),
        exists|k: int| 0 <= k < 16 && #[trigger] s.keys[k],
    ensures
        cycle_spec(s).1 is Ok,
        cycle_spec(s).0.pc == s.pc + 2,
        (cycle_spec(s).0.waiting is None),
        ({
            let k = cycle_spec(s).0.v[x as int] as int;
            0 <= k < 16 && s.keys[k] && forall|j: int| 0 <= j < k ==> !#[trigger] s.keys[j]
        }),
{
    lemma_first_pressed(s.keys, 0);
}

/// `RET` after `CALL a` returns to the address after the call, whatever ran
/// in between, as long as it left the stack as the call made it.
pub proof fn lemma_call_ret(s: ChipView, a: u16, u: ChipView)
    requires
        valid(s),
        valid(u),
        s.sp < 15,
        u.sp == step(s, Instruction::Call(a)).0.sp,
        u.stack == step(s, Instruction::Call(a)).0.stack,
    ensures
        step(s, Instruction::Call(a)).1 is Ok,
        step(s, Instruction::Call(a)).0.pc == a,
        step(u, Instruction::Ret).1 is Ok,
        step(u, Instruction::Ret).0.pc == s.pc,
        step(u, Instruction::Ret).0.sp == s.sp,
{
}

/// Storing `V0..=Vx` at `I` and loading the same range from the same `I`
/// gives back the stored values, whatever the registers held in between.
pub proof fn lemma_store_load(s: ChipView, x: u8, w: ChipView)
    requires
        valid(s),
        valid(w),
        x < 16,
        s.i + x + 1 <= 4096,
        w.mem == step(s, Instruction::StoreRegs(x)).0.mem,
        w.i == s.i,
    ensures
        step(s, Instruction::StoreRegs(x)).1 is Ok,
        step(w, Instruction::LoadRegs(x)).1 is Ok,
        forall|j: int|
            0 <= j <= x ==> #[trigger] step(w, Instruction::LoadRegs(x)).0.v[j] == s.v[j],
{
}

} // verus!
