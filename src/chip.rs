use vstd::prelude::*;
use crate::ChipError;
use vstd::arithmetic::div_mod::{lemma_fundamental_div_mod, lemma_fundamental_div_mod_converse};
use crate::instruction::{Instruction, decode, decode_spec};

verus! {

/// Address of the first byte of the loaded program.
pub const PROGRAM_START: u16 = 0x200;

/// Address of the built-in glyph of digit 0; glyph `d` starts `5 * d` later.
pub const FONT_BASE: u16 = 0x22;

/// The abstract machine state.
pub struct ChipView {
    /// 4096 bytes of memory.
    pub mem: Seq<u8>,
    /// The general registers; `v[15]` doubles as the flag register.
    pub v: Seq<u8>,
    /// The index register.
    pub i: u16,
    /// The delay timer.
    pub dt: u8,
    /// The sound timer.
    pub st: u8,
    /// The program counter.
    pub pc: u16,
    /// The stack pointer: `stack[sp]` holds the latest return address.
    pub sp: u8,
    pub stack: Seq<u16>,
    /// The 16 keys, `true` while held down.
    pub keys: Seq<bool>,
    /// 64 x 32 cells, cell `row * 64 + col`.
    pub display: Seq<bool>,
    /// The state of the random generator.
    pub seed: u32,
    /// The register that a pending wait-for-key instruction will fill.
    pub waiting: Option<u8>,
}

/// The built-in hexadecimal glyphs, five rows of one byte per digit.
pub open spec fn font() -> Seq<u8> {
    seq![
        0xF0u8, 0x90, 0x90, 0x90, 0xF0, 0x20, 0x60, 0x20, 0x20, 0x70,
        0xF0, 0x10, 0xF0, 0x80, 0xF0, 0xF0, 0x10, 0xF0, 0x10, 0xF0,
        0x90, 0x90, 0xF0, 0x10, 0x10, 0xF0, 0x80, 0xF0, 0x10, 0xF0,
        0xF0, 0x80, 0xF0, 0x90, 0xF0, 0xF0, 0x10, 0x20, 0x40, 0x40,
        0xF0, 0x90, 0xF0, 0x90, 0xF0, 0xF0, 0x90, 0xF0, 0x10, 0xF0,
        0xF0, 0x90, 0xF0, 0x90, 0x90, 0xE0, 0x90, 0xE0, 0x90, 0xE0,
        0xF0, 0x80, 0x80, 0x80, 0xF0, 0xE0, 0x90, 0x90, 0x90, 0xE0,
        0xF0, 0x80, 0xF0, 0x80, 0xF0, 0xF0, 0x80, 0xF0, 0x80, 0x80
    ]
}

/// The generator's next state.
pub open spec fn next_seed(s: u32) -> u32 {
    ((s * 1664525 + 1013904223) % 0x1_0000_0000) as u32
}

/// The byte that a generator state yields: its top eight bits.
pub open spec fn seed_byte(s: u32) -> u8 {
    (s / 0x100_0000) as u8
}

/// The lowest pressed key at or after `k`, or 16 when there is none.
pub open spec fn first_pressed(keys: Seq<bool>, k: int) -> int
    decreases 16 - k,
{
    if k >= 16 {
        16
    } else if keys[k] {
        k
    } else {
        first_pressed(keys, k + 1)
    }
}

/// Bit `p` of a sprite row, counting from the most significant bit.
pub open spec fn row_bit(b: u8, p: int) -> bool {
    (b >> ((7 - p) as u8)) & 1u8 == 1u8
}

/// The sprite row and column that land on screen cell `c = row * 64 + col`
/// for a sprite drawn at `(vx, vy)`.
pub open spec fn sprite_pos(vx: u8, vy: u8, c: int) -> (int, int) {
    ((c / 64 - vy) % 32, (c % 64 - vx) % 64)
}

/// Whether the sprite of `n` rows at `i`, drawn at `(vx, vy)`, holds a set
/// bit over screen cell `c = row * 64 + col`.
pub open spec fn covers(mem: Seq<u8>, i: u16, vx: u8, vy: u8, n: u8, c: int) -> bool {
    let (h, p) = sprite_pos(vx, vy, c);
    h < n && p < 8 && row_bit(mem[i + h], p)
}

/// Whether the draw loop has reached cell `c` once it stands at sprite row
/// `h`, column `p`.
pub open spec fn done(vx: u8, vy: u8, h: int, p: int, c: int) -> bool {
    let (hh, pp) = sprite_pos(vx, vy, c);
    hh < h || (hh == h && pp < p)
}

/// The cell that sprite row `h`, column `p` lands on is the one cell whose
/// sprite coordinates are `(h, p)`.
pub proof fn lemma_cell(vx: u8, vy: u8, h: int, p: int, c: int)
    requires
        0 <= h < 16,
        0 <= p < 8,
        c == ((vy + h) % 32) * 64 + (vx + p) % 64,
    ensures
        0 <= c < 2048,
        c / 64 == (vy + h) % 32,
        c % 64 == (vx + p) % 64,
        sprite_pos(vx, vy, c) == (h, p),
        forall|d: int| 0 <= d < 2048 && #[trigger] sprite_pos(vx, vy, d) == (h, p) ==> d == c,
{
    let r = (vy + h) % 32;
    let q = (vx + p) % 64;
    lemma_split(c, r, q);
    lemma_wrap(vy as int, h, r, 32);
    lemma_wrap(vx as int, p, q, 64);
    assert forall|d: int| 0 <= d < 2048 && #[trigger] sprite_pos(vx, vy, d) == (h, p) implies d
        == c by {
        let rd = d / 64;
        let qd = d % 64;
        lemma_split(d, rd, qd);
        lemma_unwrap(vy as int, h, rd, r, 32);
        lemma_unwrap(vx as int, p, qd, q, 64);
    }
}

proof fn lemma_split(c: int, r: int, q: int)
    requires
        (0 <= q < 64 && 0 <= r < 32 && c == r * 64 + q) || (0 <= c < 2048 && r == c / 64 && q
            == c % 64),
    ensures
        0 <= q < 64,
        0 <= r < 32,
        c == r * 64 + q,
        0 <= c < 2048,
        r == c / 64,
        q == c % 64,
{
    if 0 <= q < 64 && 0 <= r < 32 && c == r * 64 + q {
        assert(c / 64 == r && c % 64 == q) by (nonlinear_arith)
            requires
                0 <= q < 64,
                c == r * 64 + q,
        ;
    } else {
        assert(c == (c / 64) * 64 + c % 64 && 0 <= c % 64 < 64) by (nonlinear_arith)
            requires
                0 <= c,
        ;
        assert(c / 64 < 32) by (nonlinear_arith)
            requires
                0 <= c < 2048,
        ;
    }
}

proof fn lemma_wrap(base: int, off: int, w: int, m: int)
    requires
        0 <= base,
        0 <= off < m,
        m > 0,
        w == (base + off) % m,
    ensures
        (w - base) % m == off,
{
    let k = (base + off) / m;
    lemma_fundamental_div_mod(base + off, m);
    assert(w - base == (-k) * m + off) by (nonlinear_arith)
        requires
            base + off == m * k + w,
    ;
    lemma_fundamental_div_mod_converse(w - base, m, -k, off);
}

proof fn lemma_unwrap(base: int, off: int, w: int, w0: int, m: int)
    requires
        0 <= base,
        0 <= off < m,
        m > 0,
        0 <= w < m,
        (w - base) % m == off,
        w0 == (base + off) % m,
    ensures
        w == w0,
{
    let k = (w - base) / m;
    lemma_fundamental_div_mod(w - base, m);
    assert(base + off == (-k) * m + w) by (nonlinear_arith)
        requires
            w - base == m * k + off,
    ;
    lemma_fundamental_div_mod_converse(base + off, m, -k, w);
}

/// The display after drawing: each covered cell is toggled.
pub open spec fn drawn(s: ChipView, vx: u8, vy: u8, n: u8) -> Seq<bool> {
    Seq::new(2048, |c: int| s.display[c] != covers(s.mem, s.i, vx, vy, n, c))
}

/// Whether drawing turns off a cell that was on.
pub open spec fn collides(s: ChipView, vx: u8, vy: u8, n: u8) -> bool {
    exists|c: int| 0 <= c < 2048 && s.display[c] && #[trigger] covers(s.mem, s.i, vx, vy, n, c)
}

/// The flag register's value for a condition.
pub open spec fn flag(b: bool) -> u8 {
    if b { 1 } else { 0 }
}

/// A successful step to `s`.
pub open spec fn ok(s: ChipView) -> (ChipView, Result<(), ChipError>) {
    (s, Ok(()))
}

/// Skips the next instruction when `c` holds.
pub open spec fn skip_if(s: ChipView, c: bool) -> (ChipView, Result<(), ChipError>) {
    if c {
        ok(ChipView { pc: (s.pc + 2) as u16, ..s })
    } else {
        ok(s)
    }
}

/// Writes `val` to `Vx`.
pub open spec fn set_reg(s: ChipView, x: u8, val: int) -> (ChipView, Result<(), ChipError>) {
    ok(ChipView { v: s.v.update(x as int, val as u8), ..s })
}

/// Sets the flag register first, then `Vx`, so that `Vx` wins when `x` is 15.
pub open spec fn set_reg_flag(s: ChipView, x: u8, val: int, f: bool) -> (
    ChipView,
    Result<(), ChipError>,
) {
    ok(ChipView { v: s.v.update(15, flag(f)).update(x as int, val as u8), ..s })
}

/// The effect of one instruction on a state whose program counter already
/// points past it. A fault leaves the state as it was.
pub open spec fn step(s: ChipView, ins: Instruction) -> (ChipView, Result<(), ChipError>) {
    let fault = (s, Err(ChipError::OutOfBounds));
    match ins {
        Instruction::Cls => ok(ChipView { display: Seq::new(2048, |c: int| false), ..s }),
        Instruction::Ret => if s.sp == 0 || s.sp >= 16 {
            fault
        } else {
            ok(ChipView { pc: s.stack[s.sp as int], sp: (s.sp - 1) as u8, ..s })
        },
        Instruction::Jp(a) => ok(ChipView { pc: a, ..s }),
        Instruction::Call(a) => if s.sp >= 15 {
            fault
        } else {
            ok(
                ChipView {
                    sp: (s.sp + 1) as u8,
                    stack: s.stack.update(s.sp + 1, s.pc),
                    pc: a,
                    ..s
                },
            )
        },
        Instruction::SeByte(x, kk) => skip_if(s, s.v[x as int] == kk),
        Instruction::SneByte(x, kk) => skip_if(s, s.v[x as int] != kk),
        Instruction::SeReg(x, y) => skip_if(s, s.v[x as int] == s.v[y as int]),
        Instruction::SneReg(x, y) => skip_if(s, s.v[x as int] != s.v[y as int]),
        Instruction::LdByte(x, kk) => set_reg(s, x, kk as int),
        Instruction::AddByte(x, kk) => set_reg(s, x, (s.v[x as int] + kk) % 256),
        Instruction::LdReg(x, y) => set_reg(s, x, s.v[y as int] as int),
        Instruction::Or(x, y) => set_reg(s, x, (s.v[x as int] | s.v[y as int]) as int),
        Instruction::And(x, y) => set_reg(s, x, (s.v[x as int] & s.v[y as int]) as int),
        Instruction::Xor(x, y) => set_reg(s, x, (s.v[x as int] ^ s.v[y as int]) as int),
        Instruction::AddReg(x, y) => {
            let sum = s.v[x as int] + s.v[y as int];
            set_reg_flag(s, x, sum % 256, sum > 255)
        },
        Instruction::Sub(x, y) => set_reg_flag(
            s,
            x,
            (s.v[x as int] - s.v[y as int]) % 256,
            s.v[x as int] > s.v[y as int],
        ),
        Instruction::Subn(x, y) => set_reg_flag(
            s,
            x,
            (s.v[y as int] - s.v[x as int]) % 256,
            s.v[y as int] > s.v[x as int],
        ),
        Instruction::Shr(x) => set_reg_flag(s, x, (s.v[x as int] / 2) as int, s.v[x as int] % 2 == 1),
        Instruction::Shl(x) => set_reg_flag(
            s,
            x,
            (s.v[x as int] * 2) % 256,
            s.v[x as int] >= 128,
        ),
        Instruction::LdI(a) => ok(ChipView { i: a, ..s }),
        Instruction::JpV0(a) => ok(ChipView { pc: (s.v[0] + a) as u16, ..s }),
        Instruction::Rnd(x, kk) => {
            let seed = next_seed(s.seed);
            ok(ChipView { seed, v: s.v.update(x as int, seed_byte(seed) & kk), ..s })
        },
        Instruction::Drw(x, y, n) => if s.i + n > 4096 {
            fault
        } else {
            let vx = s.v[x as int];
            let vy = s.v[y as int];
            ok(
                ChipView {
                    display: drawn(s, vx, vy, n),
                    v: s.v.update(15, flag(collides(s, vx, vy, n))),
                    ..s
                },
            )
        },
        Instruction::Skp(x) => if s.v[x as int] >= 16 {
            fault
        } else {
            skip_if(s, s.keys[s.v[x as int] as int])
        },
        Instruction::Sknp(x) => if s.v[x as int] >= 16 {
            fault
        } else {
            skip_if(s, !s.keys[s.v[x as int] as int])
        },
        Instruction::LdVxDt(x) => set_reg(s, x, s.dt as int),
        Instruction::LdKey(x) => {
            let k = first_pressed(s.keys, 0);
            if k < 16 {
                set_reg(s, x, k)
            } else {
                ok(ChipView { pc: (s.pc - 2) as u16, waiting: Some(x), ..s })
            }
        },
        Instruction::LdDtVx(x) => ok(ChipView { dt: s.v[x as int], ..s }),
        Instruction::LdStVx(x) => ok(ChipView { st: s.v[x as int], ..s }),
        Instruction::AddI(x) => ok(ChipView { i: ((s.i + s.v[x as int]) % 0x10000) as u16, ..s }),
        // a register above 15 selects the glyph of its low nibble
        Instruction::LdFont(x) => ok(
            ChipView { i: (FONT_BASE + (s.v[x as int] % 16) * 5) as u16, ..s },
        ),
        Instruction::LdBcd(x) => if s.i + 3 > 4096 {
            fault
        } else {
            let b = s.v[x as int];
            ok(
                ChipView {
                    mem: s.mem.update(s.i as int, (b / 100) as u8).update(
                        s.i + 1,
                        ((b / 10) % 10) as u8,
                    ).update(s.i + 2, (b % 10) as u8),
                    ..s
                },
            )
        },
        Instruction::StoreRegs(x) => if s.i + x + 1 > 4096 {
            fault
        } else {
            ok(
                ChipView {
                    mem: Seq::new(
                        4096,
                        |a: int|
                            if s.i <= a <= s.i + x {
                                s.v[a - s.i]
                            } else {
                                s.mem[a]
                            },
                    ),
                    ..s
                },
            )
        },
        Instruction::LoadRegs(x) => if s.i + x + 1 > 4096 {
            fault
        } else {
            ok(
                ChipView {
                    v: Seq::new(16, |j: int| if j <= x { s.mem[s.i + j] } else { s.v[j] }),
                    ..s
                },
            )
        },
    }
}

/// One cycle. A pending wait-for-key is resolved first, without a fetch;
/// otherwise the word at `pc` is fetched, `pc` advances by two, and the
/// decoded instruction runs. A word that matches no instruction leaves the
/// advanced state and reports `UnsupportedOpcode`; a fetch beyond memory or
/// a faulting instruction reports `OutOfBounds` and changes nothing, so that
/// `pc` still points at the instruction that faulted.
pub open spec fn cycle_spec(s: ChipView) -> (ChipView, Result<(), ChipError>) {
    match s.waiting {
        Some(x) => {
            let k = first_pressed(s.keys, 0);
            if k < 16 {
                ok(ChipView { v: s.v.update(x as int, k as u8), pc: (s.pc + 2) as u16, waiting: None, ..s })
            } else {
                ok(s)
            }
        },
        None => if s.pc + 1 >= 4096 {
            (s, Err(ChipError::OutOfBounds))
        } else {
            let op = (s.mem[s.pc as int] * 256 + s.mem[s.pc + 1]) as u16;
            let t = ChipView { pc: (s.pc + 2) as u16, ..s };
            match decode_spec(op) {
                Some(ins) => if step(t, ins).1 is Err {
                    (s, step(t, ins).1)
                } else {
                    step(t, ins)
                },
                None => (t, Err(ChipError::UnsupportedOpcode)),
            }
        },
    }
}

/// The state of a fresh machine whose generator starts from `seed`: memory
/// zeroed but for the glyphs at `FONT_BASE`, registers, timers, stack, keys
/// and display cleared, `pc` at the program start.
pub open spec fn fresh(seed: u32) -> ChipView {
    ChipView {
        mem: Seq::new(
            4096,
            |a: int|
                if FONT_BASE <= a < FONT_BASE + 80 {
                    font()[a - FONT_BASE]
                } else {
                    0u8
                },
        ),
        v: Seq::new(16, |j: int| 0u8),
        i: 0,
        dt: 0,
        st: 0,
        pc: PROGRAM_START,
        sp: 0,
        stack: Seq::new(16, |j: int| 0u16),
        keys: Seq::new(16, |j: int| false),
        display: Seq::new(2048, |c: int| false),
        seed,
        waiting: None,
    }
}

/// Validity of a state: the sizes of its parts, a waiting register in range,
/// and a program counter that a retracted fetch keeps in range.
pub open spec fn valid(s: ChipView) -> bool {
    &&& s.mem.len() == 4096
    &&& s.v.len() == 16
    &&& s.stack.len() == 16
    &&& s.keys.len() == 16
    &&& s.display.len() == 2048
    &&& (s.waiting matches Some(x) ==> x < 16 && s.pc <= 4094)
}

} // verus!

verus! {

/// The machine: memory, registers, call stack, timers, display, keyboard
/// and random generator.
pub struct Chip {
    mem: [u8; 4096],
    v: [u8; 16],
    i: u16,
    dt: u8,
    st: u8,
    pc: u16,
    sp: u8,
    stack: [u16; 16],
    keyboard: [bool; 16],
    display: [bool; 2048],
    rand_seed: u32,
    waiting: Option<u8>,
}

impl View for Chip {
    type V = ChipView;

    closed spec fn view(&self) -> ChipView {
        ChipView {
            mem: self.mem@,
            v: self.v@,
            i: self.i,
            dt: self.dt,
            st: self.st,
            pc: self.pc,
            sp: self.sp,
            stack: self.stack@,
            keys: self.keyboard@,
            display: self.display@,
            seed: self.rand_seed,
            waiting: self.waiting,
        }
    }
}

/// Relies on the system clock: milliseconds since the Unix epoch, truncated
/// to 32 bits; 0 when the clock stands before the epoch.
#[verifier::external_body]
fn clock_millis() -> (r: u32) {
    match std::time::SystemTime::now().duration_since(std::time::UNIX_EPOCH) {
        Ok(d) => d.as_millis() as u32,
        Err(_) => 0,
    }
}

impl Chip {
    /// A fresh machine whose generator starts from `seed`.
    pub fn with_seed(seed: u32) -> (r: Chip)
        ensures
            r@ == fresh(seed),
    {
        let glyphs: [u8; 80] = [
            0xF0, 0x90, 0x90, 0x90, 0xF0, 0x20, 0x60, 0x20, 0x20, 0x70,
            0xF0, 0x10, 0xF0, 0x80, 0xF0, 0xF0, 0x10, 0xF0, 0x10, 0xF0,
            0x90, 0x90, 0xF0, 0x10, 0x10, 0xF0, 0x80, 0xF0, 0x10, 0xF0,
            0xF0, 0x80, 0xF0, 0x90, 0xF0, 0xF0, 0x10, 0x20, 0x40, 0x40,
            0xF0, 0x90, 0xF0, 0x90, 0xF0, 0xF0, 0x90, 0xF0, 0x10, 0xF0,
            0xF0, 0x90, 0xF0, 0x90, 0x90, 0xE0, 0x90, 0xE0, 0x90, 0xE0,
            0xF0, 0x80, 0x80, 0x80, 0xF0, 0xE0, 0x90, 0x90, 0x90, 0xE0,
            0xF0, 0x80, 0xF0, 0x80, 0xF0, 0xF0, 0x80, 0xF0, 0x80, 0x80,
        ];
        assert(glyphs@ =~= font());
        let mut chip = Chip {
            mem: [0; 4096],
            v: [0; 16],
            i: 0,
            dt: 0,
            st: 0,
            pc: PROGRAM_START,
            sp: 0,
            stack: [0; 16],
            keyboard: [false; 16],
            display: [false; 2048],
            rand_seed: seed,
            waiting: None,
        };
        let mut k: usize = 0;
        while k < 80
            invariant
                k <= 80,
                glyphs@ == font(),
                chip@.mem.len() == 4096,
                forall|a: int|
                    0 <= a < 4096 ==> #[trigger] chip@.mem[a] == if FONT_BASE <= a < FONT_BASE
                        + k {
                        font()[a - FONT_BASE]
                    } else {
                        0u8
                    },
                chip@.v == Seq::new(16, |j: int| 0u8),
                chip@.i == 0 && chip@.dt == 0 && chip@.st == 0 && chip@.sp == 0,
                chip@.pc == PROGRAM_START,
                chip@.stack == Seq::new(16, |j: int| 0u16),
                chip@.keys == Seq::new(16, |j: int| false),
                chip@.display == Seq::new(2048, |c: int| false),
                chip@.seed == seed,
                (chip@.waiting is None),
            decreases 80 - k,
        {
            chip.mem[FONT_BASE as usize + k] = glyphs[k];
            k += 1;
        }
        assert(chip@.mem =~= fresh(seed).mem);
        chip
    }

    /// A fresh machine as `with_seed` gives it, its generator seeded from
    /// the system clock.
    pub fn init() -> (r: Chip)
        ensures
            r@ == fresh(r@.seed),
    {
        Chip::with_seed(clock_millis())
    }

    /// Reads the big-endian word at `pc` and advances `pc` by two; a word
    /// that reaches past memory is `OutOfBounds` and changes nothing.
    pub fn fetch(&mut self) -> (r: Result<u16, ChipError>)
        ensures
            old(self)@.pc + 1 < 4096 ==> r == Ok::<u16, ChipError>(
                (old(self)@.mem[old(self)@.pc as int] * 256 + old(self)@.mem[old(self)@.pc + 1]) as u16,
            ) && final(self)@ == (ChipView { pc: (old(self)@.pc + 2) as u16, ..old(self)@ }),
            old(self)@.pc + 1 >= 4096 ==> r == Err::<u16, ChipError>(ChipError::OutOfBounds)
                && final(self)@ == old(self)@,
    {
        if self.pc >= 4095 {
            return Err(ChipError::OutOfBounds);
        }
        let hi = self.mem[self.pc as usize] as u16;
        let lo = self.mem[self.pc as usize + 1] as u16;
        self.pc = self.pc + 2;
        Ok(hi * 256 + lo)
    }

    /// Advances the generator and returns the top byte of its new state.
    pub fn random_byte(&mut self) -> (r: u8)
        ensures
            final(self)@ == (ChipView { seed: next_seed(old(self)@.seed), ..old(self)@ }),
            r == seed_byte(next_seed(old(self)@.seed)),
    {
        let next: u64 = (self.rand_seed as u64 * 1664525 + 1013904223) % 0x1_0000_0000;
        self.rand_seed = next as u32;
        (self.rand_seed / 0x100_0000) as u8
    }

    /// Copies `program` to memory from `PROGRAM_START` on; a program longer
    /// than the program region is `ProgramTooLarge` and changes nothing.
    pub fn load_program(&mut self, program: &[u8]) -> (r: Result<(), ChipError>)
        ensures
            program@.len() > 4096 - PROGRAM_START ==> r == Err::<(), ChipError>(
                ChipError::ProgramTooLarge,
            ) && final(self)@ == old(self)@,
            program@.len() <= 4096 - PROGRAM_START ==> r is Ok && final(self)@ == (ChipView {
                mem: Seq::new(
                    4096,
                    |a: int|
                        if PROGRAM_START <= a < PROGRAM_START + program@.len() {
                            program@[a - PROGRAM_START]
                        } else {
                            old(self)@.mem[a]
                        },
                ),
                ..old(self)@
            }),
    {
        if program.len() > 4096 - PROGRAM_START as usize {
            return Err(ChipError::ProgramTooLarge);
        }
        let ghost start = self@;
        let mut k: usize = 0;
        while k < program.len()
            invariant
                k <= program@.len() <= 4096 - PROGRAM_START,
                self@ == (ChipView { mem: self@.mem, ..start }),
                self@.mem.len() == 4096,
                forall|a: int|
                    0 <= a < 4096 ==> #[trigger] self@.mem[a] == if PROGRAM_START <= a
                        < PROGRAM_START + k {
                        program@[a - PROGRAM_START]
                    } else {
                        start.mem[a]
                    },
            decreases program@.len() - k,
        {
            self.mem[PROGRAM_START as usize + k] = program[k];
            k += 1;
        }
        assert(self@.mem =~= Seq::new(
            4096,
            |a: int|
                if PROGRAM_START <= a < PROGRAM_START + program@.len() {
                    program@[a - PROGRAM_START]
                } else {
                    start.mem[a]
                },
        ));
        Ok(())
    }

    /// Counts both timers down by one, stopping at zero.
    pub fn tick_timers(&mut self)
        ensures
            final(self)@ == (ChipView {
                dt: if old(self)@.dt > 0 { (old(self)@.dt - 1) as u8 } else { 0 },
                st: if old(self)@.st > 0 { (old(self)@.st - 1) as u8 } else { 0 },
                ..old(self)@
            }),
    {
        if self.dt > 0 {
            self.dt = self.dt - 1;
        }
        if self.st > 0 {
            self.st = self.st - 1;
        }
    }

    /// Replaces the keyboard state: `keys[k]` tells whether key `k` is down.
    pub fn set_keys(&mut self, keys: [bool; 16])
        ensures
            final(self)@ == (ChipView { keys: keys@, ..old(self)@ }),
    {
        self.keyboard = keys;
    }

    /// The display, row by row: cell `row * 64 + col`.
    pub fn display(&self) -> (r: [bool; 2048])
        ensures
            r@ == self@.display,
    {
        self.display
    }

    /// Whether the pixel at `row`, `col` is on.
    pub fn pixel(&self, row: usize, col: usize) -> (r: bool)
        requires
            row < 32,
            col < 64,
        ensures
            r == self@.display[row * 64 + col],
    {
        self.display[row * 64 + col]
    }

    /// The general registers `V0` to `V15`.
    pub fn registers(&self) -> (r: [u8; 16])
        ensures
            r@ == self@.v,
    {
        self.v
    }

    /// The index register.
    pub fn index(&self) -> (r: u16)
        ensures
            r == self@.i,
    {
        self.i
    }

    /// The program counter.
    pub fn pc(&self) -> (r: u16)
        ensures
            r == self@.pc,
    {
        self.pc
    }

    /// The stack pointer.
    pub fn stack_pointer(&self) -> (r: u8)
        ensures
            r == self@.sp,
    {
        self.sp
    }

    /// The delay timer.
    pub fn delay_timer(&self) -> (r: u8)
        ensures
            r == self@.dt,
    {
        self.dt
    }

    /// The sound timer.
    pub fn sound_timer(&self) -> (r: u8)
        ensures
            r == self@.st,
    {
        self.st
    }

    /// The memory byte at `addr`.
    pub fn mem_byte(&self, addr: u16) -> (r: u8)
        requires
            addr < 4096,
        ensures
            r == self@.mem[addr as int],
    {
        self.mem[addr as usize]
    }

    /// Whether a wait-for-key instruction is pending.
    pub fn is_waiting_for_key(&self) -> (r: bool)
        ensures
            r == self@.waiting is Some,
    {
        self.waiting.is_some()
    }

    /// The lowest pressed key, or 16 when none is pressed.
    fn first_key(&self) -> (r: usize)
        ensures
            r == first_pressed(self@.keys, 0),
    {
        let mut k: usize = 0;
        while k < 16 && !self.keyboard[k]
            invariant
                k <= 16,
                first_pressed(self@.keys, 0) == first_pressed(self@.keys, k as int),
            decreases 16 - k,
        {
            k += 1;
        }
        k
    }

    /// Draws the `n`-row sprite at `i` with its top left corner at
    /// `(vx, vy)`, wrapping at the screen's edges, and tells whether a lit
    /// cell was turned off.
    fn draw(&mut self, vx: u8, vy: u8, n: u8) -> (collided: bool)
        requires
            old(self)@.i + n <= 4096,
            n < 16,
        ensures
            final(self)@ == (ChipView { display: drawn(old(self)@, vx, vy, n), ..old(self)@ }),
            collided == collides(old(self)@, vx, vy, n),
    {
        let ghost s = self@;
        let mut collided = false;
        let mut h: u8 = 0;
        while h < n
            invariant
                h <= n < 16,
                s.i + n <= 4096,
                self@ == (ChipView { display: self@.display, ..s }),
                self@.display.len() == 2048,
                forall|c: int|
                    0 <= c < 2048 ==> #[trigger] self@.display[c] == (s.display[c] != (covers(
                        s.mem,
                        s.i,
                        vx,
                        vy,
                        n,
                        c,
                    ) && done(vx, vy, h as int, 0, c))),
                collided == exists|c: int|
                    0 <= c < 2048 && s.display[c] && #[trigger] covers(s.mem, s.i, vx, vy, n, c)
                        && done(vx, vy, h as int, 0, c),
            decreases n - h,
        {
            let line = self.mem[self.i as usize + h as usize];
            let mut p: u8 = 0;
            while p < 8
                invariant
                    h < n < 16,
                    p <= 8,
                    s.i + n <= 4096,
                    line == s.mem[s.i + h],
                    self@ == (ChipView { display: self@.display, ..s }),
                    self@.display.len() == 2048,
                    forall|c: int|
                        0 <= c < 2048 ==> #[trigger] self@.display[c] == (s.display[c] != (covers(
                            s.mem,
                            s.i,
                            vx,
                            vy,
                            n,
                            c,
                        ) && done(vx, vy, h as int, p as int, c))),
                    collided == exists|c: int|
                        0 <= c < 2048 && s.display[c] && #[trigger] covers(
                            s.mem,
                            s.i,
                            vx,
                            vy,
                            n,
                            c,
                        ) && done(vx, vy, h as int, p as int, c),
                decreases 8 - p,
            {
                let row: usize = (vy as usize + h as usize) % 32;
                let col: usize = (vx as usize + p as usize) % 64;
                let c: usize = row * 64 + col;
                proof {
                    lemma_cell(vx, vy, h as int, p as int, c as int);
                }
                let bit = (line >> (7 - p)) & 1 == 1;
                assert(bit == covers(s.mem, s.i, vx, vy, n, c as int));
                let ghost before = collided;
                if bit && self.display[c] {
                    collided = true;
                }
                if bit {
                    self.display[c] = !self.display[c];
                }
                proof {
                    if collided && !before {
                        assert(0 <= c < 2048 && s.display[c as int] && covers(s.mem, s.i, vx, vy, n, c as int)
                            && done(vx, vy, h as int, p + 1, c as int));
                    }
                }
                p += 1;
            }
            proof {
                assert forall|c: int| 0 <= c < 2048 && covers(s.mem, s.i, vx, vy, n, c) implies (
                done(vx, vy, h as int, 8, c) == done(vx, vy, h + 1, 0, c)) by {}
            }
            h += 1;
        }
        proof {
            assert forall|c: int| 0 <= c < 2048 && covers(s.mem, s.i, vx, vy, n, c) implies done(
                vx,
                vy,
                n as int,
                0,
                c,
            ) by {}
        }
        assert(self@.display =~= drawn(s, vx, vy, n));
        collided
    }

    /// Clears the screen, or moves `pc`: jumps, calls, returns and skips.
    fn execute_flow(&mut self, ins: Instruction) -> (r: Result<(), ChipError>)
        requires
            valid(old(self)@),
            ins.wf(),
            (old(self)@.waiting is None),
            2 <= old(self)@.pc <= 4096,
            (matches!(
                ins,
                Instruction::Cls
                | Instruction::Ret
                | Instruction::Jp(..)
                | Instruction::Call(..)
                | Instruction::SeByte(..)
                | Instruction::SneByte(..)
                | Instruction::SeReg(..)
                | Instruction::SneReg(..)
                | Instruction::JpV0(..)
                | Instruction::Skp(..)
                | Instruction::Sknp(..)
            )),
        ensures
            (final(self)@, r) == step(old(self)@, ins),
            valid(final(self)@),
    {
        match ins {
            Instruction::Cls => {
                self.display = [false; 2048];
                assert(self@.display =~= Seq::new(2048, |c: int| false));
            },
            Instruction::Ret => {
                if self.sp == 0 || self.sp >= 16 {
                    return Err(ChipError::OutOfBounds);
                }
                self.pc = self.stack[self.sp as usize];
                self.sp = self.sp - 1;
            },
            Instruction::Jp(a) => {
                self.pc = a;
            },
            Instruction::Call(a) => {
                if self.sp >= 15 {
                    return Err(ChipError::OutOfBounds);
                }
                self.sp = self.sp + 1;
                self.stack[self.sp as usize] = self.pc;
                self.pc = a;
            },
            Instruction::SeByte(x, kk) => {
                if self.v[x as usize] == kk {
                    self.pc = self.pc + 2;
                }
            },
            Instruction::SneByte(x, kk) => {
                if self.v[x as usize] != kk {
                    self.pc = self.pc + 2;
                }
            },
            Instruction::SeReg(x, y) => {
                if self.v[x as usize] == self.v[y as usize] {
                    self.pc = self.pc + 2;
                }
            },
            Instruction::SneReg(x, y) => {
                if self.v[x as usize] != self.v[y as usize] {
                    self.pc = self.pc + 2;
                }
            },
            Instruction::JpV0(a) => {
                self.pc = self.v[0] as u16 + a;
            },
            Instruction::Skp(x) => {
                let k = self.v[x as usize];
                if k >= 16 {
                    return Err(ChipError::OutOfBounds);
                }
                if self.keyboard[k as usize] {
                    self.pc = self.pc + 2;
                }
            },
            Instruction::Sknp(x) => {
                let k = self.v[x as usize];
                if k >= 16 {
                    return Err(ChipError::OutOfBounds);
                }
                if !self.keyboard[k as usize] {
                    self.pc = self.pc + 2;
                }
            },
            _ => {},
        }
        Ok(())
    }

    /// Register, timer and index operations.
    fn execute_regs(&mut self, ins: Instruction) -> (r: Result<(), ChipError>)
        requires
            valid(old(self)@),
            ins.wf(),
            (old(self)@.waiting is None),
            2 <= old(self)@.pc <= 4096,
            (matches!(
                ins,
                Instruction::LdByte(..)
                | Instruction::AddByte(..)
                | Instruction::LdReg(..)
                | Instruction::Or(..)
                | Instruction::And(..)
                | Instruction::Xor(..)
                | Instruction::AddReg(..)
                | Instruction::Sub(..)
                | Instruction::Subn(..)
                | Instruction::Shr(..)
                | Instruction::Shl(..)
                | Instruction::LdI(..)
                | Instruction::Rnd(..)
                | Instruction::LdVxDt(..)
                | Instruction::LdDtVx(..)
                | Instruction::LdStVx(..)
                | Instruction::AddI(..)
                | Instruction::LdFont(..)
            )),
        ensures
            (final(self)@, r) == step(old(self)@, ins),
            valid(final(self)@),
    {
        match ins {
            Instruction::LdByte(x, kk) => {
                self.v[x as usize] = kk;
            },
            Instruction::AddByte(x, kk) => {
                self.v[x as usize] = ((self.v[x as usize] as u16 + kk as u16) % 256) as u8;
            },
            Instruction::LdReg(x, y) => {
                self.v[x as usize] = self.v[y as usize];
            },
            Instruction::Or(x, y) => {
                self.v[x as usize] = self.v[x as usize] | self.v[y as usize];
            },
            Instruction::And(x, y) => {
                self.v[x as usize] = self.v[x as usize] & self.v[y as usize];
            },
            Instruction::Xor(x, y) => {
                self.v[x as usize] = self.v[x as usize] ^ self.v[y as usize];
            },
            Instruction::AddReg(x, y) => {
                let sum: u16 = self.v[x as usize] as u16 + self.v[y as usize] as u16;
                self.v[15] = if sum > 255 { 1 } else { 0 };
                self.v[x as usize] = (sum % 256) as u8;
            },
            Instruction::Sub(x, y) => {
                let a = self.v[x as usize];
                let b = self.v[y as usize];
                self.v[15] = if a > b { 1 } else { 0 };
                self.v[x as usize] = ((a as u16 + 256 - b as u16) % 256) as u8;
            },
            Instruction::Subn(x, y) => {
                let a = self.v[x as usize];
                let b = self.v[y as usize];
                self.v[15] = if b > a { 1 } else { 0 };
                self.v[x as usize] = ((b as u16 + 256 - a as u16) % 256) as u8;
            },
            Instruction::Shr(x) => {
                let a = self.v[x as usize];
                self.v[15] = a % 2;
                self.v[x as usize] = a / 2;
            },
            Instruction::Shl(x) => {
                let a = self.v[x as usize];
                self.v[15] = if a >= 128 { 1 } else { 0 };
                self.v[x as usize] = ((a as u16 * 2) % 256) as u8;
            },
            Instruction::LdI(a) => {
                self.i = a;
            },
            Instruction::Rnd(x, kk) => {
                let b = self.random_byte();
                self.v[x as usize] = b & kk;
            },
            Instruction::LdVxDt(x) => {
                self.v[x as usize] = self.dt;
            },
            Instruction::LdDtVx(x) => {
                self.dt = self.v[x as usize];
            },
            Instruction::LdStVx(x) => {
                self.st = self.v[x as usize];
            },
            Instruction::AddI(x) => {
                self.i = ((self.i as u32 + self.v[x as usize] as u32) % 0x10000) as u16;
            },
            Instruction::LdFont(x) => {
                self.i = FONT_BASE + (self.v[x as usize] % 16) as u16 * 5;
            },
            _ => {},
        }
        Ok(())
    }

    /// Operations on memory, the display and the keyboard.
    fn execute_mem(&mut self, ins: Instruction) -> (r: Result<(), ChipError>)
        requires
            valid(old(self)@),
            ins.wf(),
            (old(self)@.waiting is None),
            2 <= old(self)@.pc <= 4096,
            (matches!(
                ins,
                Instruction::Drw(..)
                | Instruction::LdKey(..)
                | Instruction::LdBcd(..)
                | Instruction::StoreRegs(..)
                | Instruction::LoadRegs(..)
            )),
        ensures
            (final(self)@, r) == step(old(self)@, ins),
            valid(final(self)@),
    {
        let ghost s = self@;
        match ins {
            Instruction::Drw(x, y, n) => {
                if self.i as usize + n as usize > 4096 {
                    return Err(ChipError::OutOfBounds);
                }
                let vx = self.v[x as usize];
                let vy = self.v[y as usize];
                let collided = self.draw(vx, vy, n);
                self.v[15] = if collided { 1 } else { 0 };
            },
            Instruction::LdKey(x) => {
                let k = self.first_key();
                if k < 16 {
                    self.v[x as usize] = k as u8;
                } else {
                    self.pc = self.pc - 2;
                    self.waiting = Some(x);
                }
            },
            Instruction::LdBcd(x) => {
                if self.i as usize + 3 > 4096 {
                    return Err(ChipError::OutOfBounds);
                }
                let b = self.v[x as usize];
                let at = self.i as usize;
                self.mem[at] = b / 100;
                self.mem[at + 1] = (b / 10) % 10;
                self.mem[at + 2] = b % 10;
            },
            Instruction::StoreRegs(x) => {
                if self.i as usize + x as usize + 1 > 4096 {
                    return Err(ChipError::OutOfBounds);
                }
                let mut j: u8 = 0;
                while j <= x
                    invariant
                        j <= x + 1,
                        x < 16,
                        s.i + x + 1 <= 4096,
                        self@ == (ChipView { mem: self@.mem, ..s }),
                        self@.mem.len() == 4096,
                        forall|a: int|
                            0 <= a < 4096 ==> #[trigger] self@.mem[a] == if s.i <= a < s.i + j {
                                s.v[a - s.i]
                            } else {
                                s.mem[a]
                            },
                    decreases x + 1 - j,
                {
                    self.mem[self.i as usize + j as usize] = self.v[j as usize];
                    j += 1;
                }
                assert(self@.mem =~= Seq::new(
                    4096,
                    |a: int|
                        if s.i <= a <= s.i + x {
                            s.v[a - s.i]
                        } else {
                            s.mem[a]
                        },
                ));
            },
            Instruction::LoadRegs(x) => {
                if self.i as usize + x as usize + 1 > 4096 {
                    return Err(ChipError::OutOfBounds);
                }
                let mut j: u8 = 0;
                while j <= x
                    invariant
                        j <= x + 1,
                        x < 16,
                        s.i + x + 1 <= 4096,
                        self@ == (ChipView { v: self@.v, ..s }),
                        self@.v.len() == 16,
                        forall|k: int|
                            0 <= k < 16 ==> #[trigger] self@.v[k] == if k < j {
                                s.mem[s.i + k]
                            } else {
                                s.v[k]
                            },
                    decreases x + 1 - j,
                {
                    self.v[j as usize] = self.mem[self.i as usize + j as usize];
                    j += 1;
                }
                assert(self@.v =~= Seq::new(
                    16,
                    |k: int| if k <= x { s.mem[s.i + k] } else { s.v[k] },
                ));
            },
            _ => {},
        }
        Ok(())
    }

    /// Runs one decoded instruction on a state whose `pc` already points
    /// past it.
    pub fn execute(&mut self, ins: Instruction) -> (r: Result<(), ChipError>)
        requires
            valid(old(self)@),
            ins.wf(),
            (old(self)@.waiting is None),
            2 <= old(self)@.pc <= 4096,
        ensures
            (final(self)@, r) == step(old(self)@, ins),
            valid(final(self)@),
    {
        match ins {
            Instruction::Cls
            | Instruction::Ret
            | Instruction::Jp(..)
            | Instruction::Call(..)
            | Instruction::SeByte(..)
            | Instruction::SneByte(..)
            | Instruction::SeReg(..)
            | Instruction::SneReg(..)
            | Instruction::JpV0(..)
            | Instruction::Skp(..)
            | Instruction::Sknp(..) => self.execute_flow(ins),
            Instruction::LdByte(..)
            | Instruction::AddByte(..)
            | Instruction::LdReg(..)
            | Instruction::Or(..)
            | Instruction::And(..)
            | Instruction::Xor(..)
            | Instruction::AddReg(..)
            | Instruction::Sub(..)
            | Instruction::Subn(..)
            | Instruction::Shr(..)
            | Instruction::Shl(..)
            | Instruction::LdI(..)
            | Instruction::Rnd(..)
            | Instruction::LdVxDt(..)
            | Instruction::LdDtVx(..)
            | Instruction::LdStVx(..)
            | Instruction::AddI(..)
            | Instruction::LdFont(..) => self.execute_regs(ins),
            Instruction::Drw(..)
            | Instruction::LdKey(..)
            | Instruction::LdBcd(..)
            | Instruction::StoreRegs(..)
            | Instruction::LoadRegs(..) => self.execute_mem(ins),
        }
    }

    /// Executes one instruction, or resolves a pending wait for a key.
    pub fn cycle(&mut self) -> (r: Result<(), ChipError>)
        requires
            valid(old(self)@),
        ensures
            (final(self)@, r) == cycle_spec(old(self)@),
            valid(final(self)@),
    {
        if let Some(x) = self.waiting {
            let k = self.first_key();
            if k < 16 {
                self.v[x as usize] = k as u8;
                self.pc = self.pc + 2;
                self.waiting = None;
            }
            return Ok(());
        }
        let op = match self.fetch() {
            Ok(op) => op,
            Err(e) => {
                return Err(e);
            },
        };
        match decode(op) {
            Some(ins) => {
                let r = self.execute(ins);
                if r.is_err() {
                    self.pc = self.pc - 2;
                }
                r
            },
            None => Err(ChipError::UnsupportedOpcode),
        }
    }
}

} // verus!
