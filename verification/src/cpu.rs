use vstd::prelude::*;

verus! {

/// Number of bytes of machine memory.
pub const MEMORY_SIZE: usize = 4096;

/// Number of general-purpose registers.
pub const REGISTER_COUNT: usize = 16;

/// Number of return-address slots in the call stack.
pub const STACK_SIZE: usize = 16;

/// Number of keys on the keypad.
pub const KEYPAD_SIZE: usize = 16;

/// Address at which program images are loaded and execution begins.
pub const PROGRAM_START: usize = 0x200;

/// Number of cells in the framebuffer (64 columns by 32 rows).
pub const FRAMEBUFFER_SIZE: usize = 2048;

/// One fetched 2-byte instruction, decoded into four 4-bit fields
/// (nibbles), most significant first.
pub struct OpCode {
    pub first: u8,
    pub second: u8,
    pub third: u8,
    pub fourth: u8,
}

impl OpCode {
    /// The 16-bit word that a nibble quadruple stands for.
    pub open spec fn merged_spec(self) -> int {
        self.first * 0x1000 + self.second * 0x100 + self.third * 0x10 + self.fourth
    }

    /// All four fields are in nibble range.
    pub open spec fn wf(self) -> bool {
        self.first < 16 && self.second < 16 && self.third < 16 && self.fourth < 16
    }

    /// Split a 16-bit instruction word into its four nibbles.
    pub fn split(word: u16) -> (r: OpCode)
        ensures
            r.wf(),
            r.first == word / 0x1000,
            r.second == (word / 0x100) % 16,
            r.third == (word / 0x10) % 16,
            r.fourth == word % 16,
            r.merged_spec() == word,
    {
        let r = OpCode {
            first: (word / 0x1000) as u8,
            second: ((word / 0x100) % 16) as u8,
            third: ((word / 0x10) % 16) as u8,
            fourth: (word % 16) as u8,
        };
        proof {
            assert(r.merged_spec() == word) by (nonlinear_arith)
                requires
                    r.first == word / 0x1000,
                    r.second == (word / 0x100) % 16,
                    r.third == (word / 0x10) % 16,
                    r.fourth == word % 16,
            ;
        }
        r
    }

    /// Merge the four nibble fields back into one 16-bit opcode word.
    pub fn merged_opcode(&self) -> (r: u16)
        requires
            self.wf(),
        ensures
            r == self.merged_spec(),
    {
        (self.first as u16) * 0x1000 + (self.second as u16) * 0x100 + (self.third as u16) * 0x10
            + (self.fourth as u16)
    }

    /// The low byte of the instruction word (the `NN` immediate).
    pub fn get_nn(&self) -> (r: u8)
        requires
            self.wf(),
        ensures
            r == self.third * 16 + self.fourth,
    {
        self.third * 16 + self.fourth
    }

    /// The low 12 bits of the instruction word (the `NNN` address).
    pub fn get_nnn(&self) -> (r: u16)
        requires
            self.wf(),
        ensures
            r == self.second * 0x100 + self.third * 0x10 + self.fourth,
    {
        (self.second as u16) * 0x100 + (self.third as u16) * 0x10 + (self.fourth as u16)
    }
}

/// The abstract state of the machine: the mathematical value that every
/// contract of `Emulator` speaks about.
#[verifier::ext_equal]
pub struct EmuView {
    /// The 4096 bytes of memory.
    pub mem: Seq<u8>,
    /// The 16 general-purpose registers V0..VF.
    pub regs: Seq<u8>,
    /// The 16-bit index register.
    pub index: u16,
    /// The program counter.
    pub pc: u16,
    /// The framebuffer, one byte per pixel (0 or 1), row-major, 64 wide.
    pub fb: Seq<u8>,
    /// The delay timer.
    pub delay: u8,
    /// The sound timer.
    pub sound: u8,
    /// The 16 call-stack slots.
    pub stack: Seq<u16>,
    /// The stack pointer: number of occupied stack slots.
    pub sp: int,
    /// The 16 keypad flags.
    pub keys: Seq<bool>,
}

impl EmuView {
    /// Structural well-formedness of a machine state: every component has
    /// its fixed size, the stack pointer is in range, stored return
    /// addresses point into memory, and framebuffer cells are 0 or 1.
    pub open spec fn wf(self) -> bool {
        &&& self.mem.len() == 4096
        &&& self.regs.len() == 16
        &&& self.fb.len() == 2048
        &&& self.stack.len() == 16
        &&& self.keys.len() == 16
        &&& 0 <= self.sp <= 16
        &&& forall|i: int| 0 <= i < 16 ==> self.stack[i] <= 4096
        &&& forall|p: int| 0 <= p < 2048 ==> self.fb[p] <= 1
    }
}

/// The built-in glyph table: 16 glyphs of 5 bytes each, one per
/// hexadecimal digit, preloaded at address 0.
pub open spec fn fontset_seq() -> Seq<u8> {
    seq![
        0xF0u8, 0x90, 0x90, 0x90, 0xF0,  // 0
        0x20, 0x60, 0x20, 0x20, 0x70,  // 1
        0xF0, 0x10, 0xF0, 0x80, 0xF0,  // 2
        0xF0, 0x10, 0xF0, 0x10, 0xF0,  // 3
        0x90, 0x90, 0xF0, 0x10, 0x10,  // 4
        0xF0, 0x80, 0xF0, 0x10, 0xF0,  // 5
        0xF0, 0x80, 0xF0, 0x90, 0xF0,  // 6
        0xF0, 0x10, 0x20, 0x40, 0x40,  // 7
        0xF0, 0x90, 0xF0, 0x90, 0xF0,  // 8
        0xF0, 0x90, 0xF0, 0x10, 0xF0,  // 9
        0xF0, 0x90, 0xF0, 0x90, 0x90,  // A
        0xE0, 0x90, 0xE0, 0x90, 0xE0,  // B
        0xF0, 0x80, 0x80, 0x80, 0xF0,  // C
        0xE0, 0x90, 0x90, 0x90, 0xE0,  // D
        0xF0, 0x80, 0xF0, 0x80, 0xF0,  // E
        0xF0, 0x80, 0xF0, 0x80, 0x80,  // F
    ]
}

/// The glyph table as an executable vector.
fn fontset() -> (r: Vec<u8>)
    ensures
        r@ == fontset_seq(),
{
    let r: Vec<u8> = vec![
        0xF0u8, 0x90, 0x90, 0x90, 0xF0,
        0x20, 0x60, 0x20, 0x20, 0x70,
        0xF0, 0x10, 0xF0, 0x80, 0xF0,
        0xF0, 0x10, 0xF0, 0x10, 0xF0,
        0x90, 0x90, 0xF0, 0x10, 0x10,
        0xF0, 0x80, 0xF0, 0x10, 0xF0,
        0xF0, 0x80, 0xF0, 0x90, 0xF0,
        0xF0, 0x10, 0x20, 0x40, 0x40,
        0xF0, 0x90, 0xF0, 0x90, 0xF0,
        0xF0, 0x90, 0xF0, 0x10, 0xF0,
        0xF0, 0x90, 0xF0, 0x90, 0x90,
        0xE0, 0x90, 0xE0, 0x90, 0xE0,
        0xF0, 0x80, 0x80, 0x80, 0xF0,
        0xE0, 0x90, 0x90, 0x90, 0xE0,
        0xF0, 0x80, 0xF0, 0x80, 0xF0,
        0xF0, 0x80, 0xF0, 0x80, 0x80,
    ];
    proof {
        assert(r@ =~= fontset_seq());
    }
    r
}

/// Memory as it stands at construction: the glyph table in the first 80
/// bytes, zero everywhere else.
pub open spec fn initial_mem() -> Seq<u8> {
    Seq::new(4096, |i: int| if i < 80 { fontset_seq()[i] } else { 0u8 })
}

/// The machine state at construction.
pub open spec fn initial_view() -> EmuView {
    EmuView {
        mem: initial_mem(),
        regs: Seq::new(16, |i: int| 0u8),
        index: 0,
        pc: 0x200,
        fb: Seq::new(2048, |i: int| 0u8),
        delay: 0,
        sound: 0,
        stack: Seq::new(16, |i: int| 0u16),
        sp: 0,
        keys: Seq::new(16, |i: int| false),
    }
}

/// Addition on a byte, wrapping modulo 256.
pub open spec fn wrap_add(a: u8, b: u8) -> u8 {
    ((a + b) % 256) as u8
}

/// Subtraction on a byte, wrapping modulo 256.
pub open spec fn wrap_sub(a: u8, b: u8) -> u8 {
    ((a + 256 - b) % 256) as u8
}

/// A machine state with register `x` set to `val` and all else unchanged.
pub open spec fn with_reg(a: EmuView, x: int, val: u8) -> EmuView {
    EmuView { regs: a.regs.update(x, val), ..a }
}

/// Clear-screen: every framebuffer cell becomes 0.
pub open spec fn op_00e0(a: EmuView) -> EmuView {
    EmuView { fb: Seq::new(2048, |p: int| 0u8), ..a }
}

/// Return from subroutine: pop a return address and compensate for the
/// double pre-advance applied on every cycle.
pub open spec fn op_00ee(a: EmuView) -> EmuView {
    EmuView { sp: a.sp - 1, pc: (a.stack[a.sp - 1] + 2) as u16, ..a }
}

/// Jump to address `NNN`.
pub open spec fn op_1nnn(a: EmuView, nnn: u16) -> EmuView {
    EmuView { pc: nnn, ..a }
}

/// Call subroutine at `NNN`: push the address from which the next
/// sequential instruction would be fetched, minus the trailing advance.
pub open spec fn op_2nnn(a: EmuView, nnn: u16) -> EmuView {
    EmuView { stack: a.stack.update(a.sp, (a.pc - 2) as u16), sp: a.sp + 1, pc: nnn, ..a }
}

/// Advance the program counter past one further instruction when `cond`
/// holds.
pub open spec fn skip_if(a: EmuView, cond: bool) -> EmuView {
    if cond {
        EmuView { pc: (a.pc + 2) as u16, ..a }
    } else {
        a
    }
}

/// Skip when `Vx == NN`.
pub open spec fn op_3xnn(a: EmuView, x: int, nn: u8) -> EmuView {
    skip_if(a, a.regs[x] == nn)
}

/// Skip when `Vx != NN`.
pub open spec fn op_4xnn(a: EmuView, x: int, nn: u8) -> EmuView {
    skip_if(a, a.regs[x] != nn)
}

/// Skip when `Vx == Vy` (the documented convention for this pattern).
pub open spec fn op_5xy0(a: EmuView, x: int, y: int) -> EmuView {
    skip_if(a, a.regs[x] == a.regs[y])
}

/// `Vx = NN`.
pub open spec fn op_6xnn(a: EmuView, x: int, nn: u8) -> EmuView {
    with_reg(a, x, nn)
}

/// `Vx += NN`, wrapping, no flag.
pub open spec fn op_7xnn(a: EmuView, x: int, nn: u8) -> EmuView {
    with_reg(a, x, wrap_add(a.regs[x], nn))
}

/// `Vx = Vy`.
pub open spec fn op_8xy0(a: EmuView, x: int, y: int) -> EmuView {
    with_reg(a, x, a.regs[y])
}

/// `Vx |= Vy`.
pub open spec fn op_8xy1(a: EmuView, x: int, y: int) -> EmuView {
    with_reg(a, x, a.regs[x] | a.regs[y])
}

/// `Vx &= Vy`.
pub open spec fn op_8xy2(a: EmuView, x: int, y: int) -> EmuView {
    with_reg(a, x, a.regs[x] & a.regs[y])
}

/// `Vx ^= Vy`.
pub open spec fn op_8xy3(a: EmuView, x: int, y: int) -> EmuView {
    with_reg(a, x, a.regs[x] ^ a.regs[y])
}

/// `Vx += Vy`; `VF` becomes 1 exactly when the true sum exceeds 255.
/// The flag is written first, so `x = 0xF` keeps the sum, as the flag
/// write is then overwritten.
pub open spec fn op_8xy4(a: EmuView, x: int, y: int) -> EmuView {
    let flag: u8 = if a.regs[x] + a.regs[y] > 255 {
        1
    } else {
        0
    };
    EmuView { regs: a.regs.update(15, flag).update(x, wrap_add(a.regs[x], a.regs[y])), ..a }
}

/// `Vx -= Vy`; `VF` becomes 0 exactly when the subtraction borrows.
pub open spec fn op_8xy5(a: EmuView, x: int, y: int) -> EmuView {
    let flag: u8 = if a.regs[x] < a.regs[y] {
        0
    } else {
        1
    };
    EmuView { regs: a.regs.update(15, flag).update(x, wrap_sub(a.regs[x], a.regs[y])), ..a }
}

/// `VF = Vx & 1`, then `Vx >>= 1`. The shift reads the register after the
/// flag write, so `x = 0xF` shifts the just-written flag.
pub open spec fn op_8xy6(a: EmuView, x: int) -> EmuView {
    let r1 = a.regs.update(15, (a.regs[x] & 1) as u8);
    EmuView { regs: r1.update(x, r1[x] / 2), ..a }
}

/// `Vx = Vy - Vx`; `VF` becomes 0 exactly when the subtraction borrows.
pub open spec fn op_8xy7(a: EmuView, x: int, y: int) -> EmuView {
    let flag: u8 = if a.regs[y] < a.regs[x] {
        0
    } else {
        1
    };
    EmuView { regs: a.regs.update(15, flag).update(x, wrap_sub(a.regs[y], a.regs[x])), ..a }
}

/// `VF = ` high bit of `Vx` normalized to 0 or 1 (the convention chosen
/// here), then `Vx <<= 1`, reading the register after the flag write.
pub open spec fn op_8xye(a: EmuView, x: int) -> EmuView {
    let r1 = a.regs.update(15, a.regs[x] / 128);
    EmuView { regs: r1.update(x, wrap_add(r1[x], r1[x])), ..a }
}

/// Skip when `Vx != Vy`.
pub open spec fn op_9xy0(a: EmuView, x: int, y: int) -> EmuView {
    skip_if(a, a.regs[x] != a.regs[y])
}

/// `I = NNN`.
pub open spec fn op_annn(a: EmuView, nnn: u16) -> EmuView {
    EmuView { index: nnn, ..a }
}

/// Jump to `V0 + NNN`.
pub open spec fn op_bnnn(a: EmuView, nnn: u16) -> EmuView {
    EmuView { pc: (a.regs[0] + nnn) as u16, ..a }
}

/// `Vx = rnd & NN` for the byte `rnd` that the generator produced.
pub open spec fn op_cxnn(a: EmuView, x: int, nn: u8, rnd: u8) -> EmuView {
    with_reg(a, x, rnd & nn)
}

/// Index of the framebuffer cell at column `x`, row `y`.
pub open spec fn fb_index(x: int, y: int) -> int {
    y * 64 + x
}

/// Whether bit `i` of `b`, counting from the most significant, is set.
pub open spec fn bit_of(b: u8, i: u8) -> bool {
    (b >> ((7 - i) as u8)) & 1 == 1
}

/// The horizontal offset of column `x` from column `vx % 64`, wrapped.
pub open spec fn col_off(vx: u8, x: int) -> int {
    (x - vx) % 64
}

/// The vertical offset of row `y` from row `vy % 32`, wrapped.
pub open spec fn row_off(vy: u8, y: int) -> int {
    (y - vy) % 32
}

/// The framebuffer after XOR-drawing `sprite` (8 columns wide, one byte
/// per row) at `(vx, vy)`, wrapping in both axes: a cell inside the
/// sprite window whose sprite bit is set is flipped, all others keep
/// their value.
pub open spec fn draw_fb(fb: Seq<u8>, sprite: Seq<u8>, vx: u8, vy: u8) -> Seq<u8> {
    Seq::new(
        2048,
        |p: int|
            {
                let i = col_off(vx, p % 64);
                let j = row_off(vy, p / 64);
                if i < 8 && j < sprite.len() && bit_of(sprite[j], i as u8) {
                    (1 - fb[p]) as u8
                } else {
                    fb[p]
                }
            },
    )
}

/// Whether XOR-drawing `sprite` at `(vx, vy)` erases some lit pixel.
pub open spec fn draw_collision(fb: Seq<u8>, sprite: Seq<u8>, vx: u8, vy: u8) -> bool {
    exists|j: int, i: int|
        0 <= j < sprite.len() && 0 <= i < 8 && #[trigger] bit_of(sprite[j], i as u8) && fb[fb_index(
            (vx + i) % 64,
            (vy + j) % 32,
        )] == 1
}

/// Collision seen after only part of the sprite has been drawn: some
/// set bit strictly before row `j`, or in row `j` strictly before
/// column `i`, lies over a lit cell of `fb`.
spec fn collision_upto(fb: Seq<u8>, sprite: Seq<u8>, vx: u8, vy: u8, j: int, i: int) -> bool {
    exists|jj: int, ii: int|
        0 <= jj < sprite.len() && 0 <= ii < 8 && (jj < j || (jj == j && ii < i))
            && #[trigger] bit_of(sprite[jj], ii as u8) && fb[fb_index(
            (vx + ii) % 64,
            (vy + jj) % 32,
        )] == 1
}

/// Cell `p` after the sprite rows strictly before `j`, and the bits of
/// row `j` strictly before column `i`, have been XORed onto `fb`.
spec fn cell_after_partial(
    fb: Seq<u8>,
    sprite: Seq<u8>,
    vx: u8,
    vy: u8,
    j: int,
    i: int,
    p: int,
) -> u8 {
    let ci = col_off(vx, p % 64);
    let cj = row_off(vy, p / 64);
    if ci < 8 && cj < sprite.len() && (cj < j || (cj == j && ci < i)) && bit_of(
        sprite[cj],
        ci as u8,
    ) {
        (1 - fb[p]) as u8
    } else {
        fb[p]
    }
}

/// Wrapping a coordinate into `[0, m)` and taking its offset from the
/// anchor recovers the original offset.
pub proof fn lemma_offset_round(v: u8, k: int, m: int)
    requires
        m == 64 || m == 32,
        0 <= k < m,
    ensures
        (((v + k) % m) - v) % m == k,
{
    let s = v + k;
    vstd::arithmetic::div_mod::lemma_fundamental_div_mod(s, m);
    let q = s / m;
    assert((s % m) - v == m * (-q) + k);
    vstd::arithmetic::div_mod::lemma_mod_multiples_vanish(-q, k, m);
    vstd::arithmetic::div_mod::lemma_small_mod(k as nat, m as nat);
}

/// A coordinate already in `[0, m)` is recovered from its own offset
/// from the anchor.
pub proof fn lemma_offset_inverse(v: u8, x: int, m: int)
    requires
        m == 64 || m == 32,
        0 <= x < m,
    ensures
        (v + ((x - v) % m)) % m == x,
{
    vstd::arithmetic::div_mod::lemma_fundamental_div_mod(x - v, m);
    let q = (x - v) / m;
    assert(v + ((x - v) % m) == m * (-q) + x);
    vstd::arithmetic::div_mod::lemma_mod_multiples_vanish(-q, x, m);
    vstd::arithmetic::div_mod::lemma_small_mod(x as nat, m as nat);
}

/// Draw the `N`-row sprite at `memory[I..I+N]` at `(Vx, Vy)`; `VF`
/// records whether any pixel was erased.
pub open spec fn op_dxyn(a: EmuView, x: int, y: int, n: int) -> EmuView {
    let sprite = a.mem.subrange(a.index as int, a.index + n);
    let vx = a.regs[x];
    let vy = a.regs[y];
    let flag: u8 = if draw_collision(a.fb, sprite, vx, vy) {
        1
    } else {
        0
    };
    EmuView { fb: draw_fb(a.fb, sprite, vx, vy), regs: a.regs.update(15, flag), ..a }
}

/// Skip when the key indexed by `Vx` is pressed.
pub open spec fn op_ex9e(a: EmuView, x: int) -> EmuView {
    skip_if(a, a.keys[a.regs[x] as int])
}

/// Skip when the key indexed by `Vx` is not pressed.
pub open spec fn op_exa1(a: EmuView, x: int) -> EmuView {
    skip_if(a, !a.keys[a.regs[x] as int])
}

/// `Vx = delay timer`.
pub open spec fn op_fx07(a: EmuView, x: int) -> EmuView {
    with_reg(a, x, a.delay)
}

/// Busy-wait for the key indexed by `Vx`: while it is up, the program
/// counter is moved back so the same instruction re-executes next cycle.
pub open spec fn op_fx0a(a: EmuView, x: int) -> EmuView {
    if a.keys[a.regs[x] as int] {
        a
    } else {
        EmuView { pc: (a.pc - 4) as u16, ..a }
    }
}

/// `delay timer = Vx`.
pub open spec fn op_fx15(a: EmuView, x: int) -> EmuView {
    EmuView { delay: a.regs[x], ..a }
}

/// `sound timer = Vx`.
pub open spec fn op_fx18(a: EmuView, x: int) -> EmuView {
    EmuView { sound: a.regs[x], ..a }
}

/// `I += Vx`, wrapping at 16 bits, no flag.
pub open spec fn op_fx1e(a: EmuView, x: int) -> EmuView {
    EmuView { index: ((a.index + a.regs[x]) % 0x10000) as u16, ..a }
}

/// `I = Vx * 5`: the glyph table offset for digit `Vx`.
pub open spec fn op_fx29(a: EmuView, x: int) -> EmuView {
    EmuView { index: (a.regs[x] * 5) as u16, ..a }
}

/// Store the three decimal digits of `Vx` at `I`, `I+1`, `I+2`.
pub open spec fn op_fx33(a: EmuView, x: int) -> EmuView {
    let v = a.regs[x];
    EmuView {
        mem: a.mem.update(a.index as int, v / 100).update(a.index + 1, (v / 10) % 10).update(
            a.index + 2,
            v % 10,
        ),
        ..a
    }
}

/// Dump `V0..=Vx` into memory starting at `I`; `I` itself is unchanged.
pub open spec fn op_fx55(a: EmuView, x: int) -> EmuView {
    EmuView {
        mem: Seq::new(
            4096,
            |i: int|
                if a.index <= i <= a.index + x {
                    a.regs[i - a.index]
                } else {
                    a.mem[i]
                },
        ),
        ..a
    }
}

/// Load `V0..=Vx` from memory starting at `I`; `I` itself is unchanged.
pub open spec fn op_fx65(a: EmuView, x: int) -> EmuView {
    EmuView {
        regs: Seq::new(
            16,
            |i: int|
                if i <= x {
                    a.mem[a.index + i]
                } else {
                    a.regs[i]
                },
        ),
        ..a
    }
}

/// The four nibbles that a 16-bit instruction word decodes into.
pub open spec fn spec_decode(w: int) -> OpCode {
    OpCode {
        first: (w / 0x1000) as u8,
        second: ((w / 0x100) % 16) as u8,
        third: ((w / 0x10) % 16) as u8,
        fourth: (w % 16) as u8,
    }
}

/// The big-endian instruction word at the program counter.
pub open spec fn fetch_word(v: EmuView) -> int {
    v.mem[v.pc as int] * 256 + v.mem[v.pc + 1]
}

/// The state transition of one decoded instruction. `a` is the machine
/// state after the pre-advance of the program counter; unmatched
/// patterns, and the legacy `0NNN` routine call, change nothing.
pub open spec fn exec_opcode(a: EmuView, op: OpCode, rnd: u8) -> EmuView {
    let x = op.second as int;
    let y = op.third as int;
    let n = op.fourth as int;
    let nn = (op.third * 16 + op.fourth) as u8;
    let nnn = (op.second * 0x100 + op.third * 0x10 + op.fourth) as u16;
    match (op.first, op.second, op.third, op.fourth) {
        (0, 0, 0xE, 0) => op_00e0(a),
        (0, 0, 0xE, 0xE) => op_00ee(a),
        (0, _, _, _) => a,
        (1, _, _, _) => op_1nnn(a, nnn),
        (2, _, _, _) => op_2nnn(a, nnn),
        (3, _, _, _) => op_3xnn(a, x, nn),
        (4, _, _, _) => op_4xnn(a, x, nn),
        (5, _, _, 0) => op_5xy0(a, x, y),
        (6, _, _, _) => op_6xnn(a, x, nn),
        (7, _, _, _) => op_7xnn(a, x, nn),
        (8, _, _, 0) => op_8xy0(a, x, y),
        (8, _, _, 1) => op_8xy1(a, x, y),
        (8, _, _, 2) => op_8xy2(a, x, y),
        (8, _, _, 3) => op_8xy3(a, x, y),
        (8, _, _, 4) => op_8xy4(a, x, y),
        (8, _, _, 5) => op_8xy5(a, x, y),
        (8, _, _, 6) => op_8xy6(a, x),
        (8, _, _, 7) => op_8xy7(a, x, y),
        (8, _, _, 0xE) => op_8xye(a, x),
        (9, _, _, 0) => op_9xy0(a, x, y),
        (0xA, _, _, _) => op_annn(a, nnn),
        (0xB, _, _, _) => op_bnnn(a, nnn),
        (0xC, _, _, _) => op_cxnn(a, x, nn, rnd),
        (0xD, _, _, _) => op_dxyn(a, x, y, n),
        (0xE, _, 9, 0xE) => op_ex9e(a, x),
        (0xE, _, 0xA, 1) => op_exa1(a, x),
        (0xF, _, 0, 7) => op_fx07(a, x),
        (0xF, _, 0, 0xA) => op_fx0a(a, x),
        (0xF, _, 1, 5) => op_fx15(a, x),
        (0xF, _, 1, 8) => op_fx18(a, x),
        (0xF, _, 1, 0xE) => op_fx1e(a, x),
        (0xF, _, 2, 9) => op_fx29(a, x),
        (0xF, _, 3, 3) => op_fx33(a, x),
        (0xF, _, 5, 5) => op_fx55(a, x),
        (0xF, _, 6, 5) => op_fx65(a, x),
        _ => a,
    }
}

/// The ways one execution cycle can fail.
#[derive(Clone, Copy, Debug, PartialEq, Eq, Structural)]
pub enum FaultKind {
    /// The program counter points past the last full instruction word.
    ProgramCounterOutOfBounds,
    /// A return was executed with an empty call stack.
    StackUnderflow,
    /// A call was executed with a full call stack.
    StackOverflow,
    /// A computed memory range reaches past the 4096-byte memory.
    MemoryOutOfBounds,
    /// A key-query opcode named a key index past the 16-key keypad.
    KeyOutOfBounds,
}

/// A fatal execution fault: the faulting instruction address, the fetched
/// opcode word (0 when the word itself could not be read), and the kind.
#[derive(Clone, Copy, Debug, PartialEq, Eq, Structural)]
pub struct ExecError {
    /// Address of the faulting instruction.
    pub addr: u16,
    /// The opcode word fetched there, or 0 when the fetch itself faulted.
    pub opcode: u16,
    /// What went wrong.
    pub kind: FaultKind,
}

/// The bounds violation, if any, that executing `op` in state `v` would
/// commit. Independent of the program counter.
pub open spec fn opcode_fault(v: EmuView, op: OpCode) -> Option<FaultKind> {
    let x = op.second as int;
    let n = op.fourth as int;
    match (op.first, op.second, op.third, op.fourth) {
        (0, 0, 0xE, 0xE) => if v.sp == 0 {
            Some(FaultKind::StackUnderflow)
        } else {
            None
        },
        (2, _, _, _) => if v.sp == 16 {
            Some(FaultKind::StackOverflow)
        } else {
            None
        },
        (0xD, _, _, _) => if v.index + n > 4096 {
            Some(FaultKind::MemoryOutOfBounds)
        } else {
            None
        },
        (0xE, _, 9, 0xE) => if v.regs[x] >= 16 {
            Some(FaultKind::KeyOutOfBounds)
        } else {
            None
        },
        (0xE, _, 0xA, 1) => if v.regs[x] >= 16 {
            Some(FaultKind::KeyOutOfBounds)
        } else {
            None
        },
        (0xF, _, 0, 0xA) => if v.regs[x] >= 16 {
            Some(FaultKind::KeyOutOfBounds)
        } else {
            None
        },
        (0xF, _, 3, 3) => if v.index + 2 >= 4096 {
            Some(FaultKind::MemoryOutOfBounds)
        } else {
            None
        },
        (0xF, _, 5, 5) => if v.index + x >= 4096 {
            Some(FaultKind::MemoryOutOfBounds)
        } else {
            None
        },
        (0xF, _, 6, 5) => if v.index + x >= 4096 {
            Some(FaultKind::MemoryOutOfBounds)
        } else {
            None
        },
        _ => None,
    }
}

/// The fault, if any, that one cycle from state `v` reports; `None`
/// exactly when the cycle succeeds.
pub open spec fn step_fault(v: EmuView) -> Option<ExecError> {
    if v.pc > 4094 {
        Some(
            ExecError { addr: v.pc, opcode: 0, kind: FaultKind::ProgramCounterOutOfBounds },
        )
    } else {
        let w = fetch_word(v);
        match opcode_fault(v, spec_decode(w)) {
            Some(k) => Some(ExecError { addr: v.pc, opcode: w as u16, kind: k }),
            None => None,
        }
    }
}

/// Splitting a 16-bit instruction word into four nibbles and merging
/// them back yields the original word, for every valid word.
pub proof fn lemma_split_merge_round_trip(w: int)
    requires
        0 <= w < 0x10000,
    ensures
        spec_decode(w).wf(),
        spec_decode(w).merged_spec() == w,
{
    assert(0 <= w / 0x1000 < 16 && 0 <= (w / 0x100) % 16 < 16 && 0 <= (w / 0x10) % 16 < 16 && 0
        <= w % 16 < 16) by (nonlinear_arith)
        requires
            0 <= w < 0x10000,
    ;
    assert(spec_decode(w).merged_spec() == w) by (nonlinear_arith)
        requires
            0 <= w < 0x10000,
    ;
}

/// The state with the program counter moved past the fetched instruction
/// and past one further advance, the convention every opcode effect above
/// starts from.
pub open spec fn advance4(v: EmuView) -> EmuView {
    EmuView { pc: (v.pc + 4) as u16, ..v }
}

/// The machine state after fetch, decode and execute, before the timer
/// update.
pub open spec fn step_view(v: EmuView, rnd: u8) -> EmuView {
    exec_opcode(advance4(v), spec_decode(fetch_word(v)), rnd)
}

/// One countdown step of a timer: decrement toward zero, never below.
pub open spec fn tick_timer(t: u8) -> u8 {
    if t > 0 {
        (t - 1) as u8
    } else {
        0
    }
}

/// The timer update that ends every cycle.
pub open spec fn tick_view(v: EmuView) -> EmuView {
    EmuView { delay: tick_timer(v.delay), sound: tick_timer(v.sound), ..v }
}

/// The machine state after one full successful cycle.
pub open spec fn cycle_post(v: EmuView, rnd: u8) -> EmuView {
    tick_view(step_view(v, rnd))
}

/// Whether the cycle emits the one-shot beep: exactly when the sound
/// timer, as execution left it, goes from 1 to 0 in the timer update.
pub open spec fn cycle_beep(v: EmuView, rnd: u8) -> bool {
    step_view(v, rnd).sound == 1
}

/// Failure of a program load: the image would overrun memory.
#[derive(Clone, Copy, Debug, PartialEq, Eq, Structural)]
pub struct LoadError {
    /// Length of the rejected image in bytes.
    pub image_len: usize,
}

/// The fetch-decode-execute engine together with all machine state.
pub struct Emulator {
    memory: Vec<u8>,
    registers: Vec<u8>,
    index_register: u16,
    program_counter: u16,
    gfx: Vec<u8>,
    delay_timer: u8,
    sound_timer: u8,
    stack: Vec<u16>,
    stack_pointer: usize,
    keypad: Vec<bool>,
}

impl View for Emulator {
    type V = EmuView;

    closed spec fn view(&self) -> EmuView {
        EmuView {
            mem: self.memory@,
            regs: self.registers@,
            index: self.index_register,
            pc: self.program_counter,
            fb: self.gfx@,
            delay: self.delay_timer,
            sound: self.sound_timer,
            stack: self.stack@,
            sp: self.stack_pointer as int,
            keys: self.keypad@,
        }
    }
}

impl Emulator {
    /// The machine state is well-formed.
    pub open spec fn wf(&self) -> bool {
        self@.wf()
    }

    /// Build a freshly powered-on machine: everything zeroed but for the
    /// glyph table at the bottom of memory and the program counter at
    /// `PROGRAM_START`.
    pub fn new() -> (r: Emulator)
        ensures
            r.wf(),
            r@ == initial_view(),
    {
        let mut memory: Vec<u8> = vec![0u8; MEMORY_SIZE];
        let font = fontset();
        let mut i: usize = 0;
        while i < 80
            invariant
                memory.len() == 4096,
                font@ == fontset_seq(),
                i <= 80,
                forall|k: int| 0 <= k < i ==> memory@[k] == fontset_seq()[k],
                forall|k: int| i <= k < 4096 ==> memory@[k] == 0,
            decreases 80 - i,
        {
            memory.set(i, font[i]);
            i += 1;
        }
        let r = Emulator {
            memory,
            registers: vec![0u8; REGISTER_COUNT],
            index_register: 0,
            program_counter: 0x200,
            gfx: vec![0u8; FRAMEBUFFER_SIZE],
            delay_timer: 0,
            sound_timer: 0,
            stack: vec![0u16; STACK_SIZE],
            stack_pointer: 0,
            keypad: vec![false; KEYPAD_SIZE],
        };
        proof {
            assert(r@.mem =~= initial_mem());
            assert(r@.regs =~= initial_view().regs);
            assert(r@.fb =~= initial_view().fb);
            assert(r@.stack =~= initial_view().stack);
            assert(r@.keys =~= initial_view().keys);
            assert(r@ =~= initial_view());
        }
        r
    }

    /// Memory after a successful load: the image placed verbatim at
    /// `PROGRAM_START`, everything else as before.
    pub open spec fn loaded_mem(mem: Seq<u8>, image: Seq<u8>) -> Seq<u8> {
        Seq::new(
            4096,
            |i: int|
                if 0x200 <= i < 0x200 + image.len() {
                    image[i - 0x200]
                } else {
                    mem[i]
                },
        )
    }

    /// Copy a program image verbatim into memory starting at
    /// `PROGRAM_START`. An image that would overrun the 4096-byte memory
    /// is rejected whole and the machine is left untouched.
    pub fn load_image(&mut self, image: &Vec<u8>) -> (r: Result<(), LoadError>)
        requires
            old(self).wf(),
        ensures
            final(self).wf(),
            match r {
                Ok(()) => {
                    &&& image@.len() <= 4096 - 0x200
                    &&& final(self)@ == (EmuView {
                        mem: Self::loaded_mem(old(self)@.mem, image@),
                        ..old(self)@
                    })
                },
                Err(e) => {
                    &&& image@.len() > 4096 - 0x200
                    &&& e == (LoadError { image_len: image@.len() as usize })
                    &&& final(self)@ == old(self)@
                },
            },
    {
        if image.len() > MEMORY_SIZE - PROGRAM_START {
            return Err(LoadError { image_len: image.len() });
        }
        let mut i: usize = 0;
        while i < image.len()
            invariant
                old(self).wf(),
                image@.len() <= 4096 - 0x200,
                i <= image@.len(),
                self@ == (EmuView { mem: self@.mem, ..old(self)@ }),
                self@.mem.len() == 4096,
                forall|k: int| 0x200 <= k < 0x200 + i ==> self@.mem[k] == image@[k - 0x200],
                forall|k: int|
                    0 <= k < 4096 && !(0x200 <= k < 0x200 + i) ==> self@.mem[k] == old(self)@.mem[k],
            decreases image@.len() - i,
        {
            self.memory.set(PROGRAM_START + i, image[i]);
            i += 1;
        }
        proof {
            assert(self@.mem =~= Self::loaded_mem(old(self)@.mem, image@));
            assert(self@ =~= (EmuView { mem: Self::loaded_mem(old(self)@.mem, image@), ..old(self)@ }));
        }
        Ok(())
    }

    /// Fetch and split the instruction word at the program counter.
    fn fetch_opcode(&self) -> (op: OpCode)
        requires
            self.wf(),
            self@.pc <= 4094,
        ensures
            op.wf(),
            op == spec_decode(fetch_word(self@)),
    {
        let pc = self.program_counter as usize;
        let w = (self.memory[pc] as u16) * 256 + (self.memory[pc + 1] as u16);
        OpCode::split(w)
    }

    /// Advance the program counter past one instruction.
    fn skip_next_instruction(&mut self)
        requires
            old(self).wf(),
            old(self)@.pc <= 4098,
        ensures
            final(self).wf(),
            final(self)@ == (EmuView { pc: (old(self)@.pc + 2) as u16, ..old(self)@ }),
    {
        self.program_counter = self.program_counter + 2;
    }

    /// Legacy machine-code routine call at `NNN`: not supported, ignored.
    fn _0nnn(&mut self)
        requires
            old(self).wf(),
        ensures
            final(self).wf(),
            final(self)@ == old(self)@,
    {
    }

    /// Clear the framebuffer.
    fn _00e0(&mut self)
        requires
            old(self).wf(),
        ensures
            final(self).wf(),
            final(self)@ == op_00e0(old(self)@),
    {
        self.gfx = vec![0u8; FRAMEBUFFER_SIZE];
        proof {
            assert(self@.fb =~= op_00e0(old(self)@).fb);
            assert(self@ =~= op_00e0(old(self)@));
        }
    }

    /// Return from a subroutine.
    fn _00ee(&mut self)
        requires
            old(self).wf(),
            old(self)@.sp > 0,
        ensures
            final(self).wf(),
            final(self)@ == op_00ee(old(self)@),
    {
        self.stack_pointer = self.stack_pointer - 1;
        self.program_counter = self.stack[self.stack_pointer] + 2;
    }

    /// Jump to `NNN`.
    fn _1nnn(&mut self, nnn: u16)
        requires
            old(self).wf(),
        ensures
            final(self).wf(),
            final(self)@ == op_1nnn(old(self)@, nnn),
    {
        self.program_counter = nnn;
    }

    /// Call the subroutine at `NNN`.
    fn _2nnn(&mut self, nnn: u16)
        requires
            old(self).wf(),
            old(self)@.sp < 16,
            2 <= old(self)@.pc <= 4098,
        ensures
            final(self).wf(),
            final(self)@ == op_2nnn(old(self)@, nnn),
    {
        self.stack.set(self.stack_pointer, self.program_counter - 2);
        self.stack_pointer = self.stack_pointer + 1;
        self.program_counter = nnn;
    }

    /// Skip the next instruction when `Vx == NN`.
    fn _3xnn(&mut self, x: u8, nn: u8)
        requires
            old(self).wf(),
            x < 16,
            old(self)@.pc <= 4098,
        ensures
            final(self).wf(),
            final(self)@ == op_3xnn(old(self)@, x as int, nn),
    {
        if self.registers[x as usize] == nn {
            self.skip_next_instruction();
        }
    }

    /// Skip the next instruction when `Vx != NN`.
    fn _4xnn(&mut self, x: u8, nn: u8)
        requires
            old(self).wf(),
            x < 16,
            old(self)@.pc <= 4098,
        ensures
            final(self).wf(),
            final(self)@ == op_4xnn(old(self)@, x as int, nn),
    {
        if self.registers[x as usize] != nn {
            self.skip_next_instruction();
        }
    }

    /// Skip the next instruction when `Vx == Vy`.
    fn _5xy0(&mut self, x: u8, y: u8)
        requires
            old(self).wf(),
            x < 16,
            y < 16,
            old(self)@.pc <= 4098,
        ensures
            final(self).wf(),
            final(self)@ == op_5xy0(old(self)@, x as int, y as int),
    {
        if self.registers[x as usize] == self.registers[y as usize] {
            self.skip_next_instruction();
        }
    }

    /// `Vx = NN`.
    fn _6xnn(&mut self, x: u8, nn: u8)
        requires
            old(self).wf(),
            x < 16,
        ensures
            final(self).wf(),
            final(self)@ == op_6xnn(old(self)@, x as int, nn),
    {
        self.registers.set(x as usize, nn);
    }

    /// `Vx += NN`, wrapping.
    fn _7xnn(&mut self, x: u8, nn: u8)
        requires
            old(self).wf(),
            x < 16,
        ensures
            final(self).wf(),
            final(self)@ == op_7xnn(old(self)@, x as int, nn),
    {
        let sum = self.registers[x as usize] as u16 + nn as u16;
        self.registers.set(x as usize, (sum % 256) as u8);
    }

    /// `Vx = Vy`.
    fn _8xy0(&mut self, x: u8, y: u8)
        requires
            old(self).wf(),
            x < 16,
            y < 16,
        ensures
            final(self).wf(),
            final(self)@ == op_8xy0(old(self)@, x as int, y as int),
    {
        let vy = self.registers[y as usize];
        self.registers.set(x as usize, vy);
    }

    /// `Vx |= Vy`.
    fn _8xy1(&mut self, x: u8, y: u8)
        requires
            old(self).wf(),
            x < 16,
            y < 16,
        ensures
            final(self).wf(),
            final(self)@ == op_8xy1(old(self)@, x as int, y as int),
    {
        let v = self.registers[x as usize] | self.registers[y as usize];
        self.registers.set(x as usize, v);
    }

    /// `Vx &= Vy`.
    fn _8xy2(&mut self, x: u8, y: u8)
        requires
            old(self).wf(),
            x < 16,
            y < 16,
        ensures
            final(self).wf(),
            final(self)@ == op_8xy2(old(self)@, x as int, y as int),
    {
        let v = self.registers[x as usize] & self.registers[y as usize];
        self.registers.set(x as usize, v);
    }

    /// `Vx ^= Vy`.
    fn _8xy3(&mut self, x: u8, y: u8)
        requires
            old(self).wf(),
            x < 16,
            y < 16,
        ensures
            final(self).wf(),
            final(self)@ == op_8xy3(old(self)@, x as int, y as int),
    {
        let v = self.registers[x as usize] ^ self.registers[y as usize];
        self.registers.set(x as usize, v);
    }

    /// `Vx += Vy` with the carry flag.
    fn _8xy4(&mut self, x: u8, y: u8)
        requires
            old(self).wf(),
            x < 16,
            y < 16,
        ensures
            final(self).wf(),
            final(self)@ == op_8xy4(old(self)@, x as int, y as int),
    {
        let sum = self.registers[x as usize] as u16 + self.registers[y as usize] as u16;
        let flag: u8 = if sum > 255 {
            1
        } else {
            0
        };
        self.registers.set(15, flag);
        self.registers.set(x as usize, (sum % 256) as u8);
    }

    /// `Vx -= Vy` with the borrow flag.
    fn _8xy5(&mut self, x: u8, y: u8)
        requires
            old(self).wf(),
            x < 16,
            y < 16,
        ensures
            final(self).wf(),
            final(self)@ == op_8xy5(old(self)@, x as int, y as int),
    {
        let vx = self.registers[x as usize];
        let vy = self.registers[y as usize];
        let flag: u8 = if vx < vy {
            0
        } else {
            1
        };
        let diff = (vx as u16 + 256 - vy as u16) % 256;
        self.registers.set(15, flag);
        self.registers.set(x as usize, diff as u8);
    }

    /// `VF = Vx & 1`, then `Vx >>= 1`.
    fn _8xy6(&mut self, x: u8)
        requires
            old(self).wf(),
            x < 16,
        ensures
            final(self).wf(),
            final(self)@ == op_8xy6(old(self)@, x as int),
    {
        let low = self.registers[x as usize] & 1;
        self.registers.set(15, low);
        let cur = self.registers[x as usize];
        self.registers.set(x as usize, cur / 2);
    }

    /// `Vx = Vy - Vx` with the borrow flag.
    fn _8xy7(&mut self, x: u8, y: u8)
        requires
            old(self).wf(),
            x < 16,
            y < 16,
        ensures
            final(self).wf(),
            final(self)@ == op_8xy7(old(self)@, x as int, y as int),
    {
        let vx = self.registers[x as usize];
        let vy = self.registers[y as usize];
        let flag: u8 = if vy < vx {
            0
        } else {
            1
        };
        let diff = (vy as u16 + 256 - vx as u16) % 256;
        self.registers.set(15, flag);
        self.registers.set(x as usize, diff as u8);
    }

    /// `VF = ` high bit of `Vx` (as 0 or 1), then `Vx <<= 1`.
    fn _8xye(&mut self, x: u8)
        requires
            old(self).wf(),
            x < 16,
        ensures
            final(self).wf(),
            final(self)@ == op_8xye(old(self)@, x as int),
    {
        let high = self.registers[x as usize] / 128;
        self.registers.set(15, high);
        let cur = self.registers[x as usize];
        let doubled = (cur as u16 + cur as u16) % 256;
        self.registers.set(x as usize, doubled as u8);
    }

    /// Skip the next instruction when `Vx != Vy`.
    fn _9xy0(&mut self, x: u8, y: u8)
        requires
            old(self).wf(),
            x < 16,
            y < 16,
            old(self)@.pc <= 4098,
        ensures
            final(self).wf(),
            final(self)@ == op_9xy0(old(self)@, x as int, y as int),
    {
        if self.registers[x as usize] != self.registers[y as usize] {
            self.skip_next_instruction();
        }
    }

    /// `I = NNN`.
    fn _annn(&mut self, nnn: u16)
        requires
            old(self).wf(),
        ensures
            final(self).wf(),
            final(self)@ == op_annn(old(self)@, nnn),
    {
        self.index_register = nnn;
    }

    /// Jump to `V0 + NNN`.
    fn _bnnn(&mut self, nnn: u16)
        requires
            old(self).wf(),
            nnn < 0x1000,
        ensures
            final(self).wf(),
            final(self)@ == op_bnnn(old(self)@, nnn),
    {
        self.program_counter = self.registers[0] as u16 + nnn;
    }

    /// `Vx = random byte & NN`.
    fn _cxnn(&mut self, x: u8, nn: u8)
        requires
            old(self).wf(),
            x < 16,
        ensures
            final(self).wf(),
            exists|rnd: u8| final(self)@ == op_cxnn(old(self)@, x as int, nn, rnd),
    {
        let rnd = random_byte();
        self.registers.set(x as usize, rnd & nn);
        proof {
            assert(self@ == op_cxnn(old(self)@, x as int, nn, rnd));
        }
    }

    /// XOR-draw the sprite at `memory[I..I+N]` at `(Vx, Vy)`, wrapping
    /// in both axes; `VF` records whether any lit pixel was erased.
    fn _dxyn(&mut self, x: u8, y: u8, n: u8)
        requires
            old(self).wf(),
            x < 16,
            y < 16,
            n < 16,
            old(self)@.index + n <= 4096,
        ensures
            final(self).wf(),
            final(self)@ == op_dxyn(old(self)@, x as int, y as int, n as int),
    {
        let ghost fb0 = old(self)@.fb;
        let vx = self.registers[x as usize];
        let vy = self.registers[y as usize];
        let idx = self.index_register as usize;
        let ghost sprite = old(self)@.mem.subrange(idx as int, idx as int + n);
        proof {
            assert(sprite.len() == n);
        }
        self.registers.set(15, 0);
        proof {
            assert(self@.regs =~= old(self)@.regs.update(
                15,
                if collision_upto(fb0, sprite, vx, vy, 0, 0) {
                    1u8
                } else {
                    0u8
                },
            ));
        }
        let mut j: usize = 0;
        while j < n as usize
            invariant
                old(self).wf(),
                x < 16,
                y < 16,
                n < 16,
                old(self)@.index + n <= 4096,
                fb0 == old(self)@.fb,
                vx == old(self)@.regs[x as int],
                vy == old(self)@.regs[y as int],
                idx == old(self)@.index,
                sprite == old(self)@.mem.subrange(idx as int, idx as int + n),
                sprite.len() == n,
                j <= n as usize,
                self@ == (EmuView { fb: self@.fb, regs: self@.regs, ..old(self)@ }),
                self@.fb.len() == 2048,
                forall|p: int|
                    0 <= p < 2048 ==> #[trigger] self@.fb[p] == cell_after_partial(
                        fb0,
                        sprite,
                        vx,
                        vy,
                        j as int,
                        0,
                        p,
                    ),
                self@.regs == old(self)@.regs.update(
                    15,
                    if collision_upto(fb0, sprite, vx, vy, j as int, 0) {
                        1u8
                    } else {
                        0u8
                    },
                ),
            decreases n as usize - j,
        {
            let row = self.memory[idx + j];
            proof {
                assert(row == sprite[j as int]);
            }
            let mut i: usize = 0;
            while i < 8
                invariant
                    old(self).wf(),
                    x < 16,
                    y < 16,
                    n < 16,
                    old(self)@.index + n <= 4096,
                    fb0 == old(self)@.fb,
                    vx == old(self)@.regs[x as int],
                    vy == old(self)@.regs[y as int],
                    idx == old(self)@.index,
                    sprite == old(self)@.mem.subrange(idx as int, idx as int + n),
                    sprite.len() == n,
                    j < n as usize,
                    row == sprite[j as int],
                    i <= 8,
                    self@ == (EmuView { fb: self@.fb, regs: self@.regs, ..old(self)@ }),
                    self@.fb.len() == 2048,
                    forall|p: int|
                        0 <= p < 2048 ==> #[trigger] self@.fb[p] == cell_after_partial(
                            fb0,
                            sprite,
                            vx,
                            vy,
                            j as int,
                            i as int,
                            p,
                        ),
                    self@.regs == old(self)@.regs.update(
                        15,
                        if collision_upto(fb0, sprite, vx, vy, j as int, i as int) {
                            1u8
                        } else {
                            0u8
                        },
                    ),
                decreases 8 - i,
            {
                let yy = (vy as usize + j) % 32;
                let xx = (vx as usize + i) % 64;
                let sh: u8 = (7 - i) as u8;
                let bit = (row >> sh) & 1;
                proof {
                    lemma_offset_round(vx, i as int, 64);
                    lemma_offset_round(vy, j as int, 32);
                    assert(col_off(vx, xx as int) == i as int);
                    assert(row_off(vy, yy as int) == j as int);
                }
                if bit == 1 {
                    let p = yy * 64 + xx;
                    proof {
                        vstd::arithmetic::div_mod::lemma_fundamental_div_mod_converse(
                            p as int,
                            64,
                            yy as int,
                            xx as int,
                        );
                        assert(bit_of(sprite[j as int], i as u8));
                        assert(cell_after_partial(fb0, sprite, vx, vy, j as int, i as int, p as int)
                            == fb0[p as int]);
                        assert(self@.fb[p as int] == fb0[p as int]);
                        assert(fb_index((vx + i as int) % 64, (vy + j as int) % 32) == p as int);
                    }
                    let ghost fb_prev = self@.fb;
                    let cur = self.gfx[p];
                    proof {
                        assert(old(self)@.fb[p as int] <= 1);
                        assert(cur <= 1);
                    }
                    if cur == 1 {
                        self.registers.set(15, 1);
                        proof {
                            assert(self@.regs =~= old(self)@.regs.update(15, 1u8));
                            assert(fb0[fb_index((vx + i as int) % 64, (vy + j as int) % 32)] == 1);
                            assert(collision_upto(fb0, sprite, vx, vy, j as int, i as int + 1));
                        }
                    } else {
                        proof {
                            if collision_upto(fb0, sprite, vx, vy, j as int, i as int + 1) {
                                let (jj, ii) = choose|jj: int, ii: int|
                                    0 <= jj < sprite.len() && 0 <= ii < 8 && (jj < j as int || (jj
                                        == j as int && ii < i as int + 1)) && #[trigger] bit_of(
                                        sprite[jj],
                                        ii as u8,
                                    ) && fb0[fb_index((vx + ii) % 64, (vy + jj) % 32)] == 1;
                                if jj == j as int && ii == i as int {
                                    assert(fb0[p as int] == 1);
                                    assert(false);
                                }
                                assert(collision_upto(fb0, sprite, vx, vy, j as int, i as int));
                            }
                            if collision_upto(fb0, sprite, vx, vy, j as int, i as int) {
                                let (jj, ii) = choose|jj: int, ii: int|
                                    0 <= jj < sprite.len() && 0 <= ii < 8 && (jj < j as int || (jj
                                        == j as int && ii < i as int)) && #[trigger] bit_of(
                                        sprite[jj],
                                        ii as u8,
                                    ) && fb0[fb_index((vx + ii) % 64, (vy + jj) % 32)] == 1;
                                assert(collision_upto(fb0, sprite, vx, vy, j as int, i as int + 1));
                            }
                        }
                    }
                    self.gfx.set(p, 1 - cur);
                    proof {
                        assert forall|q: int| 0 <= q < 2048 implies #[trigger] self@.fb[q]
                            == cell_after_partial(
                            fb0,
                            sprite,
                            vx,
                            vy,
                            j as int,
                            i as int + 1,
                            q,
                        ) by {
                            if q == p as int {
                                assert(self@.fb[q] == 1 - fb0[q]);
                            } else {
                                assert(self@.fb[q] == fb_prev[q]);
                                let cqi = col_off(vx, q % 64);
                                let cqj = row_off(vy, q / 64);
                                if cqi == i as int && cqj == j as int {
                                    lemma_offset_inverse(vx, q % 64, 64);
                                    lemma_offset_inverse(vy, q / 64, 32);
                                    vstd::arithmetic::div_mod::lemma_fundamental_div_mod(q, 64);
                                    assert(q % 64 == xx as int);
                                    assert(q / 64 == yy as int);
                                    assert(q == p as int);
                                    assert(false);
                                }
                            }
                        }
                    }
                } else {
                    proof {
                        assert(!bit_of(sprite[j as int], i as u8));
                        assert forall|q: int| 0 <= q < 2048 implies #[trigger] self@.fb[q]
                            == cell_after_partial(
                            fb0,
                            sprite,
                            vx,
                            vy,
                            j as int,
                            i as int + 1,
                            q,
                        ) by {
                            let cqi = col_off(vx, q % 64);
                            let cqj = row_off(vy, q / 64);
                            if cqi == i as int && cqj == j as int {
                                assert(!bit_of(sprite[cqj], cqi as u8));
                            }
                        }
                        if collision_upto(fb0, sprite, vx, vy, j as int, i as int + 1) {
                            let (jj, ii) = choose|jj: int, ii: int|
                                0 <= jj < sprite.len() && 0 <= ii < 8 && (jj < j as int || (jj == j
                                    as int && ii < i as int + 1)) && #[trigger] bit_of(
                                    sprite[jj],
                                    ii as u8,
                                ) && fb0[fb_index((vx + ii) % 64, (vy + jj) % 32)] == 1;
                            if jj == j as int && ii == i as int {
                                assert(false);
                            }
                            assert(collision_upto(fb0, sprite, vx, vy, j as int, i as int));
                        }
                        if collision_upto(fb0, sprite, vx, vy, j as int, i as int) {
                            let (jj, ii) = choose|jj: int, ii: int|
                                0 <= jj < sprite.len() && 0 <= ii < 8 && (jj < j as int || (jj == j
                                    as int && ii < i as int)) && #[trigger] bit_of(
                                    sprite[jj],
                                    ii as u8,
                                ) && fb0[fb_index((vx + ii) % 64, (vy + jj) % 32)] == 1;
                            assert(collision_upto(fb0, sprite, vx, vy, j as int, i as int + 1));
                        }
                    }
                }
                i += 1;
            }
            proof {
                assert forall|q: int| 0 <= q < 2048 implies #[trigger] self@.fb[q]
                    == cell_after_partial(fb0, sprite, vx, vy, j as int + 1, 0, q) by {
                    assert(self@.fb[q] == cell_after_partial(fb0, sprite, vx, vy, j as int, 8, q));
                }
                if collision_upto(fb0, sprite, vx, vy, j as int + 1, 0) {
                    let (jj, ii) = choose|jj: int, ii: int|
                        0 <= jj < sprite.len() && 0 <= ii < 8 && (jj < j as int + 1 || (jj == j
                            as int + 1 && ii < 0)) && #[trigger] bit_of(sprite[jj], ii as u8)
                            && fb0[fb_index((vx + ii) % 64, (vy + jj) % 32)] == 1;
                    assert(collision_upto(fb0, sprite, vx, vy, j as int, 8));
                }
                if collision_upto(fb0, sprite, vx, vy, j as int, 8) {
                    let (jj, ii) = choose|jj: int, ii: int|
                        0 <= jj < sprite.len() && 0 <= ii < 8 && (jj < j as int || (jj == j as int
                            && ii < 8)) && #[trigger] bit_of(sprite[jj], ii as u8) && fb0[fb_index(
                            (vx + ii) % 64,
                            (vy + jj) % 32,
                        )] == 1;
                    assert(collision_upto(fb0, sprite, vx, vy, j as int + 1, 0));
                }
            }
            j += 1;
        }
        proof {
            let target = op_dxyn(old(self)@, x as int, y as int, n as int);
            if collision_upto(fb0, sprite, vx, vy, n as int, 0) {
                let (jj, ii) = choose|jj: int, ii: int|
                    0 <= jj < sprite.len() && 0 <= ii < 8 && (jj < n as int || (jj == n as int && ii
                        < 0)) && #[trigger] bit_of(sprite[jj], ii as u8) && fb0[fb_index(
                        (vx + ii) % 64,
                        (vy + jj) % 32,
                    )] == 1;
                assert(draw_collision(fb0, sprite, vx, vy));
            }
            if draw_collision(fb0, sprite, vx, vy) {
                let (jj, ii) = choose|jj: int, ii: int|
                    0 <= jj < sprite.len() && 0 <= ii < 8 && #[trigger] bit_of(sprite[jj], ii as u8)
                        && fb0[fb_index((vx + ii) % 64, (vy + jj) % 32)] == 1;
                assert(collision_upto(fb0, sprite, vx, vy, n as int, 0));
            }
            assert(self@.fb =~= draw_fb(fb0, sprite, vx, vy));
            assert(self@ =~= target);
        }
    }

    /// Skip the next instruction when the key indexed by `Vx` is pressed.
    fn _ex9e(&mut self, x: u8)
        requires
            old(self).wf(),
            x < 16,
            old(self)@.regs[x as int] < 16,
            old(self)@.pc <= 4098,
        ensures
            final(self).wf(),
            final(self)@ == op_ex9e(old(self)@, x as int),
    {
        let vx = self.registers[x as usize];
        if self.keypad[vx as usize] {
            self.skip_next_instruction();
        }
    }

    /// Skip the next instruction when the key indexed by `Vx` is up.
    fn _exa1(&mut self, x: u8)
        requires
            old(self).wf(),
            x < 16,
            old(self)@.regs[x as int] < 16,
            old(self)@.pc <= 4098,
        ensures
            final(self).wf(),
            final(self)@ == op_exa1(old(self)@, x as int),
    {
        let vx = self.registers[x as usize];
        if !self.keypad[vx as usize] {
            self.skip_next_instruction();
        }
    }

    /// `Vx = delay timer`.
    fn _fx07(&mut self, x: u8)
        requires
            old(self).wf(),
            x < 16,
        ensures
            final(self).wf(),
            final(self)@ == op_fx07(old(self)@, x as int),
    {
        let d = self.delay_timer;
        self.registers.set(x as usize, d);
    }

    /// Busy-wait for the key indexed by `Vx`.
    fn _fx0a(&mut self, x: u8)
        requires
            old(self).wf(),
            x < 16,
            old(self)@.regs[x as int] < 16,
            4 <= old(self)@.pc,
        ensures
            final(self).wf(),
            final(self)@ == op_fx0a(old(self)@, x as int),
    {
        let vx = self.registers[x as usize];
        if !self.keypad[vx as usize] {
            self.program_counter = self.program_counter - 4;
        }
    }

    /// `delay timer = Vx`.
    fn _fx15(&mut self, x: u8)
        requires
            old(self).wf(),
            x < 16,
        ensures
            final(self).wf(),
            final(self)@ == op_fx15(old(self)@, x as int),
    {
        self.delay_timer = self.registers[x as usize];
    }

    /// `sound timer = Vx`.
    fn _fx18(&mut self, x: u8)
        requires
            old(self).wf(),
            x < 16,
        ensures
            final(self).wf(),
            final(self)@ == op_fx18(old(self)@, x as int),
    {
        self.sound_timer = self.registers[x as usize];
    }

    /// `I += Vx`, wrapping at 16 bits.
    fn _fx1e(&mut self, x: u8)
        requires
            old(self).wf(),
            x < 16,
        ensures
            final(self).wf(),
            final(self)@ == op_fx1e(old(self)@, x as int),
    {
        let sum = self.index_register as u32 + self.registers[x as usize] as u32;
        self.index_register = (sum % 0x10000) as u16;
    }

    /// `I = Vx * 5`.
    fn _fx29(&mut self, x: u8)
        requires
            old(self).wf(),
            x < 16,
        ensures
            final(self).wf(),
            final(self)@ == op_fx29(old(self)@, x as int),
    {
        self.index_register = self.registers[x as usize] as u16 * 5;
    }

    /// Store the decimal digits of `Vx` at `I`, `I+1`, `I+2`.
    fn _fx33(&mut self, x: u8)
        requires
            old(self).wf(),
            x < 16,
            old(self)@.index + 2 < 4096,
        ensures
            final(self).wf(),
            final(self)@ == op_fx33(old(self)@, x as int),
    {
        let vx = self.registers[x as usize];
        let idx = self.index_register as usize;
        self.memory.set(idx, vx / 100);
        self.memory.set(idx + 1, (vx / 10) % 10);
        self.memory.set(idx + 2, vx % 10);
    }

    /// Dump `V0..=Vx` into memory starting at `I`.
    fn _fx55(&mut self, x: u8)
        requires
            old(self).wf(),
            x < 16,
            old(self)@.index + x < 4096,
        ensures
            final(self).wf(),
            final(self)@ == op_fx55(old(self)@, x as int),
    {
        let idx = self.index_register as usize;
        let mut i: usize = 0;
        while i <= x as usize
            invariant
                old(self).wf(),
                x < 16,
                old(self)@.index + x < 4096,
                idx == old(self)@.index,
                i <= x + 1,
                self@ == (EmuView { mem: self@.mem, ..old(self)@ }),
                self@.mem.len() == 4096,
                forall|k: int| idx <= k < idx + i ==> self@.mem[k] == old(self)@.regs[k - idx],
                forall|k: int|
                    0 <= k < 4096 && !(idx <= k < idx + i) ==> self@.mem[k] == old(self)@.mem[k],
            decreases x + 1 - i,
        {
            let v = self.registers[i];
            self.memory.set(idx + i, v);
            i += 1;
        }
        proof {
            assert(self@.mem =~= op_fx55(old(self)@, x as int).mem);
            assert(self@ =~= op_fx55(old(self)@, x as int));
        }
    }

    /// Load `V0..=Vx` from memory starting at `I`.
    fn _fx65(&mut self, x: u8)
        requires
            old(self).wf(),
            x < 16,
            old(self)@.index + x < 4096,
        ensures
            final(self).wf(),
            final(self)@ == op_fx65(old(self)@, x as int),
    {
        let idx = self.index_register as usize;
        let mut i: usize = 0;
        while i <= x as usize
            invariant
                old(self).wf(),
                x < 16,
                old(self)@.index + x < 4096,
                idx == old(self)@.index,
                i <= x + 1,
                self@ == (EmuView { regs: self@.regs, ..old(self)@ }),
                self@.regs.len() == 16,
                forall|k: int| 0 <= k < i ==> self@.regs[k] == old(self)@.mem[idx + k],
                forall|k: int| i <= k < 16 ==> self@.regs[k] == old(self)@.regs[k],
            decreases x + 1 - i,
        {
            let v = self.memory[idx + i];
            self.registers.set(i, v);
            i += 1;
        }
        proof {
            assert(self@.regs =~= op_fx65(old(self)@, x as int).regs);
            assert(self@ =~= op_fx65(old(self)@, x as int));
        }
    }

    /// Test, without touching anything, whether executing `op` in the
    /// current state would commit a bounds violation.
    fn check_opcode(&self, op: &OpCode) -> (r: Option<FaultKind>)
        requires
            self.wf(),
            op.wf(),
        ensures
            r == opcode_fault(self@, *op),
    {
        match (op.first, op.second, op.third, op.fourth) {
            (0, 0, 0xE, 0xE) => if self.stack_pointer == 0 {
                Some(FaultKind::StackUnderflow)
            } else {
                None
            },
            (2, _, _, _) => if self.stack_pointer == 16 {
                Some(FaultKind::StackOverflow)
            } else {
                None
            },
            (0xD, _, _, _) => if self.index_register as usize + op.fourth as usize > 4096 {
                Some(FaultKind::MemoryOutOfBounds)
            } else {
                None
            },
            (0xE, _, 9, 0xE) => if self.registers[op.second as usize] >= 16 {
                Some(FaultKind::KeyOutOfBounds)
            } else {
                None
            },
            (0xE, _, 0xA, 1) => if self.registers[op.second as usize] >= 16 {
                Some(FaultKind::KeyOutOfBounds)
            } else {
                None
            },
            (0xF, _, 0, 0xA) => if self.registers[op.second as usize] >= 16 {
                Some(FaultKind::KeyOutOfBounds)
            } else {
                None
            },
            (0xF, _, 3, 3) => if self.index_register as usize + 2 >= 4096 {
                Some(FaultKind::MemoryOutOfBounds)
            } else {
                None
            },
            (0xF, _, 5, 5) => if self.index_register as usize + op.second as usize >= 4096 {
                Some(FaultKind::MemoryOutOfBounds)
            } else {
                None
            },
            (0xF, _, 6, 5) => if self.index_register as usize + op.second as usize >= 4096 {
                Some(FaultKind::MemoryOutOfBounds)
            } else {
                None
            },
            _ => None,
        }
    }

    /// Dispatch one decoded, fault-free instruction to its handler. The
    /// program counter has already been advanced past the fetched
    /// instruction and once more, as every handler expects.
    fn process_opcode(&mut self, op: &OpCode)
        requires
            old(self).wf(),
            op.wf(),
            opcode_fault(old(self)@, *op) is None,
            4 <= old(self)@.pc <= 4098,
        ensures
            final(self).wf(),
            exists|rnd: u8| final(self)@ == exec_opcode(old(self)@, *op, rnd),
    {
        match (op.first, op.second, op.third, op.fourth) {
            (0, 0, 0xE, 0) => {
                self._00e0();
                proof {
                    assert(self@ == exec_opcode(old(self)@, *op, 0u8));
                }
            },
            (0, 0, 0xE, 0xE) => {
                self._00ee();
                proof {
                    assert(self@ == exec_opcode(old(self)@, *op, 0u8));
                }
            },
            (0, _, _, _) => {
                self._0nnn();
                proof {
                    assert(self@ == exec_opcode(old(self)@, *op, 0u8));
                }
            },
            (1, _, _, _) => {
                let nnn = op.get_nnn();
                self._1nnn(nnn);
                proof {
                    assert(self@ == exec_opcode(old(self)@, *op, 0u8));
                }
            },
            (2, _, _, _) => {
                let nnn = op.get_nnn();
                self._2nnn(nnn);
                proof {
                    assert(self@ == exec_opcode(old(self)@, *op, 0u8));
                }
            },
            (3, _, _, _) => {
                let nn = op.get_nn();
                self._3xnn(op.second, nn);
                proof {
                    assert(self@ == exec_opcode(old(self)@, *op, 0u8));
                }
            },
            (4, _, _, _) => {
                let nn = op.get_nn();
                self._4xnn(op.second, nn);
                proof {
                    assert(self@ == exec_opcode(old(self)@, *op, 0u8));
                }
            },
            (5, _, _, 0) => {
                self._5xy0(op.second, op.third);
                proof {
                    assert(self@ == exec_opcode(old(self)@, *op, 0u8));
                }
            },
            (6, _, _, _) => {
                let nn = op.get_nn();
                self._6xnn(op.second, nn);
                proof {
                    assert(self@ == exec_opcode(old(self)@, *op, 0u8));
                }
            },
            (7, _, _, _) => {
                let nn = op.get_nn();
                self._7xnn(op.second, nn);
                proof {
                    assert(self@ == exec_opcode(old(self)@, *op, 0u8));
                }
            },
            (8, _, _, 0) => {
                self._8xy0(op.second, op.third);
                proof {
                    assert(self@ == exec_opcode(old(self)@, *op, 0u8));
                }
            },
            (8, _, _, 1) => {
                self._8xy1(op.second, op.third);
                proof {
                    assert(self@ == exec_opcode(old(self)@, *op, 0u8));
                }
            },
            (8, _, _, 2) => {
                self._8xy2(op.second, op.third);
                proof {
                    assert(self@ == exec_opcode(old(self)@, *op, 0u8));
                }
            },
            (8, _, _, 3) => {
                self._8xy3(op.second, op.third);
                proof {
                    assert(self@ == exec_opcode(old(self)@, *op, 0u8));
                }
            },
            (8, _, _, 4) => {
                self._8xy4(op.second, op.third);
                proof {
                    assert(self@ == exec_opcode(old(self)@, *op, 0u8));
                }
            },
            (8, _, _, 5) => {
                self._8xy5(op.second, op.third);
                proof {
                    assert(self@ == exec_opcode(old(self)@, *op, 0u8));
                }
            },
            (8, _, _, 6) => {
                self._8xy6(op.second);
                proof {
                    assert(self@ == exec_opcode(old(self)@, *op, 0u8));
                }
            },
            (8, _, _, 7) => {
                self._8xy7(op.second, op.third);
                proof {
                    assert(self@ == exec_opcode(old(self)@, *op, 0u8));
                }
            },
            (8, _, _, 0xE) => {
                self._8xye(op.second);
                proof {
                    assert(self@ == exec_opcode(old(self)@, *op, 0u8));
                }
            },
            (9, _, _, 0) => {
                self._9xy0(op.second, op.third);
                proof {
                    assert(self@ == exec_opcode(old(self)@, *op, 0u8));
                }
            },
            (0xA, _, _, _) => {
                let nnn = op.get_nnn();
                self._annn(nnn);
                proof {
                    assert(self@ == exec_opcode(old(self)@, *op, 0u8));
                }
            },
            (0xB, _, _, _) => {
                let nnn = op.get_nnn();
                self._bnnn(nnn);
                proof {
                    assert(self@ == exec_opcode(old(self)@, *op, 0u8));
                }
            },
            (0xC, _, _, _) => {
                let nn = op.get_nn();
                self._cxnn(op.second, nn);
                proof {
                    let rnd = choose|rnd: u8|
                        self@ == #[trigger] op_cxnn(
                            old(self)@,
                            op.second as int,
                            (op.third * 16 + op.fourth) as u8,
                            rnd,
                        );
                    assert(self@ == exec_opcode(old(self)@, *op, rnd));
                }
            },
            (0xD, _, _, _) => {
                self._dxyn(op.second, op.third, op.fourth);
                proof {
                    assert(self@ == exec_opcode(old(self)@, *op, 0u8));
                }
            },
            (0xE, _, 9, 0xE) => {
                self._ex9e(op.second);
                proof {
                    assert(self@ == exec_opcode(old(self)@, *op, 0u8));
                }
            },
            (0xE, _, 0xA, 1) => {
                self._exa1(op.second);
                proof {
                    assert(self@ == exec_opcode(old(self)@, *op, 0u8));
                }
            },
            (0xF, _, 0, 7) => {
                self._fx07(op.second);
                proof {
                    assert(self@ == exec_opcode(old(self)@, *op, 0u8));
                }
            },
            (0xF, _, 0, 0xA) => {
                self._fx0a(op.second);
                proof {
                    assert(self@ == exec_opcode(old(self)@, *op, 0u8));
                }
            },
            (0xF, _, 1, 5) => {
                self._fx15(op.second);
                proof {
                    assert(self@ == exec_opcode(old(self)@, *op, 0u8));
                }
            },
            (0xF, _, 1, 8) => {
                self._fx18(op.second);
                proof {
                    assert(self@ == exec_opcode(old(self)@, *op, 0u8));
                }
            },
            (0xF, _, 1, 0xE) => {
                self._fx1e(op.second);
                proof {
                    assert(self@ == exec_opcode(old(self)@, *op, 0u8));
                }
            },
            (0xF, _, 2, 9) => {
                self._fx29(op.second);
                proof {
                    assert(self@ == exec_opcode(old(self)@, *op, 0u8));
                }
            },
            (0xF, _, 3, 3) => {
                self._fx33(op.second);
                proof {
                    assert(self@ == exec_opcode(old(self)@, *op, 0u8));
                }
            },
            (0xF, _, 5, 5) => {
                self._fx55(op.second);
                proof {
                    assert(self@ == exec_opcode(old(self)@, *op, 0u8));
                }
            },
            (0xF, _, 6, 5) => {
                self._fx65(op.second);
                proof {
                    assert(self@ == exec_opcode(old(self)@, *op, 0u8));
                }
            },
            _ => {
                proof {
                    assert(self@ == exec_opcode(old(self)@, *op, 0u8));
                }
            },
        }
    }

    /// Run one full machine cycle: fetch, decode, execute, then count
    /// the timers down. On success the returned flag reports the
    /// one-shot beep; a bounds fault is reported instead and leaves the
    /// machine exactly as it was.
    pub fn emulator_cycle(&mut self) -> (r: Result<bool, ExecError>)
        requires
            old(self).wf(),
        ensures
            final(self).wf(),
            match r {
                Ok(beep) => {
                    &&& step_fault(old(self)@) is None
                    &&& exists|rnd: u8|
                        final(self)@ == cycle_post(old(self)@, rnd) && beep == cycle_beep(
                            old(self)@,
                            rnd,
                        )
                },
                Err(e) => {
                    &&& step_fault(old(self)@) == Some(e)
                    &&& final(self)@ == old(self)@
                },
            },
    {
        let pc = self.program_counter;
        if pc > 4094 {
            return Err(
                ExecError { addr: pc, opcode: 0, kind: FaultKind::ProgramCounterOutOfBounds },
            );
        }
        let op = self.fetch_opcode();
        proof {
            lemma_split_merge_round_trip(fetch_word(self@));
        }
        match self.check_opcode(&op) {
            Some(kind) => {
                let w = op.merged_opcode();
                return Err(ExecError { addr: pc, opcode: w, kind });
            },
            None => {},
        }
        self.program_counter = pc + 4;
        proof {
            assert(self@ == advance4(old(self)@));
        }
        self.process_opcode(&op);
        let ghost mid = self@;
        let beep = self.update_timer();
        proof {
            let rnd = choose|rnd: u8| mid == exec_opcode(advance4(old(self)@), op, rnd);
            assert(self@ == cycle_post(old(self)@, rnd));
            assert(beep == cycle_beep(old(self)@, rnd));
        }
        Ok(beep)
    }

    /// Count both timers down and report the one-shot beep, which fires
    /// exactly when the sound timer goes from 1 to 0.
    fn update_timer(&mut self) -> (beep: bool)
        requires
            old(self).wf(),
        ensures
            final(self).wf(),
            final(self)@ == tick_view(old(self)@),
            beep == (old(self)@.sound == 1),
    {
        if self.delay_timer > 0 {
            self.delay_timer = self.delay_timer - 1;
        }
        let beep = self.sound_timer == 1;
        if self.sound_timer > 0 {
            self.sound_timer = self.sound_timer - 1;
        }
        beep
    }

    /// Press or release one key of the 16-key keypad.
    pub fn set_key(&mut self, key: usize, pressed: bool)
        requires
            old(self).wf(),
            key < 16,
        ensures
            final(self).wf(),
            final(self)@ == (EmuView {
                keys: old(self)@.keys.update(key as int, pressed),
                ..old(self)@
            }),
    {
        self.keypad.set(key, pressed);
    }

    /// The framebuffer: one byte per pixel, 0 or 1, row-major, 64 wide.
    pub fn framebuffer(&self) -> (r: &Vec<u8>)
        ensures
            r@ == self@.fb,
    {
        &self.gfx
    }

    /// The pixel at column `x`, row `y`.
    pub fn pixel(&self, x: usize, y: usize) -> (r: u8)
        requires
            self.wf(),
            x < 64,
            y < 32,
        ensures
            r == self@.fb[fb_index(x as int, y as int)],
    {
        self.gfx[y * 64 + x]
    }

    /// The value of register `Vi`.
    pub fn register(&self, i: usize) -> (r: u8)
        requires
            self.wf(),
            i < 16,
        ensures
            r == self@.regs[i as int],
    {
        self.registers[i]
    }

    /// The byte of memory at `addr`.
    pub fn read_memory(&self, addr: usize) -> (r: u8)
        requires
            self.wf(),
            addr < 4096,
        ensures
            r == self@.mem[addr as int],
    {
        self.memory[addr]
    }

    /// The program counter.
    pub fn pc(&self) -> (r: u16)
        ensures
            r == self@.pc,
    {
        self.program_counter
    }

    /// The index register.
    pub fn index(&self) -> (r: u16)
        ensures
            r == self@.index,
    {
        self.index_register
    }

    /// The delay timer.
    pub fn delay(&self) -> (r: u8)
        ensures
            r == self@.delay,
    {
        self.delay_timer
    }

    /// The sound timer.
    pub fn sound(&self) -> (r: u8)
        ensures
            r == self@.sound,
    {
        self.sound_timer
    }

    /// Whether the key at `i` is pressed.
    pub fn key(&self, i: usize) -> (r: bool)
        requires
            self.wf(),
            i < 16,
        ensures
            r == self@.keys[i as int],
    {
        self.keypad[i]
    }
}

/// Relies on rand::random: draws one byte from the thread-local
/// generator; nothing is assumed of the value.
#[verifier::external_body]
fn random_byte() -> u8 {
    rand::random::<u8>()
}

} // verus!
