//! The mathematical model of the interpreter.
//!
//! [`StateView`] is the abstract value of a machine: plain sequences and
//! integers. Every instruction's effect is a spec function from a view to a
//! view (or to a [`Fault`]), and [`spec_cycle`] composes fetch, decode,
//! execute, the uniform program-counter step and the timer tick exactly as
//! the executable cycle does.

use vstd::prelude::*;
use vstd::wrapping::u16_specs;
use vstd::wrapping::u8_specs;

verus! {

/// Number of addressable memory cells.
pub const MEM_SIZE: usize = 4096;
/// Number of framebuffer cells (64 x 32 monochrome pixels).
pub const GFX_SIZE: usize = 2048;
/// Number of general-purpose registers.
pub const NUM_REGS: usize = 16;
/// Maximum call-stack depth.
pub const STACK_LIMIT: usize = 16;
/// First address of the loadable program region.
pub const PROG_START: usize = 0x200;

/// An unrecoverable fault: the machine must not be driven further.
#[derive(Clone, Copy, Debug, PartialEq, Eq, Structural)]
pub enum Fault {
    /// The program counter points past the end of memory at fetch time.
    OutOfBoundsFetch,
    /// A subroutine call would push a seventeenth return address.
    StackOverflow,
    /// A return was executed with no saved return address.
    StackUnderflow,
    /// An instruction addressed a memory cell past the end of memory.
    OutOfBoundsMemory,
    /// A key-skip instruction named a key slot outside 0..16.
    KeyOutOfRange,
}

/// A program buffer was rejected at load time.
#[derive(Clone, Copy, Debug, PartialEq, Eq, Structural)]
pub enum LoadError {
    /// The buffer does not fit between the program start and the end of memory.
    TooLong,
}

/// The abstract value of a machine.
pub ghost struct StateView {
    /// All 4096 memory cells.
    pub mem: Seq<u8>,
    /// The sixteen general-purpose registers V0..VF.
    pub regs: Seq<u8>,
    /// The index register I.
    pub i: u16,
    /// The program counter.
    pub pc: u16,
    /// The 2048 framebuffer cells, each 0 or 1.
    pub gfx: Seq<u8>,
    /// The delay timer.
    pub delay: u8,
    /// The sound timer.
    pub sound: u8,
    /// The return-address stack, most recent call last.
    pub stack: Seq<u16>,
    /// The sixteen key slots.
    pub keys: Seq<u8>,
    /// Set whenever a draw instruction ran; cleared by the caller.
    pub draw_flag: bool,
}

impl StateView {
    /// Well-formedness: the fixed sizes of the data model, the stack bound,
    /// and the framebuffer holding only 0 or 1.
    pub open spec fn wf(self) -> bool {
        &&& self.mem.len() == MEM_SIZE
        &&& self.regs.len() == NUM_REGS
        &&& self.gfx.len() == GFX_SIZE
        &&& self.keys.len() == NUM_REGS
        &&& self.stack.len() <= STACK_LIMIT
        &&& forall|t: int| 0 <= t < GFX_SIZE ==> self.gfx[t] <= 1
    }
}

// ---------------------------------------------------------------------------
// The font table and the reset state
// ---------------------------------------------------------------------------

/// The 80-byte font table: sixteen 4x5-pixel hex digit glyphs, five bytes
/// each, seeded at the bottom of memory on every reset.
pub open spec fn font_table() -> Seq<u8> {
    seq![
        0xF0u8, 0x90, 0x90, 0x90, 0xF0,  // 0
        0x20, 0x60, 0x20, 0x20, 0x70,  // 1
        0xF0, 0x10, 0xF0, 0x80, 0xF0,  // 2
        0xF0, 0x10, 0xF0, 0x10, 0xF0,  // 3
        0x90, 0x90, 0xF0, 0x10, 0x10,  // 4
        0xF0, 0x80, 0xF0, 0x10, 0xF0,  // 5
        0xF0, 0x80, 0xF0, 0x90, 0xF0,  // 6
        0xF0, 0x10, 0x20, 0x40, 0x40,  // 7
        0xF0, 0x90, 0xF0, 0x90, 0xF0,  // 8
        0xF0, 0x90, 0xF0, 0x10, 0xF0,  // 9
        0xF0, 0x90, 0xF0, 0x90, 0x90,  // A
        0xE0, 0x90, 0xE0, 0x90, 0xE0,  // B
        0xF0, 0x80, 0x80, 0x80, 0xF0,  // C
        0xE0, 0x90, 0x90, 0x90, 0xE0,  // D
        0xF0, 0x80, 0xF0, 0x80, 0xF0,  // E
        0xF0, 0x80, 0xF0, 0x80, 0x80,  // F
    ]
}

/// Memory right after a reset: the font table, then zeroes.
pub open spec fn reset_mem() -> Seq<u8> {
    Seq::new(
        MEM_SIZE as nat,
        |t: int| if t < font_table().len() { font_table()[t] } else { 0u8 },
    )
}

/// The machine right after a reset: cleared state, font seeded, the
/// program counter at the program start. The redraw flag is the one piece
/// a reset leaves alone; it stays with the caller to consume.
pub open spec fn reset_view(draw_flag: bool) -> StateView {
    StateView {
        mem: reset_mem(),
        regs: Seq::new(NUM_REGS as nat, |r: int| 0u8),
        i: 0,
        pc: PROG_START as u16,
        gfx: Seq::new(GFX_SIZE as nat, |t: int| 0u8),
        delay: 0,
        sound: 0,
        stack: Seq::empty(),
        keys: Seq::new(NUM_REGS as nat, |k: int| 0u8),
        draw_flag,
    }
}

/// A machine as construction leaves it: everything zero, nothing loaded,
/// the program counter parked at address 0 until the first reset.
pub open spec fn power_on_view() -> StateView {
    StateView {
        mem: Seq::new(MEM_SIZE as nat, |t: int| 0u8),
        regs: Seq::new(NUM_REGS as nat, |r: int| 0u8),
        i: 0,
        pc: 0,
        gfx: Seq::new(GFX_SIZE as nat, |t: int| 0u8),
        delay: 0,
        sound: 0,
        stack: Seq::empty(),
        keys: Seq::new(NUM_REGS as nat, |k: int| 0u8),
        draw_flag: false,
    }
}

/// Memory after a program load: the buffer copied in from the program
/// start, the rest untouched.
pub open spec fn loaded_mem(mem: Seq<u8>, prog: Seq<u8>) -> Seq<u8> {
    Seq::new(
        MEM_SIZE as nat,
        |t: int|
            if PROG_START <= t < PROG_START + prog.len() {
                prog[t - PROG_START]
            } else {
                mem[t]
            },
    )
}

// ---------------------------------------------------------------------------
// Opcode fields
// ---------------------------------------------------------------------------

/// Top nibble: selects the instruction class.
pub open spec fn op_hi(op: u16) -> u16 {
    op >> 12
}

/// Second nibble: the Vx register index.
pub open spec fn op_x(op: u16) -> int {
    ((op >> 8) & 0xF) as int
}

/// Third nibble: the Vy register index.
pub open spec fn op_y(op: u16) -> int {
    ((op >> 4) & 0xF) as int
}

/// Low byte: an immediate operand.
pub open spec fn op_nn(op: u16) -> u8 {
    (op & 0xFF) as u8
}

/// Low three nibbles: an embedded address.
pub open spec fn op_nnn(op: u16) -> u16 {
    op & 0x0FFF
}

/// Low nibble: the arithmetic variant, or a sprite height.
pub open spec fn op_n(op: u16) -> u16 {
    op & 0xF
}

/// The decoded fields stay inside their widths, and the low byte read as a
/// 16-bit value is the low byte.
pub proof fn lemma_op_field_bounds(op: u16)
    by (bit_vector)
    ensures
        op_hi(op) < 16,
        0 <= op_x(op) < 16,
        0 <= op_y(op) < 16,
        op_nn(op) == op & 0xFF,
        op_nnn(op) < 4096,
        op_n(op) < 16,
{
}

/// The two bytes at the program counter, big-endian.
pub open spec fn fetched_op(s: StateView) -> u16 {
    ((s.mem[s.pc as int] as u16) << 8) | (s.mem[s.pc as int + 1] as u16)
}

// ---------------------------------------------------------------------------
// Instruction effects
// ---------------------------------------------------------------------------

/// A conditional skip: the program counter moves one extra instruction.
pub open spec fn skipped(s: StateView) -> StateView {
    StateView { pc: u16_specs::wrapping_add(s.pc, 2), ..s }
}

/// System class (top nibble 0): return, clear screen, or a no-op.
pub open spec fn step_sys(s: StateView, op: u16) -> Result<StateView, Fault> {
    if op_nnn(op) == 0x0EE {
        if s.stack.len() == 0 {
            Err(Fault::StackUnderflow)
        } else {
            Ok(StateView { pc: s.stack.last(), stack: s.stack.drop_last(), ..s })
        }
    } else if op_nnn(op) == 0x0E0 {
        Ok(StateView { gfx: Seq::new(GFX_SIZE as nat, |t: int| 0u8), ..s })
    } else {
        Ok(s)
    }
}

/// Subroutine call: save the call instruction's own address, move to the
/// target. The target is not compensated for the driver's uniform +2 step,
/// so the first instruction executed after a call sits at target + 2.
pub open spec fn step_call(s: StateView, target: u16) -> Result<StateView, Fault> {
    if s.stack.len() >= STACK_LIMIT {
        Err(Fault::StackOverflow)
    } else {
        Ok(StateView { stack: s.stack.push(s.pc), pc: target, ..s })
    }
}

/// Add with carry (arithmetic variant 4): VF reports the unsigned overflow,
/// written before the sum, so VF as a summand reads the flag when x is 15.
pub open spec fn step_add_carry(s: StateView, x: int, y: int) -> StateView {
    let vx = s.regs[x];
    let vy = s.regs[y];
    let carry: u8 = if vx + vy > 255 { 1 } else { 0 };
    let r1 = s.regs.update(15, carry);
    StateView { regs: r1.update(x, u8_specs::wrapping_add(r1[x], vy)), ..s }
}

/// Subtract Vy from Vx (variant 5): VF is the no-borrow flag, written
/// before the difference.
pub open spec fn step_sub_borrow(s: StateView, x: int, y: int) -> StateView {
    let vx = s.regs[x];
    let vy = s.regs[y];
    let no_borrow: u8 = if vy >= vx { 0 } else { 1 };
    let r1 = s.regs.update(15, no_borrow);
    StateView { regs: r1.update(x, u8_specs::wrapping_sub(r1[x], vy)), ..s }
}

/// Reverse subtract (variant 7): Vx receives Vy - Vx from the values read
/// before the flag write.
pub open spec fn step_rsub_borrow(s: StateView, x: int, y: int) -> StateView {
    let vx = s.regs[x];
    let vy = s.regs[y];
    let no_borrow: u8 = if vx >= vy { 0 } else { 1 };
    let r1 = s.regs.update(15, no_borrow);
    StateView { regs: r1.update(x, u8_specs::wrapping_sub(vy, vx)), ..s }
}

/// Shift right by one (variant 6): VF takes the bit shifted out.
pub open spec fn step_shr(s: StateView, x: int) -> StateView {
    let r1 = s.regs.update(15, (s.regs[x] & 1) as u8);
    StateView { regs: r1.update(x, r1[x] >> 1), ..s }
}

/// Shift left by one (variant 0xE): VF takes the raw masked high bit,
/// not normalized to 0 or 1.
pub open spec fn step_shl(s: StateView, x: int) -> StateView {
    let r1 = s.regs.update(15, (s.regs[x] & 0x80) as u8);
    StateView { regs: r1.update(x, r1[x] << 1), ..s }
}

/// Arithmetic class (top nibble 8), dispatched on the low nibble;
/// unassigned variants are no-ops.
pub open spec fn step_alu(s: StateView, op: u16) -> StateView {
    let x = op_x(op);
    let y = op_y(op);
    let k = op_n(op);
    if k == 0x0 {
        StateView { regs: s.regs.update(x, s.regs[y]), ..s }
    } else if k == 0x1 {
        StateView { regs: s.regs.update(x, s.regs[x] | s.regs[y]), ..s }
    } else if k == 0x2 {
        StateView { regs: s.regs.update(x, s.regs[x] & s.regs[y]), ..s }
    } else if k == 0x3 {
        StateView { regs: s.regs.update(x, s.regs[x] ^ s.regs[y]), ..s }
    } else if k == 0x4 {
        step_add_carry(s, x, y)
    } else if k == 0x5 {
        step_sub_borrow(s, x, y)
    } else if k == 0x6 {
        step_shr(s, x)
    } else if k == 0x7 {
        step_rsub_borrow(s, x, y)
    } else if k == 0xE {
        step_shl(s, x)
    } else {
        s
    }
}

// ---------------------------------------------------------------------------
// Sprite drawing
// ---------------------------------------------------------------------------

/// Whether sprite row `yl` (read from memory at I + yl) has its bit `xl`
/// set, most significant bit first.
pub open spec fn sprite_bit(mem: Seq<u8>, i: int, yl: int, xl: int) -> bool {
    mem[i + yl] & (0x80u8 >> xl) != 0
}

/// The framebuffer cell a sprite bit lands on: direct indexing, so a sprite
/// placed near the right edge runs into the next row rather than wrapping.
pub open spec fn pix_index(x: int, y: int, yl: int, xl: int) -> int {
    x + xl + (y + yl) * 64
}

/// Whether any sprite bit of the draw lands on framebuffer cell `t`.
pub open spec fn draw_hits(mem: Seq<u8>, i: int, x: int, y: int, h: int, t: int) -> bool {
    exists|yl: int, xl: int|
        0 <= yl < h && 0 <= xl < 8 && #[trigger] sprite_bit(mem, i, yl, xl) && pix_index(
            x,
            y,
            yl,
            xl,
        ) == t
}

/// The framebuffer after the XOR blit: each cell some sprite bit lands on
/// is flipped, cells past the framebuffer end are clipped. No two sprite
/// bits land on the same cell, so one flip per cell is exact.
pub open spec fn draw_gfx(gfx: Seq<u8>, mem: Seq<u8>, i: int, x: int, y: int, h: int) -> Seq<
    u8,
> {
    Seq::new(
        GFX_SIZE as nat,
        |t: int| if draw_hits(mem, i, x, y, h, t) { gfx[t] ^ 1 } else { gfx[t] },
    )
}

/// Whether the blit turns any set pixel off: some sprite bit lands inside
/// the framebuffer on a cell that already holds 1.
pub open spec fn draw_collision(gfx: Seq<u8>, mem: Seq<u8>, i: int, x: int, y: int, h: int) -> bool {
    exists|yl: int, xl: int|
        0 <= yl < h && 0 <= xl < 8 && #[trigger] sprite_bit(mem, i, yl, xl)
            && pix_index(x, y, yl, xl) < GFX_SIZE && gfx[pix_index(x, y, yl, xl)] == 1
}

/// Whether blit position (a, b) comes strictly before position (yl, xl) in
/// the row-major order the blit walks.
pub open spec fn blit_before(a: int, b: int, yl: int, xl: int) -> bool {
    a < yl || (a == yl && b < xl)
}

/// Whether some sprite bit strictly before position (yl, xl) lands on
/// framebuffer cell `t`.
pub open spec fn draw_hits_upto(
    mem: Seq<u8>,
    i: int,
    x: int,
    y: int,
    yl: int,
    xl: int,
    t: int,
) -> bool {
    exists|a: int, b: int|
        0 <= a && 0 <= b < 8 && blit_before(a, b, yl, xl) && #[trigger] sprite_bit(mem, i, a, b)
            && pix_index(x, y, a, b) == t
}

/// Whether some sprite bit strictly before position (yl, xl) lands inside
/// the framebuffer on a cell of `gfx` that holds 1.
pub open spec fn collision_upto(
    gfx: Seq<u8>,
    mem: Seq<u8>,
    i: int,
    x: int,
    y: int,
    yl: int,
    xl: int,
) -> bool {
    exists|a: int, b: int|
        0 <= a && 0 <= b < 8 && blit_before(a, b, yl, xl) && #[trigger] sprite_bit(mem, i, a, b)
            && pix_index(x, y, a, b) < GFX_SIZE && gfx[pix_index(x, y, a, b)] == 1
}

/// No two blit positions land on the same framebuffer cell: rows are 64
/// cells apart and bits at most 7, so the cell a position writes has not
/// been touched by any earlier position.
pub proof fn lemma_no_earlier_hit(mem: Seq<u8>, i: int, x: int, y: int, yl: int, xl: int)
    requires
        0 <= x,
        0 <= y,
        0 <= yl,
        0 <= xl < 8,
    ensures
        !draw_hits_upto(mem, i, x, y, yl, xl, pix_index(x, y, yl, xl)),
{
    assert forall|a: int, b: int|
        0 <= a && 0 <= b < 8 && blit_before(a, b, yl, xl) implies pix_index(x, y, a, b)
        != pix_index(x, y, yl, xl) by {
        assert(pix_index(x, y, yl, xl) - pix_index(x, y, a, b) == (yl - a) * 64 + (xl - b));
    }
}

/// Extending the blit order by one position adds exactly that position's
/// own landing cell (and its own collision) to the prefix facts.
pub proof fn lemma_upto_step(
    gfx: Seq<u8>,
    mem: Seq<u8>,
    i: int,
    x: int,
    y: int,
    yl: int,
    xl: int,
    t: int,
)
    requires
        0 <= yl,
        0 <= xl < 8,
    ensures
        draw_hits_upto(mem, i, x, y, yl, xl + 1, t) == (draw_hits_upto(mem, i, x, y, yl, xl, t)
            || (sprite_bit(mem, i, yl, xl) && pix_index(x, y, yl, xl) == t)),
        collision_upto(gfx, mem, i, x, y, yl, xl + 1) == (collision_upto(gfx, mem, i, x, y, yl, xl)
            || (sprite_bit(mem, i, yl, xl) && pix_index(x, y, yl, xl) < GFX_SIZE && gfx[pix_index(
            x,
            y,
            yl,
            xl,
        )] == 1)),
{
    if draw_hits_upto(mem, i, x, y, yl, xl + 1, t) {
        let (a, b) = choose|a: int, b: int|
            0 <= a && 0 <= b < 8 && blit_before(a, b, yl, xl + 1) && #[trigger] sprite_bit(
                mem,
                i,
                a,
                b,
            ) && pix_index(x, y, a, b) == t;
        if a == yl && b == xl {
        } else {
            assert(blit_before(a, b, yl, xl));
        }
    }
    if collision_upto(gfx, mem, i, x, y, yl, xl + 1) {
        let (a, b) = choose|a: int, b: int|
            0 <= a && 0 <= b < 8 && blit_before(a, b, yl, xl + 1) && #[trigger] sprite_bit(
                mem,
                i,
                a,
                b,
            ) && pix_index(x, y, a, b) < GFX_SIZE && gfx[pix_index(x, y, a, b)] == 1;
        if a == yl && b == xl {
        } else {
            assert(blit_before(a, b, yl, xl));
        }
    }
    assert(blit_before(yl, xl, yl, xl + 1));
}

/// Finishing a row is the same prefix as standing at the start of the next.
pub proof fn lemma_upto_row_roll(gfx: Seq<u8>, mem: Seq<u8>, i: int, x: int, y: int, yl: int, t: int)
    ensures
        draw_hits_upto(mem, i, x, y, yl, 8, t) == draw_hits_upto(mem, i, x, y, yl + 1, 0, t),
        collision_upto(gfx, mem, i, x, y, yl, 8) == collision_upto(gfx, mem, i, x, y, yl + 1, 0),
{
    if draw_hits_upto(mem, i, x, y, yl, 8, t) {
        let (a, b) = choose|a: int, b: int|
            0 <= a && 0 <= b < 8 && blit_before(a, b, yl, 8) && #[trigger] sprite_bit(mem, i, a, b)
                && pix_index(x, y, a, b) == t;
        assert(blit_before(a, b, yl + 1, 0));
    }
    if draw_hits_upto(mem, i, x, y, yl + 1, 0, t) {
        let (a, b) = choose|a: int, b: int|
            0 <= a && 0 <= b < 8 && blit_before(a, b, yl + 1, 0) && #[trigger] sprite_bit(
                mem,
                i,
                a,
                b,
            ) && pix_index(x, y, a, b) == t;
        assert(blit_before(a, b, yl, 8));
    }
    if collision_upto(gfx, mem, i, x, y, yl, 8) {
        let (a, b) = choose|a: int, b: int|
            0 <= a && 0 <= b < 8 && blit_before(a, b, yl, 8) && #[trigger] sprite_bit(mem, i, a, b)
                && pix_index(x, y, a, b) < GFX_SIZE && gfx[pix_index(x, y, a, b)] == 1;
        assert(blit_before(a, b, yl + 1, 0));
    }
    if collision_upto(gfx, mem, i, x, y, yl + 1, 0) {
        let (a, b) = choose|a: int, b: int|
            0 <= a && 0 <= b < 8 && blit_before(a, b, yl + 1, 0) && #[trigger] sprite_bit(
                mem,
                i,
                a,
                b,
            ) && pix_index(x, y, a, b) < GFX_SIZE && gfx[pix_index(x, y, a, b)] == 1;
        assert(blit_before(a, b, yl, 8));
    }
}

/// The whole-blit prefix is the blit itself.
pub proof fn lemma_upto_full(gfx: Seq<u8>, mem: Seq<u8>, i: int, x: int, y: int, h: int, t: int)
    ensures
        draw_hits_upto(mem, i, x, y, h, 0, t) == draw_hits(mem, i, x, y, h, t),
        collision_upto(gfx, mem, i, x, y, h, 0) == draw_collision(gfx, mem, i, x, y, h),
{
    if draw_hits_upto(mem, i, x, y, h, 0, t) {
        let (a, b) = choose|a: int, b: int|
            0 <= a && 0 <= b < 8 && blit_before(a, b, h, 0) && #[trigger] sprite_bit(mem, i, a, b)
                && pix_index(x, y, a, b) == t;
        assert(0 <= a < h);
    }
    if draw_hits(mem, i, x, y, h, t) {
        let (a, b) = choose|a: int, b: int|
            0 <= a < h && 0 <= b < 8 && #[trigger] sprite_bit(mem, i, a, b) && pix_index(
                x,
                y,
                a,
                b,
            ) == t;
        assert(blit_before(a, b, h, 0));
    }
    if collision_upto(gfx, mem, i, x, y, h, 0) {
        let (a, b) = choose|a: int, b: int|
            0 <= a && 0 <= b < 8 && blit_before(a, b, h, 0) && #[trigger] sprite_bit(mem, i, a, b)
                && pix_index(x, y, a, b) < GFX_SIZE && gfx[pix_index(x, y, a, b)] == 1;
        assert(0 <= a < h);
    }
    if draw_collision(gfx, mem, i, x, y, h) {
        let (a, b) = choose|a: int, b: int|
            0 <= a < h && 0 <= b < 8 && #[trigger] sprite_bit(mem, i, a, b) && pix_index(
                x,
                y,
                a,
                b,
            ) < GFX_SIZE && gfx[pix_index(x, y, a, b)] == 1;
        assert(blit_before(a, b, h, 0));
    }
}

/// Flipping the low bit of a cell that holds 0 or 1 gives the other value,
/// and flipping twice restores it.
pub proof fn lemma_xor_one(b: u8)
    by (bit_vector)
    ensures
        b <= 1 ==> (b ^ 1) == 1 - b,
        (b ^ 1) ^ 1 == b,
{
}

/// Draw class (top nibble 0xD): an N-row sprite read from memory at I is
/// XORed onto the framebuffer at (Vx, Vy); VF reports a collision and a
/// redraw is always requested. Reading sprite rows past the end of memory
/// is a fault that leaves the machine unchanged.
pub open spec fn step_draw(s: StateView, op: u16) -> Result<StateView, Fault> {
    let x = s.regs[op_x(op)] as int;
    let y = s.regs[op_y(op)] as int;
    let h = op_n(op) as int;
    if h > 0 && s.i + h > MEM_SIZE {
        Err(Fault::OutOfBoundsMemory)
    } else {
        let collision = draw_collision(s.gfx, s.mem, s.i as int, x, y, h);
        Ok(
            StateView {
                gfx: draw_gfx(s.gfx, s.mem, s.i as int, x, y, h),
                regs: s.regs.update(15, if collision { 1u8 } else { 0u8 }),
                draw_flag: true,
                ..s
            },
        )
    }
}

// ---------------------------------------------------------------------------
// Keys, timers, memory transfer
// ---------------------------------------------------------------------------

/// Key-skip class (top nibble 0xE): skip on key pressed (low byte 0x9E) or
/// not pressed (0xA1), keyed by the slot Vx names; other low bytes are
/// no-ops. A slot index past the key map is a fault.
pub open spec fn step_key(s: StateView, op: u16) -> Result<StateView, Fault> {
    let nn = op_nn(op);
    if nn == 0x9E {
        if s.regs[op_x(op)] >= NUM_REGS {
            Err(Fault::KeyOutOfRange)
        } else {
            Ok(if s.keys[s.regs[op_x(op)] as int] != 0 { skipped(s) } else { s })
        }
    } else if nn == 0xA1 {
        if s.regs[op_x(op)] >= NUM_REGS {
            Err(Fault::KeyOutOfRange)
        } else {
            Ok(if s.keys[s.regs[op_x(op)] as int] == 0 { skipped(s) } else { s })
        }
    } else {
        Ok(s)
    }
}

/// Whether some key slot holds exactly 1, which is what the key-wait
/// instruction looks for.
pub open spec fn some_key_down(keys: Seq<u8>) -> bool {
    exists|k: int| 0 <= k < NUM_REGS && keys[k] == 1
}

/// Memory after a register dump: cells I..=I+x receive V0..=Vx.
pub open spec fn dumped_mem(s: StateView, x: int) -> Seq<u8> {
    Seq::new(
        MEM_SIZE as nat,
        |t: int| if s.i <= t <= s.i + x { s.regs[t - s.i] } else { s.mem[t] },
    )
}

/// Registers after a register load: V0..=Vx receive memory cells I..=I+x.
pub open spec fn loaded_regs(s: StateView, x: int) -> Seq<u8> {
    Seq::new(NUM_REGS as nat, |r: int| if r <= x { s.mem[s.i + r] } else { s.regs[r] })
}

/// Memory after a binary-coded-decimal store of Vx at I, I+1, I+2.
pub open spec fn bcd_mem(s: StateView, x: int) -> Seq<u8> {
    let v = s.regs[x];
    s.mem.update(s.i as int, (v / 100) as u8).update(
        s.i as int + 1,
        ((v % 100) / 10) as u8,
    ).update(s.i as int + 2, (v % 10) as u8)
}

/// Timer/key/transfer class (top nibble 0xF), dispatched on the low byte;
/// unassigned low bytes are no-ops.
pub open spec fn step_misc(s: StateView, op: u16) -> Result<StateView, Fault> {
    let x = op_x(op);
    let nn = op_nn(op);
    if nn == 0x07 {
        Ok(StateView { regs: s.regs.update(x, s.delay), ..s })
    } else if nn == 0x0A {
        // Key wait: rewind so the instruction re-executes until a key slot
        // holds 1; the register then takes that slot's value (always 1),
        // not the key index.
        if some_key_down(s.keys) {
            Ok(StateView { regs: s.regs.update(x, 1u8), ..s })
        } else {
            Ok(StateView { pc: u16_specs::wrapping_sub(s.pc, 2), ..s })
        }
    } else if nn == 0x15 {
        Ok(StateView { delay: s.regs[x], ..s })
    } else if nn == 0x18 {
        Ok(StateView { sound: s.regs[x], ..s })
    } else if nn == 0x1E {
        Ok(StateView { i: u16_specs::wrapping_add(s.i, s.regs[x] as u16), ..s })
    } else if nn == 0x29 {
        Ok(StateView { i: (s.regs[x] * 5) as u16, ..s })
    } else if nn == 0x33 {
        if s.i + 2 >= MEM_SIZE {
            Err(Fault::OutOfBoundsMemory)
        } else {
            Ok(StateView { mem: bcd_mem(s, x), ..s })
        }
    } else if nn == 0x55 {
        if s.i + x >= MEM_SIZE {
            Err(Fault::OutOfBoundsMemory)
        } else {
            Ok(StateView { mem: dumped_mem(s, x), ..s })
        }
    } else if nn == 0x65 {
        if s.i + x >= MEM_SIZE {
            Err(Fault::OutOfBoundsMemory)
        } else {
            Ok(StateView { regs: loaded_regs(s, x), ..s })
        }
    } else {
        Ok(s)
    }
}

// ---------------------------------------------------------------------------
// One instruction, one cycle
// ---------------------------------------------------------------------------

/// The effect of one decoded instruction on the machine, before the
/// driver's uniform program-counter step. `rb` is the byte the random
/// instruction masks; every other instruction ignores it. Undecoded
/// opcodes are no-ops by design, never faults.
pub open spec fn step_op(s: StateView, op: u16, rb: u8) -> Result<StateView, Fault> {
    let hi = op_hi(op);
    let x = op_x(op);
    let y = op_y(op);
    let nn = op_nn(op);
    let nnn = op_nnn(op);
    if hi == 0x0 {
        step_sys(s, op)
    } else if hi == 0x1 {
        // Absolute targets pre-subtract 2 so the uniform +2 lands exactly.
        Ok(StateView { pc: u16_specs::wrapping_sub(nnn, 2), ..s })
    } else if hi == 0x2 {
        step_call(s, nnn)
    } else if hi == 0x3 {
        Ok(if s.regs[x] == nn { skipped(s) } else { s })
    } else if hi == 0x4 {
        Ok(if s.regs[x] != nn { skipped(s) } else { s })
    } else if hi == 0x5 {
        Ok(if s.regs[x] == s.regs[y] { skipped(s) } else { s })
    } else if hi == 0x6 {
        Ok(StateView { regs: s.regs.update(x, nn), ..s })
    } else if hi == 0x7 {
        Ok(StateView { regs: s.regs.update(x, u8_specs::wrapping_add(s.regs[x], nn)), ..s })
    } else if hi == 0x8 {
        Ok(step_alu(s, op))
    } else if hi == 0x9 {
        Ok(if s.regs[x] != s.regs[y] { skipped(s) } else { s })
    } else if hi == 0xA {
        Ok(StateView { i: nnn, ..s })
    } else if hi == 0xB {
        Ok(StateView { pc: u16_specs::wrapping_sub((nnn + s.regs[0]) as u16, 2), ..s })
    } else if hi == 0xC {
        Ok(StateView { regs: s.regs.update(x, rb & nn), ..s })
    } else if hi == 0xD {
        step_draw(s, op)
    } else if hi == 0xE {
        step_key(s, op)
    } else {
        step_misc(s, op)
    }
}

/// The timer tick at the end of a cycle; the tone is requested exactly when
/// the sound timer stands at 1 before its decrement.
pub open spec fn ticked(s: StateView) -> StateView {
    StateView {
        delay: if s.delay > 0 { (s.delay - 1) as u8 } else { s.delay },
        sound: if s.sound > 0 { (s.sound - 1) as u8 } else { s.sound },
        ..s
    }
}

/// One full cycle from view `s` with random byte `rb`: fetch the opcode at
/// the program counter, execute it, apply the uniform +2 step, tick the
/// timers. `Ok` carries the next view and whether a tone is requested.
pub open spec fn spec_cycle(s: StateView, rb: u8) -> Result<(StateView, bool), Fault> {
    if s.pc as int + 1 >= MEM_SIZE {
        Err(Fault::OutOfBoundsFetch)
    } else {
        match step_op(s, fetched_op(s), rb) {
            Err(f) => Err(f),
            Ok(s1) => {
                let s2 = StateView { pc: u16_specs::wrapping_add(s1.pc, 2), ..s1 };
                Ok((ticked(s2), s2.sound == 1))
            },
        }
    }
}

/// What one executable cycle guarantees, given the random byte it drew:
/// on success the machine moves to the cycle's next view, on a fault it is
/// left exactly as it was.
pub open spec fn cycle_post(
    pre: StateView,
    rb: u8,
    post: StateView,
    r: Result<bool, Fault>,
) -> bool {
    match spec_cycle(pre, rb) {
        Ok((s2, beep)) => post == s2 && r == Ok::<bool, Fault>(beep),
        Err(f) => post == pre && r == Err::<bool, Fault>(f),
    }
}

} // verus!
