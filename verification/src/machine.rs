//! The executable machine and its verified operations.

use vstd::prelude::*;

use crate::rng::random_byte;
use crate::semantics::collision_upto;
use crate::semantics::cycle_post;
use crate::semantics::draw_hits_upto;
use crate::semantics::lemma_no_earlier_hit;
use crate::semantics::lemma_upto_full;
use crate::semantics::lemma_upto_row_roll;
use crate::semantics::lemma_upto_step;
use crate::semantics::lemma_xor_one;
use crate::semantics::pix_index;
use crate::semantics::draw_gfx;
use crate::semantics::draw_hits;
use crate::semantics::dumped_mem;
use crate::semantics::fetched_op;
use crate::semantics::font_table;
use crate::semantics::lemma_op_field_bounds;
use crate::semantics::loaded_mem;
use crate::semantics::loaded_regs;
use crate::semantics::power_on_view;
use crate::semantics::reset_mem;
use crate::semantics::reset_view;
use crate::semantics::sprite_bit;
use crate::semantics::step_alu;
use crate::semantics::step_add_carry;
use crate::semantics::step_call;
use crate::semantics::step_draw;
use crate::semantics::step_key;
use crate::semantics::step_misc;
use crate::semantics::step_rsub_borrow;
use crate::semantics::step_shl;
use crate::semantics::step_shr;
use crate::semantics::step_sub_borrow;
use crate::semantics::step_sys;
use crate::semantics::Fault;
use crate::semantics::LoadError;
use crate::semantics::StateView;
use crate::semantics::GFX_SIZE;
use crate::semantics::MEM_SIZE;
use crate::semantics::NUM_REGS;
use crate::semantics::PROG_START;
use crate::semantics::STACK_LIMIT;

verus! {

/// An owned, self-contained interpreter: all architectural state plus the
/// step operation. The caller drives one cycle at a time, pushes key
/// changes in between, and reads the framebuffer when `draw_flag` is set.
pub struct State {
    memory: Vec<u8>,
    v: Vec<u8>,
    i: u16,
    pc: u16,
    gfx: Vec<u8>,
    delay_timer: u8,
    sound_timer: u8,
    stack: Vec<u16>,
    keys: Vec<u8>,
    /// Set by every draw instruction; the caller clears it after redrawing.
    pub draw_flag: bool,
}

impl View for State {
    type V = StateView;

    closed spec fn view(&self) -> StateView {
        StateView {
            mem: self.memory@,
            regs: self.v@,
            i: self.i,
            pc: self.pc,
            gfx: self.gfx@,
            delay: self.delay_timer,
            sound: self.sound_timer,
            stack: self.stack@,
            keys: self.keys@,
            draw_flag: self.draw_flag,
        }
    }
}

/// A vector of `n` zero bytes.
fn zeroed(n: usize) -> (r: Vec<u8>)
    ensures
        r@ == Seq::new(n as nat, |t: int| 0u8),
{
    let mut r: Vec<u8> = Vec::new();
    let mut k: usize = 0;
    while k < n
        invariant
            k <= n,
            r@.len() == k,
            forall|t: int| 0 <= t < k ==> r@[t] == 0u8,
        decreases n - k,
    {
        r.push(0);
        k = k + 1;
    }
    proof {
        assert(r@ =~= Seq::new(n as nat, |t: int| 0u8));
    }
    r
}

/// The font table as an owned vector.
#[verifier::rlimit(100)]
fn font_bytes() -> (r: Vec<u8>)
    ensures
        r@ == font_table(),
{
    let mut f: Vec<u8> = Vec::new();
    f.push(0xF0); f.push(0x90); f.push(0x90); f.push(0x90); f.push(0xF0);
    f.push(0x20); f.push(0x60); f.push(0x20); f.push(0x20); f.push(0x70);
    f.push(0xF0); f.push(0x10); f.push(0xF0); f.push(0x80); f.push(0xF0);
    f.push(0xF0); f.push(0x10); f.push(0xF0); f.push(0x10); f.push(0xF0);
    f.push(0x90); f.push(0x90); f.push(0xF0); f.push(0x10); f.push(0x10);
    f.push(0xF0); f.push(0x80); f.push(0xF0); f.push(0x10); f.push(0xF0);
    f.push(0xF0); f.push(0x80); f.push(0xF0); f.push(0x90); f.push(0xF0);
    f.push(0xF0); f.push(0x10); f.push(0x20); f.push(0x40); f.push(0x40);
    f.push(0xF0); f.push(0x90); f.push(0xF0); f.push(0x90); f.push(0xF0);
    f.push(0xF0); f.push(0x90); f.push(0xF0); f.push(0x10); f.push(0xF0);
    f.push(0xF0); f.push(0x90); f.push(0xF0); f.push(0x90); f.push(0x90);
    f.push(0xE0); f.push(0x90); f.push(0xE0); f.push(0x90); f.push(0xE0);
    f.push(0xF0); f.push(0x80); f.push(0x80); f.push(0x80); f.push(0xF0);
    f.push(0xE0); f.push(0x90); f.push(0x90); f.push(0x90); f.push(0xE0);
    f.push(0xF0); f.push(0x80); f.push(0xF0); f.push(0x80); f.push(0xF0);
    f.push(0xF0); f.push(0x80); f.push(0xF0); f.push(0x80); f.push(0x80);
    proof {
        assert(f@ =~= font_table());
    }
    f
}

/// Memory as a reset leaves it: the font table, then zeroes.
fn reset_memory() -> (r: Vec<u8>)
    ensures
        r@ == reset_mem(),
{
    let mut m = zeroed(MEM_SIZE);
    let font = font_bytes();
    let mut j: usize = 0;
    while j < 80
        invariant
            j <= 80,
            font@ == font_table(),
            m@.len() == MEM_SIZE,
            forall|t: int| 0 <= t < j ==> m@[t] == font_table()[t],
            forall|t: int| j <= t < MEM_SIZE ==> m@[t] == 0u8,
        decreases 80 - j,
    {
        proof {
            assert(font_table().len() == 80);
        }
        m[j] = font[j];
        j = j + 1;
    }
    proof {
        assert(font_table().len() == 80);
        assert(m@ =~= reset_mem());
    }
    m
}

impl State {
    /// A powered-off machine: everything zero, nothing loaded. It must be
    /// initialized before it is driven.
    pub fn new() -> (r: Self)
        ensures
            r@ == power_on_view(),
            r@.wf(),
    {
        let s = State {
            memory: zeroed(MEM_SIZE),
            v: zeroed(NUM_REGS),
            i: 0,
            pc: 0,
            gfx: zeroed(GFX_SIZE),
            delay_timer: 0,
            sound_timer: 0,
            stack: Vec::new(),
            keys: zeroed(NUM_REGS),
            draw_flag: false,
        };
        s
    }

    /// Reset: clear memory, registers, stack, keys and timers, reseed the
    /// font table, and put the program counter at the program start.
    /// Callable any number of times as a power cycle.
    pub fn initialize(&mut self)
        ensures
            final(self)@ == reset_view(old(self)@.draw_flag),
            final(self)@.wf(),
    {
        self.pc = PROG_START as u16;
        self.i = 0;
        self.gfx = zeroed(GFX_SIZE);
        self.memory = reset_memory();
        self.keys = zeroed(NUM_REGS);
        self.stack = Vec::new();
        self.v = zeroed(NUM_REGS);
        self.delay_timer = 0;
        self.sound_timer = 0;
        proof {
            assert(font_table().len() == 80);
        }
    }

    /// Copy a program into memory at the program start. A buffer that does
    /// not fit is rejected whole; memory is then untouched.
    pub fn load_buffer(&mut self, buffer: &[u8]) -> (r: Result<(), LoadError>)
        requires
            old(self)@.wf(),
        ensures
            final(self)@.wf(),
            buffer@.len() > MEM_SIZE - PROG_START ==> r == Err::<(), LoadError>(
                LoadError::TooLong,
            ) && final(self)@ == old(self)@,
            buffer@.len() <= MEM_SIZE - PROG_START ==> r == Ok::<(), LoadError>(())
                && final(self)@ == (StateView {
                mem: loaded_mem(old(self)@.mem, buffer@),
                ..old(self)@
            }),
    {
        if buffer.len() > MEM_SIZE - PROG_START {
            return Err(LoadError::TooLong);
        }
        let n = buffer.len();
        let mut k: usize = 0;
        while k < n
            invariant
                k <= n,
                n == buffer@.len() <= MEM_SIZE - PROG_START,
                self.memory@.len() == MEM_SIZE,
                forall|t: int|
                    PROG_START <= t < PROG_START + k ==> self.memory@[t] == buffer@[t
                        - PROG_START],
                forall|t: int|
                    0 <= t < MEM_SIZE && !(PROG_START <= t < PROG_START + k)
                        ==> self.memory@[t] == old(self)@.mem[t],
                self.v@ == old(self)@.regs,
                self.i == old(self)@.i,
                self.pc == old(self)@.pc,
                self.gfx@ == old(self)@.gfx,
                self.delay_timer == old(self)@.delay,
                self.sound_timer == old(self)@.sound,
                self.stack@ == old(self)@.stack,
                self.keys@ == old(self)@.keys,
                self.draw_flag == old(self)@.draw_flag,
            decreases n - k,
        {
            self.memory[PROG_START + k] = buffer[k];
            k = k + 1;
        }
        proof {
            assert(self.memory@ =~= loaded_mem(old(self)@.mem, buffer@));
        }
        Ok(())
    }

    /// Record a key's state. Indices past the key map are ignored, not
    /// faulted.
    pub fn set_key(&mut self, key: usize, value: u8)
        requires
            old(self)@.wf(),
        ensures
            final(self)@.wf(),
            key < NUM_REGS ==> final(self)@ == (StateView {
                keys: old(self)@.keys.update(key as int, value),
                ..old(self)@
            }),
            key >= NUM_REGS ==> final(self)@ == old(self)@,
    {
        if key <= 0xF {
            self.keys[key] = value;
        }
    }

    /// A copy of the 2048 framebuffer cells, row-major, each 0 or 1.
    pub fn get_graphics_buffer(&mut self) -> (r: Vec<u8>)
        requires
            old(self)@.wf(),
        ensures
            final(self)@ == old(self)@,
            r@ == old(self)@.gfx,
    {
        let mut r: Vec<u8> = Vec::new();
        let mut k: usize = 0;
        while k < GFX_SIZE
            invariant
                k <= GFX_SIZE,
                self@ == old(self)@,
                self.gfx@.len() == GFX_SIZE,
                r@.len() == k,
                forall|t: int| 0 <= t < k ==> r@[t] == self.gfx@[t],
            decreases GFX_SIZE - k,
        {
            let c = self.gfx[k];
            r.push(c);
            k = k + 1;
        }
        proof {
            assert(r@ =~= old(self)@.gfx);
        }
        r
    }

    /// The program counter.
    pub fn pc(&self) -> (r: u16)
        ensures
            r == self@.pc,
    {
        self.pc
    }

    /// The index register I.
    pub fn index_reg(&self) -> (r: u16)
        ensures
            r == self@.i,
    {
        self.i
    }

    /// Register Vx.
    pub fn reg(&self, x: usize) -> (r: u8)
        requires
            self@.wf(),
            x < NUM_REGS,
        ensures
            r == self@.regs[x as int],
    {
        self.v[x]
    }

    /// One memory cell.
    pub fn mem_byte(&self, addr: usize) -> (r: u8)
        requires
            self@.wf(),
            addr < MEM_SIZE,
        ensures
            r == self@.mem[addr as int],
    {
        self.memory[addr]
    }

    /// The delay timer.
    pub fn delay(&self) -> (r: u8)
        ensures
            r == self@.delay,
    {
        self.delay_timer
    }

    /// The sound timer.
    pub fn sound(&self) -> (r: u8)
        ensures
            r == self@.sound,
    {
        self.sound_timer
    }

    /// The number of saved return addresses.
    pub fn stack_depth(&self) -> (r: usize)
        ensures
            r == self@.stack.len(),
    {
        self.stack.len()
    }

    /// System class: return from a subroutine, clear the screen, or no-op.
    fn zero_opcodes(&mut self, op: u16) -> (r: Result<(), Fault>)
        requires
            old(self)@.wf(),
        ensures
            final(self)@.wf(),
            (match step_sys(old(self)@, op) {
                Ok(s1) => r == Ok::<(), Fault>(()) && final(self)@ == s1,
                Err(f) => r == Err::<(), Fault>(f) && final(self)@ == old(self)@,
            }),
    {
        let nnn = op & 0x0FFF;
        if nnn == 0x0EE {
            match self.stack.pop() {
                Some(addr) => {
                    self.pc = addr;
                    Ok(())
                },
                None => Err(Fault::StackUnderflow),
            }
        } else if nnn == 0x0E0 {
            self.gfx = zeroed(GFX_SIZE);
            Ok(())
        } else {
            Ok(())
        }
    }

    /// Subroutine call: save this instruction's address, move to the target.
    fn goto_address(&mut self, target: u16) -> (r: Result<(), Fault>)
        requires
            old(self)@.wf(),
        ensures
            final(self)@.wf(),
            (match step_call(old(self)@, target) {
                Ok(s1) => r == Ok::<(), Fault>(()) && final(self)@ == s1,
                Err(f) => r == Err::<(), Fault>(f) && final(self)@ == old(self)@,
            }),
    {
        if self.stack.len() < STACK_LIMIT {
            let pc = self.pc;
            self.stack.push(pc);
            self.pc = target;
            Ok(())
        } else {
            Err(Fault::StackOverflow)
        }
    }

    /// Add Vy into Vx with the carry flag written to VF first.
    fn vx_add_vy(&mut self, x: usize, y: usize)
        requires
            old(self)@.wf(),
            x < NUM_REGS,
            y < NUM_REGS,
        ensures
            final(self)@.wf(),
            final(self)@ == step_add_carry(old(self)@, x as int, y as int),
    {
        let vx = self.v[x];
        let vy = self.v[y];
        self.v[15] = if vy > 0xFF - vx {
            1
        } else {
            0
        };
        let cur = self.v[x];
        self.v[x] = cur.wrapping_add(vy);
    }

    /// Subtract Vy from Vx with the no-borrow flag written to VF first.
    fn vx_sub_vy(&mut self, x: usize, y: usize)
        requires
            old(self)@.wf(),
            x < NUM_REGS,
            y < NUM_REGS,
        ensures
            final(self)@.wf(),
            final(self)@ == step_sub_borrow(old(self)@, x as int, y as int),
    {
        let vx = self.v[x];
        let vy = self.v[y];
        self.v[15] = if vy >= vx {
            0
        } else {
            1
        };
        let cur = self.v[x];
        self.v[x] = cur.wrapping_sub(vy);
    }

    /// Store Vy - Vx into Vx with the no-borrow flag written to VF first.
    fn vy_sub_vx(&mut self, x: usize, y: usize)
        requires
            old(self)@.wf(),
            x < NUM_REGS,
            y < NUM_REGS,
        ensures
            final(self)@.wf(),
            final(self)@ == step_rsub_borrow(old(self)@, x as int, y as int),
    {
        let vx = self.v[x];
        let vy = self.v[y];
        self.v[15] = if vx >= vy {
            0
        } else {
            1
        };
        self.v[x] = vy.wrapping_sub(vx);
    }

    /// Shift Vx right by one; VF takes the bit shifted out.
    fn shift_vx_right(&mut self, x: usize)
        requires
            old(self)@.wf(),
            x < NUM_REGS,
        ensures
            final(self)@.wf(),
            final(self)@ == step_shr(old(self)@, x as int),
    {
        let vx = self.v[x];
        self.v[15] = vx & 1;
        let cur = self.v[x];
        self.v[x] = cur >> 1u8;
    }

    /// Shift Vx left by one; VF takes the raw masked high bit.
    fn vx_shift_left(&mut self, x: usize)
        requires
            old(self)@.wf(),
            x < NUM_REGS,
        ensures
            final(self)@.wf(),
            final(self)@ == step_shl(old(self)@, x as int),
    {
        let vx = self.v[x];
        self.v[15] = vx & 0x80;
        let cur = self.v[x];
        self.v[x] = cur << 1u8;
    }

    /// Arithmetic class, dispatched on the low nibble; unassigned variants
    /// are no-ops.
    fn arithmetic_instruction(&mut self, op: u16)
        requires
            old(self)@.wf(),
        ensures
            final(self)@.wf(),
            final(self)@ == step_alu(old(self)@, op),
    {
        proof {
            lemma_op_field_bounds(op);
        }
        let x = ((op >> 8u16) & 0xF) as usize;
        let y = ((op >> 4u16) & 0xF) as usize;
        let k = op & 0xF;
        if k == 0x0 {
            let vy = self.v[y];
            self.v[x] = vy;
        } else if k == 0x1 {
            let vx = self.v[x];
            let vy = self.v[y];
            self.v[x] = vx | vy;
        } else if k == 0x2 {
            let vx = self.v[x];
            let vy = self.v[y];
            self.v[x] = vx & vy;
        } else if k == 0x3 {
            let vx = self.v[x];
            let vy = self.v[y];
            self.v[x] = vx ^ vy;
        } else if k == 0x4 {
            self.vx_add_vy(x, y);
        } else if k == 0x5 {
            self.vx_sub_vy(x, y);
        } else if k == 0x6 {
            self.shift_vx_right(x);
        } else if k == 0x7 {
            self.vy_sub_vx(x, y);
        } else if k == 0xE {
            self.vx_shift_left(x);
        }
    }

    /// Draw class: XOR an N-row sprite read from memory at I onto the
    /// framebuffer at (Vx, Vy); VF reports whether any set pixel was turned
    /// off, and a redraw is always requested.
    #[verifier::loop_isolation(false)]
    #[verifier::rlimit(60)]
    fn draw(&mut self, op: u16) -> (r: Result<(), Fault>)
        requires
            old(self)@.wf(),
        ensures
            final(self)@.wf(),
            (match step_draw(old(self)@, op) {
                Ok(s1) => r == Ok::<(), Fault>(()) && final(self)@ == s1,
                Err(f) => r == Err::<(), Fault>(f) && final(self)@ == old(self)@,
            }),
    {
        proof {
            lemma_op_field_bounds(op);
        }
        let x = ((op >> 8u16) & 0xF) as usize;
        let y = ((op >> 4u16) & 0xF) as usize;
        let h = (op & 0xF) as usize;
        if h > 0 && (self.i as usize) + h > MEM_SIZE {
            return Err(Fault::OutOfBoundsMemory);
        }
        let xs = self.v[x] as usize;
        let ys = self.v[y] as usize;
        let i0 = self.i as usize;
        let ghost g0 = old(self)@.gfx;
        let ghost m = old(self)@.mem;
        let mut collision = false;
        let mut yl: usize = 0;
        while yl < h
            invariant
                yl <= h,
                self@ == (StateView { gfx: self@.gfx, ..old(self)@ }),
                self.gfx@.len() == GFX_SIZE,
                forall|t: int|
                    0 <= t < GFX_SIZE ==> self.gfx@[t] == (if draw_hits_upto(
                        m,
                        i0 as int,
                        xs as int,
                        ys as int,
                        yl as int,
                        0,
                        t,
                    ) {
                        (g0[t] ^ 1) as u8
                    } else {
                        g0[t]
                    }),
                collision == collision_upto(g0, m, i0 as int, xs as int, ys as int, yl as int, 0),
            decreases h - yl,
        {
            let row = self.memory[i0 + yl];
            let mut xl: usize = 0;
            while xl < 8
                invariant
                    yl < h,
                    xl <= 8,
                    row == m[i0 + yl],
                    self@ == (StateView { gfx: self@.gfx, ..old(self)@ }),
                    self.gfx@.len() == GFX_SIZE,
                    forall|t: int|
                        0 <= t < GFX_SIZE ==> self.gfx@[t] == (if draw_hits_upto(
                            m,
                            i0 as int,
                            xs as int,
                            ys as int,
                            yl as int,
                            xl as int,
                            t,
                        ) {
                            (g0[t] ^ 1) as u8
                        } else {
                            g0[t]
                        }),
                    collision == collision_upto(
                        g0,
                        m,
                        i0 as int,
                        xs as int,
                        ys as int,
                        yl as int,
                        xl as int,
                    ),
                decreases 8 - xl,
            {
                proof {
                    lemma_no_earlier_hit(m, i0 as int, xs as int, ys as int, yl as int, xl as int);
                }
                let ghost idx_g = crate::semantics::pix_index(
                    xs as int,
                    ys as int,
                    yl as int,
                    xl as int,
                );
                if row & (0x80u8 >> (xl as u8)) != 0 {
                    proof {
                        assert(sprite_bit(m, i0 as int, yl as int, xl as int));
                    }
                    let idx = xs + xl + (ys + yl) * 64;
                    if idx < GFX_SIZE {
                        if self.gfx[idx] == 1 {
                            collision = true;
                        }
                        let cell = self.gfx[idx];
                        self.gfx[idx] = cell ^ 1;
                    }
                } else {
                    proof {
                        assert(!sprite_bit(m, i0 as int, yl as int, xl as int));
                    }
                }
                proof {
                    assert forall|t: int| 0 <= t < GFX_SIZE implies self.gfx@[t] == (
                    if draw_hits_upto(
                        m,
                        i0 as int,
                        xs as int,
                        ys as int,
                        yl as int,
                        xl as int + 1,
                        t,
                    ) {
                        (g0[t] ^ 1) as u8
                    } else {
                        g0[t]
                    }) by {
                        lemma_upto_step(
                            g0,
                            m,
                            i0 as int,
                            xs as int,
                            ys as int,
                            yl as int,
                            xl as int,
                            t,
                        );
                    }
                    lemma_upto_step(
                        g0,
                        m,
                        i0 as int,
                        xs as int,
                        ys as int,
                        yl as int,
                        xl as int,
                        idx_g,
                    );
                }
                xl = xl + 1;
            }
            proof {
                assert forall|t: int| 0 <= t < GFX_SIZE implies draw_hits_upto(
                    m,
                    i0 as int,
                    xs as int,
                    ys as int,
                    yl as int,
                    8,
                    t,
                ) == draw_hits_upto(
                    m,
                    i0 as int,
                    xs as int,
                    ys as int,
                    yl as int + 1,
                    0,
                    t,
                ) by {
                    lemma_upto_row_roll(g0, m, i0 as int, xs as int, ys as int, yl as int, t);
                }
                lemma_upto_row_roll(g0, m, i0 as int, xs as int, ys as int, yl as int, 0);
            }
            yl = yl + 1;
        }
        self.v[15] = if collision {
            1
        } else {
            0
        };
        self.draw_flag = true;
        proof {
            assert forall|t: int| 0 <= t < GFX_SIZE implies draw_hits_upto(
                m,
                i0 as int,
                xs as int,
                ys as int,
                h as int,
                0,
                t,
            ) == draw_hits(m, i0 as int, xs as int, ys as int, h as int, t) by {
                lemma_upto_full(g0, m, i0 as int, xs as int, ys as int, h as int, t);
            }
            lemma_upto_full(g0, m, i0 as int, xs as int, ys as int, h as int, 0);
            assert(self.gfx@ =~= draw_gfx(g0, m, i0 as int, xs as int, ys as int, h as int));
            assert forall|t: int| 0 <= t < GFX_SIZE implies self.gfx@[t] <= 1 by {
                lemma_xor_one(g0[t]);
            }
        }
        Ok(())
    }

    /// Key-skip class: skip on pressed (0x9E) or not pressed (0xA1).
    fn skip_if_key_pressed(&mut self, op: u16) -> (r: Result<(), Fault>)
        requires
            old(self)@.wf(),
        ensures
            final(self)@.wf(),
            (match step_key(old(self)@, op) {
                Ok(s1) => r == Ok::<(), Fault>(()) && final(self)@ == s1,
                Err(f) => r == Err::<(), Fault>(f) && final(self)@ == old(self)@,
            }),
    {
        proof {
            lemma_op_field_bounds(op);
        }
        let x = ((op >> 8u16) & 0xF) as usize;
        let nn = op & 0xFF;
        if nn == 0x9E {
            let slot = self.v[x] as usize;
            if slot >= NUM_REGS {
                return Err(Fault::KeyOutOfRange);
            }
            if self.keys[slot] != 0 {
                self.pc = self.pc.wrapping_add(2);
            }
            Ok(())
        } else if nn == 0xA1 {
            let slot = self.v[x] as usize;
            if slot >= NUM_REGS {
                return Err(Fault::KeyOutOfRange);
            }
            if self.keys[slot] == 0 {
                self.pc = self.pc.wrapping_add(2);
            }
            Ok(())
        } else {
            Ok(())
        }
    }

    /// One cycle driven with a given random byte: fetch the two bytes at
    /// the program counter, execute the instruction (the byte is what the
    /// random instruction masks; every other instruction ignores it), apply
    /// the uniform +2 step and tick the timers. `Ok` carries whether a tone
    /// is requested this cycle; on a fault the machine is left untouched.
    pub fn cycle_with_random(&mut self, rb: u8) -> (r: Result<bool, Fault>)
        requires
            old(self)@.wf(),
        ensures
            final(self)@.wf(),
            cycle_post(old(self)@, rb, final(self)@, r),
    {
        let pcv = self.pc as usize;
        if pcv + 1 >= MEM_SIZE {
            return Err(Fault::OutOfBoundsFetch);
        }
        let hi_byte = self.memory[pcv];
        let lo_byte = self.memory[pcv + 1];
        let op: u16 = ((hi_byte as u16) << 8u16) | (lo_byte as u16);
        proof {
            lemma_op_field_bounds(op);
            assert(op == fetched_op(old(self)@));
        }
        let hi = op >> 12u16;
        let x = ((op >> 8u16) & 0xF) as usize;
        let y = ((op >> 4u16) & 0xF) as usize;
        let nn = (op & 0xFF) as u8;
        let nnn = op & 0x0FFF;
        let step: Result<(), Fault> = if hi == 0x0 {
            self.zero_opcodes(op)
        } else if hi == 0x1 {
            self.pc = nnn.wrapping_sub(2);
            Ok(())
        } else if hi == 0x2 {
            self.goto_address(nnn)
        } else if hi == 0x3 {
            if self.v[x] == nn {
                self.pc = self.pc.wrapping_add(2);
            }
            Ok(())
        } else if hi == 0x4 {
            if self.v[x] != nn {
                self.pc = self.pc.wrapping_add(2);
            }
            Ok(())
        } else if hi == 0x5 {
            if self.v[x] == self.v[y] {
                self.pc = self.pc.wrapping_add(2);
            }
            Ok(())
        } else if hi == 0x6 {
            self.v[x] = nn;
            Ok(())
        } else if hi == 0x7 {
            let vx = self.v[x];
            self.v[x] = vx.wrapping_add(nn);
            Ok(())
        } else if hi == 0x8 {
            self.arithmetic_instruction(op);
            Ok(())
        } else if hi == 0x9 {
            if self.v[x] != self.v[y] {
                self.pc = self.pc.wrapping_add(2);
            }
            Ok(())
        } else if hi == 0xA {
            self.i = nnn;
            Ok(())
        } else if hi == 0xB {
            let v0 = self.v[0];
            self.pc = (nnn + v0 as u16).wrapping_sub(2);
            Ok(())
        } else if hi == 0xC {
            self.v[x] = rb & nn;
            Ok(())
        } else if hi == 0xD {
            self.draw(op)
        } else if hi == 0xE {
            self.skip_if_key_pressed(op)
        } else {
            self.f_opcodes(op)
        };
        match step {
            Err(f) => {
                return Err(f);
            },
            Ok(()) => {},
        }
        self.pc = self.pc.wrapping_add(2);
        let beep = self.sound_timer == 1;
        if self.delay_timer > 0 {
            self.delay_timer = self.delay_timer - 1;
        }
        if self.sound_timer > 0 {
            self.sound_timer = self.sound_timer - 1;
        }
        Ok(beep)
    }

    /// One cycle driven from the machine's own randomness source. The
    /// random instruction makes the outcome nondeterministic, so the
    /// guarantee is that the cycle behaved as [`cycle_with_random`] for
    /// some byte.
    ///
    /// [`cycle_with_random`]: State::cycle_with_random
    pub fn emulate_cycle(&mut self) -> (r: Result<bool, Fault>)
        requires
            old(self)@.wf(),
        ensures
            final(self)@.wf(),
            exists|rb: u8| #[trigger] cycle_post(old(self)@, rb, final(self)@, r),
    {
        let rb = random_byte();
        let r = self.cycle_with_random(rb);
        proof {
            assert(cycle_post(old(self)@, rb, self@, r));
        }
        r
    }

    /// Timer, key-wait and memory-transfer class, dispatched on the low
    /// byte; unassigned low bytes are no-ops.
    fn f_opcodes(&mut self, op: u16) -> (r: Result<(), Fault>)
        requires
            old(self)@.wf(),
        ensures
            final(self)@.wf(),
            (match step_misc(old(self)@, op) {
                Ok(s1) => r == Ok::<(), Fault>(()) && final(self)@ == s1,
                Err(f) => r == Err::<(), Fault>(f) && final(self)@ == old(self)@,
            }),
    {
        proof {
            lemma_op_field_bounds(op);
        }
        let x = ((op >> 8u16) & 0xF) as usize;
        let nn = op & 0xFF;
        if nn == 0x07 {
            let d = self.delay_timer;
            self.v[x] = d;
            Ok(())
        } else if nn == 0x0A {
            let mut k: usize = 0;
            let mut found = false;
            while k < NUM_REGS
                invariant
                    old(self)@.wf(),
                    self@ == old(self)@,
                    k <= NUM_REGS,
                    found <==> exists|j: int| 0 <= j < k && old(self)@.keys[j] == 1,
                decreases NUM_REGS - k,
            {
                if self.keys[k] == 1 {
                    found = true;
                }
                k = k + 1;
            }
            if found {
                self.v[x] = 1;
            } else {
                self.pc = self.pc.wrapping_sub(2);
            }
            Ok(())
        } else if nn == 0x15 {
            let vx = self.v[x];
            self.delay_timer = vx;
            Ok(())
        } else if nn == 0x18 {
            let vx = self.v[x];
            self.sound_timer = vx;
            Ok(())
        } else if nn == 0x1E {
            let vx = self.v[x];
            self.i = self.i.wrapping_add(vx as u16);
            Ok(())
        } else if nn == 0x29 {
            let vx = self.v[x];
            self.i = (vx as u16) * 5;
            Ok(())
        } else if nn == 0x33 {
            let base = self.i as usize;
            if base + 2 >= MEM_SIZE {
                return Err(Fault::OutOfBoundsMemory);
            }
            let vx = self.v[x];
            self.memory[base] = vx / 100;
            self.memory[base + 1] = (vx % 100) / 10;
            self.memory[base + 2] = vx % 10;
            Ok(())
        } else if nn == 0x55 {
            let base = self.i as usize;
            if base + x >= MEM_SIZE {
                return Err(Fault::OutOfBoundsMemory);
            }
            let mut k: usize = 0;
            while k <= x
                invariant
                    old(self)@.wf(),
                    x < NUM_REGS,
                    k <= x + 1,
                    base == old(self)@.i,
                    base + x < MEM_SIZE,
                    self@ == (StateView { mem: self@.mem, ..old(self)@ }),
                    self.memory@.len() == MEM_SIZE,
                    forall|t: int|
                        base <= t < base + k ==> self.memory@[t] == old(self)@.regs[t - base],
                    forall|t: int|
                        0 <= t < MEM_SIZE && !(base <= t < base + k) ==> self.memory@[t] == old(
                            self,
                        )@.mem[t],
                decreases x + 1 - k,
            {
                let vk = self.v[k];
                self.memory[base + k] = vk;
                k = k + 1;
            }
            proof {
                assert(self.memory@ =~= dumped_mem(old(self)@, x as int));
            }
            Ok(())
        } else if nn == 0x65 {
            let base = self.i as usize;
            if base + x >= MEM_SIZE {
                return Err(Fault::OutOfBoundsMemory);
            }
            let mut k: usize = 0;
            while k <= x
                invariant
                    old(self)@.wf(),
                    x < NUM_REGS,
                    k <= x + 1,
                    base == old(self)@.i,
                    base + x < MEM_SIZE,
                    self@ == (StateView { regs: self@.regs, ..old(self)@ }),
                    self.v@.len() == NUM_REGS,
                    forall|t: int| 0 <= t < k ==> self.v@[t] == old(self)@.mem[base + t],
                    forall|t: int| k <= t < NUM_REGS ==> self.v@[t] == old(self)@.regs[t],
                decreases x + 1 - k,
            {
                let mk = self.memory[base + k];
                self.v[k] = mk;
                k = k + 1;
            }
            proof {
                assert(self.v@ =~= loaded_regs(old(self)@, x as int));
            }
            Ok(())
        } else {
            Ok(())
        }
    }
}

} // verus!
