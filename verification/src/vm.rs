//! The execution engine: a machine state in ordinary Rust data, mutated in
//! place by verified instruction handlers.

use vstd::prelude::*;

use crate::opcode::{spec_decode, Addr, Byte, Fault, OpCode, V};
use crate::semantics::{
    draw_disp, draw_hit, fetched_word, lemma_pixel_ident, lemma_pixel_unique, same_except_disp,
    same_except_mem, same_except_regs, spec_execute, sprite_covers, VmState, DISPLAY_HEIGHT,
    DISPLAY_PIXELS, DISPLAY_WIDTH, FONT_BASE, KEY_COUNT, MEMORY_BYTES, PROGRAM_START,
    REGISTER_COUNT, STACK_LENGTH,
};

verus! {

/// The machine: memory, registers, index register, timers, program counter,
/// stack, display, keypad, the awaiting-key state, and the injected random
/// source. Its abstract value is a [`VmState`]; the random source is opaque.
pub struct VM {
    memory: Vec<u8>,
    registers: Vec<u8>,
    i: u16,
    dt: u8,
    st: u8,
    pc: u16,
    sp: u8,
    stack: Vec<u16>,
    display: Vec<bool>,
    keys: Vec<bool>,
    waiting: Option<u8>,
    random_device: random::Xorshift128Plus,
}

impl View for VM {
    type V = VmState;

    closed spec fn view(&self) -> VmState {
        VmState {
            mem: self.memory@,
            regs: self.registers@,
            index: self.i,
            dt: self.dt,
            st: self.st,
            pc: self.pc,
            sp: self.sp,
            stack: self.stack@,
            disp: self.display@,
            keys: self.keys@,
            waiting: self.waiting,
        }
    }
}

impl VM {
    /// The machine's pieces have their fixed sizes and bounds.
    pub open spec fn wf(self) -> bool {
        self@.wf()
    }
}

/// The five rows of the glyph for hexadecimal digit `d`.
pub open spec fn glyph_rows(d: int) -> Seq<u8> {
    if d == 0x0 {
        seq![0xF0, 0x90, 0x90, 0x90, 0xF0]
    } else if d == 0x1 {
        seq![0x20, 0x60, 0x20, 0x20, 0x70]
    } else if d == 0x2 {
        seq![0xF0, 0x10, 0xF0, 0x80, 0xF0]
    } else if d == 0x3 {
        seq![0xF0, 0x10, 0xF0, 0x10, 0xF0]
    } else if d == 0x4 {
        seq![0x90, 0x90, 0xF0, 0x10, 0x10]
    } else if d == 0x5 {
        seq![0xF0, 0x80, 0xF0, 0x10, 0xF0]
    } else if d == 0x6 {
        seq![0xF0, 0x80, 0xF0, 0x90, 0xF0]
    } else if d == 0x7 {
        seq![0xF0, 0x10, 0x20, 0x40, 0x40]
    } else if d == 0x8 {
        seq![0xF0, 0x90, 0xF0, 0x90, 0xF0]
    } else if d == 0x9 {
        seq![0xF0, 0x90, 0xF0, 0x10, 0xF0]
    } else if d == 0xA {
        seq![0xF0, 0x90, 0xF0, 0x90, 0x90]
    } else if d == 0xB {
        seq![0xE0, 0x90, 0xE0, 0x90, 0xE0]
    } else if d == 0xC {
        seq![0xF0, 0x80, 0x80, 0x80, 0xF0]
    } else if d == 0xD {
        seq![0xE0, 0x90, 0x90, 0x90, 0xE0]
    } else if d == 0xE {
        seq![0xF0, 0x80, 0xF0, 0x80, 0xF0]
    } else {
        seq![0xF0, 0x80, 0xF0, 0x80, 0x80]
    }
}

/// The whole 16-glyph font table, 80 bytes.
pub open spec fn font_table() -> Seq<u8> {
    glyph_rows(0x0) + glyph_rows(0x1) + glyph_rows(0x2) + glyph_rows(0x3) + glyph_rows(0x4)
        + glyph_rows(0x5) + glyph_rows(0x6) + glyph_rows(0x7) + glyph_rows(0x8) + glyph_rows(0x9)
        + glyph_rows(0xA) + glyph_rows(0xB) + glyph_rows(0xC) + glyph_rows(0xD) + glyph_rows(0xE)
        + glyph_rows(0xF)
}

/// Memory at power-on: the font table in the reserved low region, zeroes
/// everywhere else.
pub open spec fn initial_mem() -> Seq<u8> {
    Seq::new(
        MEMORY_BYTES as nat,
        |k: int|
            if FONT_BASE <= k < FONT_BASE + 80 {
                font_table()[k - FONT_BASE]
            } else {
                0u8
            },
    )
}

/// The machine at power-on: fresh memory, everything else zeroed, the
/// program counter at the standard entry offset, running.
pub open spec fn initial_state() -> VmState {
    VmState {
        mem: initial_mem(),
        regs: Seq::new(REGISTER_COUNT as nat, |k: int| 0u8),
        index: 0,
        dt: 0,
        st: 0,
        pc: PROGRAM_START,
        sp: 0,
        stack: Seq::new(STACK_LENGTH as nat, |k: int| 0u16),
        disp: Seq::new(DISPLAY_PIXELS as nat, |k: int| false),
        keys: Seq::new(KEY_COUNT as nat, |k: int| false),
        waiting: None,
    }
}

/// Append the five rows of one glyph.
fn push_glyph(mem: &mut Vec<u8>, a: u8, b: u8, c: u8, d: u8, e: u8)
    ensures
        final(mem)@ == old(mem)@ + seq![a, b, c, d, e],
{
    mem.push(a);
    mem.push(b);
    mem.push(c);
    mem.push(d);
    mem.push(e);
    assert(mem@ =~= old(mem)@ + seq![a, b, c, d, e]);
}

/// Build the font table as bytes.
fn font_data() -> (r: Vec<u8>)
    ensures
        r@ == font_table(),
{
    let mut m: Vec<u8> = Vec::new();
    push_glyph(&mut m, 0xF0, 0x90, 0x90, 0x90, 0xF0);
    push_glyph(&mut m, 0x20, 0x60, 0x20, 0x20, 0x70);
    push_glyph(&mut m, 0xF0, 0x10, 0xF0, 0x80, 0xF0);
    push_glyph(&mut m, 0xF0, 0x10, 0xF0, 0x10, 0xF0);
    push_glyph(&mut m, 0x90, 0x90, 0xF0, 0x10, 0x10);
    push_glyph(&mut m, 0xF0, 0x80, 0xF0, 0x10, 0xF0);
    push_glyph(&mut m, 0xF0, 0x80, 0xF0, 0x90, 0xF0);
    push_glyph(&mut m, 0xF0, 0x10, 0x20, 0x40, 0x40);
    push_glyph(&mut m, 0xF0, 0x90, 0xF0, 0x90, 0xF0);
    push_glyph(&mut m, 0xF0, 0x90, 0xF0, 0x10, 0xF0);
    push_glyph(&mut m, 0xF0, 0x90, 0xF0, 0x90, 0x90);
    push_glyph(&mut m, 0xE0, 0x90, 0xE0, 0x90, 0xE0);
    push_glyph(&mut m, 0xF0, 0x80, 0x80, 0x80, 0xF0);
    push_glyph(&mut m, 0xE0, 0x90, 0x90, 0x90, 0xE0);
    push_glyph(&mut m, 0xF0, 0x80, 0xF0, 0x80, 0xF0);
    push_glyph(&mut m, 0xF0, 0x80, 0xF0, 0x80, 0x80);
    assert(m@ =~= font_table());
    m
}

/// A vector of `n` zero bytes.
fn zeroed_bytes(n: usize) -> (r: Vec<u8>)
    ensures
        r@ == Seq::new(n as nat, |k: int| 0u8),
{
    let mut v: Vec<u8> = Vec::new();
    while v.len() < n
        invariant
            v@.len() <= n,
            forall|k: int| 0 <= k < v@.len() ==> v@[k] == 0u8,
        decreases n - v@.len(),
    {
        v.push(0);
    }
    assert(v@ =~= Seq::new(n as nat, |k: int| 0u8));
    v
}

/// A vector of `n` zero words.
fn zeroed_words(n: usize) -> (r: Vec<u16>)
    ensures
        r@ == Seq::new(n as nat, |k: int| 0u16),
{
    let mut v: Vec<u16> = Vec::new();
    while v.len() < n
        invariant
            v@.len() <= n,
            forall|k: int| 0 <= k < v@.len() ==> v@[k] == 0u16,
        decreases n - v@.len(),
    {
        v.push(0);
    }
    assert(v@ =~= Seq::new(n as nat, |k: int| 0u16));
    v
}

/// A vector of `n` cleared flags.
fn cleared_flags(n: usize) -> (r: Vec<bool>)
    ensures
        r@ == Seq::new(n as nat, |k: int| false),
{
    let mut v: Vec<bool> = Vec::new();
    while v.len() < n
        invariant
            v@.len() <= n,
            forall|k: int| 0 <= k < v@.len() ==> !v@[k],
        decreases n - v@.len(),
    {
        v.push(false);
    }
    assert(v@ =~= Seq::new(n as nat, |k: int| false));
    v
}

impl VM {
    /// A machine at power-on: zeroed state, the font table preloaded into
    /// the reserved low region, and the program counter at the entry offset.
    pub fn new() -> (vm: VM)
        ensures
            vm@ =~~= initial_state(),
            vm.wf(),
    {
        let mut memory = font_data();
        while memory.len() < MEMORY_BYTES
            invariant
                80 <= memory@.len() <= MEMORY_BYTES,
                forall|k: int| 0 <= k < memory@.len() ==> memory@[k] == initial_mem()[k],
            decreases MEMORY_BYTES - memory@.len(),
        {
            memory.push(0);
        }
        assert(memory@ =~= initial_mem());
        let vm = VM {
            memory,
            registers: zeroed_bytes(REGISTER_COUNT),
            i: 0,
            dt: 0,
            st: 0,
            pc: PROGRAM_START,
            sp: 0,
            stack: zeroed_words(STACK_LENGTH),
            display: cleared_flags(DISPLAY_PIXELS),
            keys: cleared_flags(KEY_COUNT),
            waiting: None,
            random_device: crate::rng::fresh_source(42),
        };
        vm
    }

    /// Copy a program image into memory at the entry offset and point the
    /// program counter at it. Rejected, with memory untouched, when the
    /// image would run past the end of memory; the reserved low region is
    /// never written.
    pub fn load_program(&mut self, program: &Vec<u8>) -> (r: Result<(), Fault>)
        requires
            old(self).wf(),
        ensures
            final(self).wf(),
            program@.len() > MEMORY_BYTES - PROGRAM_START ==> r == Err::<(), Fault>(Fault::Memory)
                && final(self)@ == old(self)@,
            program@.len() <= MEMORY_BYTES - PROGRAM_START ==> r == Ok::<(), Fault>(())
                && final(self)@ == (VmState {
                mem: Seq::new(
                    MEMORY_BYTES as nat,
                    |k: int|
                        if PROGRAM_START <= k < PROGRAM_START + program@.len() {
                            program@[k - PROGRAM_START]
                        } else {
                            old(self)@.mem[k]
                        },
                ),
                pc: PROGRAM_START,
                ..old(self)@
            }),
    {
        if program.len() > MEMORY_BYTES - PROGRAM_START as usize {
            return Err(Fault::Memory);
        }
        let mut off: usize = 0;
        while off < program.len()
            invariant
                old(self).wf(),
                program@.len() <= MEMORY_BYTES - PROGRAM_START,
                off <= program@.len(),
                self.memory@.len() == MEMORY_BYTES,
                forall|k: int|
                    0 <= k < MEMORY_BYTES ==> self.memory@[k] == if PROGRAM_START <= k
                        < PROGRAM_START + off {
                        program@[k - PROGRAM_START]
                    } else {
                        old(self)@.mem[k]
                    },
                same_except_mem(old(self)@, self@),
            decreases program@.len() - off,
        {
            self.memory[PROGRAM_START as usize + off] = program[off];
            off = off + 1;
        }
        self.pc = PROGRAM_START;
        proof {
            assert(self@.mem =~= Seq::new(
                MEMORY_BYTES as nat,
                |k: int|
                    if PROGRAM_START <= k < PROGRAM_START + program@.len() {
                        program@[k - PROGRAM_START]
                    } else {
                        old(self)@.mem[k]
                    },
            ));
        }
        Ok(())
    }

    /// Decrement each timer that is non-zero by one; a timer at zero stays
    /// at zero. Driven by the external cadence, independently of stepping.
    pub fn tick_timers(&mut self)
        requires
            old(self).wf(),
        ensures
            final(self).wf(),
            final(self)@ == (VmState {
                dt: if old(self)@.dt > 0 {
                    (old(self)@.dt - 1) as u8
                } else {
                    0
                },
                st: if old(self)@.st > 0 {
                    (old(self)@.st - 1) as u8
                } else {
                    0
                },
                ..old(self)@
            }),
    {
        if self.dt > 0 {
            self.dt = self.dt - 1;
        }
        if self.st > 0 {
            self.st = self.st - 1;
        }
    }

    /// The program counter.
    pub fn program_counter(&self) -> (r: u16)
        ensures
            r == self@.pc,
    {
        self.pc
    }

    /// The stack pointer: how many call frames are live.
    pub fn stack_pointer(&self) -> (r: u8)
        ensures
            r == self@.sp,
    {
        self.sp
    }

    /// The index register `I`.
    pub fn index_register(&self) -> (r: u16)
        ensures
            r == self@.index,
    {
        self.i
    }

    /// The delay timer.
    pub fn delay_timer(&self) -> (r: u8)
        ensures
            r == self@.dt,
    {
        self.dt
    }

    /// The sound timer.
    pub fn sound_timer(&self) -> (r: u8)
        ensures
            r == self@.st,
    {
        self.st
    }

    /// The value of register `x`.
    pub fn register(&self, x: u8) -> (r: u8)
        requires
            self.wf(),
            x < REGISTER_COUNT,
        ensures
            r == self@.regs[x as int],
    {
        self.registers[x as usize]
    }

    /// The byte at a memory address.
    pub fn memory_byte(&self, addr: u16) -> (r: u8)
        requires
            self.wf(),
            addr < MEMORY_BYTES,
        ensures
            r == self@.mem[addr as int],
    {
        self.memory[addr as usize]
    }

    /// Whether the pixel at `(col, row)` is lit.
    pub fn pixel(&self, col: u8, row: u8) -> (r: bool)
        requires
            self.wf(),
            col < DISPLAY_WIDTH,
            row < DISPLAY_HEIGHT,
        ensures
            r == self@.disp[row as int * 64 + col],
    {
        self.display[row as usize * 64 + col as usize]
    }

    /// `Some(x)` when the machine is parked until a key press lands in
    /// register `x`; `None` when it is running.
    pub fn awaiting_key(&self) -> (r: Option<u8>)
        ensures
            r == self@.waiting,
    {
        self.waiting
    }

    /// Report that key `k` went down. The keypad records it; if the machine
    /// was parked awaiting a key, the key's value lands in the named
    /// register and the machine runs again.
    pub fn key_down(&mut self, k: u8)
        requires
            old(self).wf(),
            k < KEY_COUNT,
        ensures
            final(self).wf(),
            final(self)@ == (match old(self)@.waiting {
                Some(x) => VmState {
                    keys: old(self)@.keys.update(k as int, true),
                    regs: old(self)@.regs.update(x as int, k),
                    waiting: None,
                    ..old(self)@
                },
                None => VmState { keys: old(self)@.keys.update(k as int, true), ..old(self)@ },
            }),
    {
        self.keys[k as usize] = true;
        match self.waiting {
            Some(x) => {
                self.registers[x as usize] = k;
                self.waiting = None;
            },
            None => {},
        }
    }

    /// Report that key `k` went up.
    pub fn key_up(&mut self, k: u8)
        requires
            old(self).wf(),
            k < KEY_COUNT,
        ensures
            final(self).wf(),
            final(self)@ == (VmState { keys: old(self)@.keys.update(k as int, false), ..old(self)@ }),
    {
        self.keys[k as usize] = false;
    }
}

/// The low nibble of a byte is a keypad or glyph index.
proof fn lemma_low_nibble(b: u8)
    ensures
        b & 0xF < 16,
{
    assert(b & 0xF < 16) by (bit_vector);
}

/// Whether the sprite bit for pixel `p` has already been composited when
/// the drawing loops stand at row `r`, bit `b`: its row offset is earlier,
/// or equal with an earlier bit offset.
spec fn processed_before(n: int, cx: int, cy: int, r: int, b: int, p: int) -> bool {
    let dr = ((p / 64) - cy + 32) % 32;
    let db = ((p % 64) - cx + 64) % 64;
    dr < n && db < 8 && (dr < r || (dr == r && db < b))
}

/// The display in the middle of drawing: pixels whose sprite bit has been
/// composited are toggled, the rest still hold their old value.
spec fn partial_disp(
    disp: Seq<bool>,
    mem: Seq<u8>,
    i: int,
    n: int,
    cx: int,
    cy: int,
    r: int,
    b: int,
) -> Seq<bool> {
    Seq::new(
        2048,
        |p: int|
            disp[p] != (sprite_covers(mem, i, n, cx, cy, p) && processed_before(
                n,
                cx,
                cy,
                r,
                b,
                p,
            )),
    )
}

/// Whether a collision has happened by the time the drawing loops stand at
/// row `r`, bit `b`.
spec fn partial_hit(
    disp: Seq<bool>,
    mem: Seq<u8>,
    i: int,
    n: int,
    cx: int,
    cy: int,
    r: int,
    b: int,
) -> bool {
    exists|p: int|
        0 <= p < 2048 && sprite_covers(mem, i, n, cx, cy, p) && processed_before(n, cx, cy, r, b, p)
            && disp[p]
}

/// Finishing the bits of one row is the same as standing at the start of
/// the next row.
proof fn lemma_row_step(disp: Seq<bool>, mem: Seq<u8>, i: int, n: int, cx: int, cy: int, r: int)
    ensures
        partial_disp(disp, mem, i, n, cx, cy, r, 8) == partial_disp(disp, mem, i, n, cx, cy, r + 1, 0),
        partial_hit(disp, mem, i, n, cx, cy, r, 8) == partial_hit(disp, mem, i, n, cx, cy, r + 1, 0),
{
    assert forall|p: int| 0 <= p < 2048 implies (processed_before(n, cx, cy, r, 8, p)
        == processed_before(n, cx, cy, r + 1, 0, p)) by {}
    assert(partial_disp(disp, mem, i, n, cx, cy, r, 8) =~= partial_disp(
        disp,
        mem,
        i,
        n,
        cx,
        cy,
        r + 1,
        0,
    ));
    if partial_hit(disp, mem, i, n, cx, cy, r, 8) {
        let p = choose|p: int|
            0 <= p < 2048 && sprite_covers(mem, i, n, cx, cy, p) && processed_before(
                n,
                cx,
                cy,
                r,
                8,
                p,
            ) && disp[p];
        assert(processed_before(n, cx, cy, r + 1, 0, p));
        assert(partial_hit(disp, mem, i, n, cx, cy, r + 1, 0));
    }
    if partial_hit(disp, mem, i, n, cx, cy, r + 1, 0) {
        let p = choose|p: int|
            0 <= p < 2048 && sprite_covers(mem, i, n, cx, cy, p) && processed_before(
                n,
                cx,
                cy,
                r + 1,
                0,
                p,
            ) && disp[p];
        assert(processed_before(n, cx, cy, r, 8, p));
        assert(partial_hit(disp, mem, i, n, cx, cy, r, 8));
    }
}

/// Standing past the last row, the partial drawing is the whole drawing.
proof fn lemma_draw_complete(disp: Seq<bool>, mem: Seq<u8>, i: int, n: int, cx: int, cy: int)
    ensures
        partial_disp(disp, mem, i, n, cx, cy, n, 0) == draw_disp(disp, mem, i, n, cx, cy),
        partial_hit(disp, mem, i, n, cx, cy, n, 0) == draw_hit(disp, mem, i, n, cx, cy),
{
    assert forall|p: int| 0 <= p < 2048 implies (sprite_covers(mem, i, n, cx, cy, p)
        && processed_before(n, cx, cy, n, 0, p)) == sprite_covers(mem, i, n, cx, cy, p) by {}
    assert(partial_disp(disp, mem, i, n, cx, cy, n, 0) =~= draw_disp(disp, mem, i, n, cx, cy));
    if partial_hit(disp, mem, i, n, cx, cy, n, 0) {
        let p = choose|p: int|
            0 <= p < 2048 && sprite_covers(mem, i, n, cx, cy, p) && processed_before(
                n,
                cx,
                cy,
                n,
                0,
                p,
            ) && disp[p];
        assert(draw_hit(disp, mem, i, n, cx, cy));
    }
    if draw_hit(disp, mem, i, n, cx, cy) {
        let p = choose|p: int|
            0 <= p < 2048 && sprite_covers(mem, i, n, cx, cy, p) && disp[p];
        assert(processed_before(n, cx, cy, n, 0, p));
        assert(partial_hit(disp, mem, i, n, cx, cy, n, 0));
    }
}

// One method per instruction, each verified against its arm of
// `spec_execute`.
impl VM {
    fn system(&mut self, nnn: Addr) -> (r: Result<(), Fault>)
        requires
            old(self).wf(),
        ensures
            final(self).wf(),
            (final(self)@, r) == spec_execute(old(self)@, OpCode::System(nnn), 0),
    {
        Ok(())
    }

    fn execute_return(&mut self) -> (r: Result<(), Fault>)
        requires
            old(self).wf(),
        ensures
            final(self).wf(),
            (final(self)@, r) == spec_execute(old(self)@, OpCode::Return, 0),
    {
        if self.sp == 0 {
            return Err(Fault::Stack);
        }
        self.sp = self.sp - 1;
        self.pc = self.stack[self.sp as usize];
        Ok(())
    }

    fn jump(&mut self, nnn: Addr) -> (r: Result<(), Fault>)
        requires
            old(self).wf(),
        ensures
            final(self).wf(),
            (final(self)@, r) == spec_execute(old(self)@, OpCode::Jump(nnn), 0),
    {
        self.pc = nnn.0;
        Ok(())
    }

    fn execute_call(&mut self, nnn: Addr) -> (r: Result<(), Fault>)
        requires
            old(self).wf(),
        ensures
            final(self).wf(),
            (final(self)@, r) == spec_execute(old(self)@, OpCode::Call(nnn), 0),
    {
        if self.sp >= 16 {
            return Err(Fault::Stack);
        }
        self.stack[self.sp as usize] = self.pc;
        self.sp = self.sp + 1;
        self.pc = nnn.0;
        Ok(())
    }

    fn skip_equal(&mut self, x: V, kk: Byte) -> (r: Result<(), Fault>)
        requires
            old(self).wf(),
            x.0 < 16,
        ensures
            final(self).wf(),
            (final(self)@, r) == spec_execute(old(self)@, OpCode::SkipEqual(x, kk), 0),
    {
        if self.registers[x.0 as usize] == kk.0 {
            self.pc = self.pc.wrapping_add(2);
        }
        Ok(())
    }

    fn skip_not_equal(&mut self, x: V, kk: Byte) -> (r: Result<(), Fault>)
        requires
            old(self).wf(),
            x.0 < 16,
        ensures
            final(self).wf(),
            (final(self)@, r) == spec_execute(old(self)@, OpCode::SkipNotEqual(x, kk), 0),
    {
        if self.registers[x.0 as usize] != kk.0 {
            self.pc = self.pc.wrapping_add(2);
        }
        Ok(())
    }

    fn skip_equal_register(&mut self, x: V, y: V) -> (r: Result<(), Fault>)
        requires
            old(self).wf(),
            x.0 < 16,
            y.0 < 16,
        ensures
            final(self).wf(),
            (final(self)@, r) == spec_execute(old(self)@, OpCode::SkipEqualRegister(x, y), 0),
    {
        if self.registers[x.0 as usize] == self.registers[y.0 as usize] {
            self.pc = self.pc.wrapping_add(2);
        }
        Ok(())
    }

    fn load(&mut self, x: V, kk: Byte) -> (r: Result<(), Fault>)
        requires
            old(self).wf(),
            x.0 < 16,
        ensures
            final(self).wf(),
            (final(self)@, r) == spec_execute(old(self)@, OpCode::Load(x, kk), 0),
    {
        self.registers[x.0 as usize] = kk.0;
        Ok(())
    }

    fn add(&mut self, x: V, kk: Byte) -> (r: Result<(), Fault>)
        requires
            old(self).wf(),
            x.0 < 16,
        ensures
            final(self).wf(),
            (final(self)@, r) == spec_execute(old(self)@, OpCode::Add(x, kk), 0),
    {
        let sum: u16 = self.registers[x.0 as usize] as u16 + kk.0 as u16;
        self.registers[x.0 as usize] = (sum % 256) as u8;
        Ok(())
    }

    fn load_register(&mut self, x: V, y: V) -> (r: Result<(), Fault>)
        requires
            old(self).wf(),
            x.0 < 16,
            y.0 < 16,
        ensures
            final(self).wf(),
            (final(self)@, r) == spec_execute(old(self)@, OpCode::LoadRegister(x, y), 0),
    {
        self.registers[x.0 as usize] = self.registers[y.0 as usize];
        Ok(())
    }

    fn or_register(&mut self, x: V, y: V) -> (r: Result<(), Fault>)
        requires
            old(self).wf(),
            x.0 < 16,
            y.0 < 16,
        ensures
            final(self).wf(),
            (final(self)@, r) == spec_execute(old(self)@, OpCode::OrRegister(x, y), 0),
    {
        self.registers[x.0 as usize] = self.registers[x.0 as usize] | self.registers[y.0 as usize];
        Ok(())
    }

    fn and_register(&mut self, x: V, y: V) -> (r: Result<(), Fault>)
        requires
            old(self).wf(),
            x.0 < 16,
            y.0 < 16,
        ensures
            final(self).wf(),
            (final(self)@, r) == spec_execute(old(self)@, OpCode::AndRegister(x, y), 0),
    {
        self.registers[x.0 as usize] = self.registers[x.0 as usize] & self.registers[y.0 as usize];
        Ok(())
    }

    fn xor_register(&mut self, x: V, y: V) -> (r: Result<(), Fault>)
        requires
            old(self).wf(),
            x.0 < 16,
            y.0 < 16,
        ensures
            final(self).wf(),
            (final(self)@, r) == spec_execute(old(self)@, OpCode::XorRegister(x, y), 0),
    {
        self.registers[x.0 as usize] = self.registers[x.0 as usize] ^ self.registers[y.0 as usize];
        Ok(())
    }

    fn add_register(&mut self, x: V, y: V) -> (r: Result<(), Fault>)
        requires
            old(self).wf(),
            x.0 < 16,
            y.0 < 16,
        ensures
            final(self).wf(),
            (final(self)@, r) == spec_execute(old(self)@, OpCode::AddRegister(x, y), 0),
    {
        let sum: u16 = self.registers[x.0 as usize] as u16 + self.registers[y.0 as usize] as u16;
        if sum > 255 {
            self.registers[0xF] = 1;
        } else {
            self.registers[0xF] = 0;
        }
        self.registers[x.0 as usize] = (sum % 256) as u8;
        Ok(())
    }

    fn sub_register(&mut self, x: V, y: V) -> (r: Result<(), Fault>)
        requires
            old(self).wf(),
            x.0 < 16,
            y.0 < 16,
        ensures
            final(self).wf(),
            (final(self)@, r) == spec_execute(old(self)@, OpCode::SubRegister(x, y), 0),
    {
        let a = self.registers[x.0 as usize];
        let b = self.registers[y.0 as usize];
        if a > b {
            self.registers[0xF] = 1;
        } else {
            self.registers[0xF] = 0;
        }
        self.registers[x.0 as usize] = ((a as u16 + 256 - b as u16) % 256) as u8;
        Ok(())
    }

    fn shr_register(&mut self, x: V, y: V) -> (r: Result<(), Fault>)
        requires
            old(self).wf(),
            x.0 < 16,
        ensures
            final(self).wf(),
            (final(self)@, r) == spec_execute(old(self)@, OpCode::ShrRegister(x, y), 0),
    {
        let a = self.registers[x.0 as usize];
        self.registers[0xF] = a & 1;
        self.registers[x.0 as usize] = a / 2;
        Ok(())
    }

    fn sub_not_borrow_register(&mut self, x: V, y: V) -> (r: Result<(), Fault>)
        requires
            old(self).wf(),
            x.0 < 16,
            y.0 < 16,
        ensures
            final(self).wf(),
            (final(self)@, r) == spec_execute(old(self)@, OpCode::SubNotBorrowRegister(x, y), 0),
    {
        let a = self.registers[x.0 as usize];
        let b = self.registers[y.0 as usize];
        if b > a {
            self.registers[0xF] = 1;
        } else {
            self.registers[0xF] = 0;
        }
        self.registers[x.0 as usize] = ((b as u16 + 256 - a as u16) % 256) as u8;
        Ok(())
    }

    fn shl_register(&mut self, x: V, y: V) -> (r: Result<(), Fault>)
        requires
            old(self).wf(),
            x.0 < 16,
        ensures
            final(self).wf(),
            (final(self)@, r) == spec_execute(old(self)@, OpCode::ShlRegister(x, y), 0),
    {
        let a = self.registers[x.0 as usize];
        self.registers[0xF] = a >> 7;
        self.registers[x.0 as usize] = ((a as u16 * 2) % 256) as u8;
        Ok(())
    }

    fn skip_not_equal_register(&mut self, x: V, y: V) -> (r: Result<(), Fault>)
        requires
            old(self).wf(),
            x.0 < 16,
            y.0 < 16,
        ensures
            final(self).wf(),
            (final(self)@, r) == spec_execute(old(self)@, OpCode::SkipNotEqualRegister(x, y), 0),
    {
        if self.registers[x.0 as usize] != self.registers[y.0 as usize] {
            self.pc = self.pc.wrapping_add(2);
        }
        Ok(())
    }

    fn set_index(&mut self, nnn: Addr) -> (r: Result<(), Fault>)
        requires
            old(self).wf(),
            nnn.0 < 0x1000,
        ensures
            final(self).wf(),
            (final(self)@, r) == spec_execute(old(self)@, OpCode::SetIndex(nnn), 0),
    {
        self.i = nnn.0;
        Ok(())
    }

    fn jump_v0(&mut self, nnn: Addr) -> (r: Result<(), Fault>)
        requires
            old(self).wf(),
            nnn.0 < 0x1000,
        ensures
            final(self).wf(),
            (final(self)@, r) == spec_execute(old(self)@, OpCode::JumpV0(nnn), 0),
    {
        self.pc = (nnn.0 + self.registers[0] as u16) % 0x1000;
        Ok(())
    }

    fn execute_random(&mut self, x: V, kk: Byte) -> (r: Result<(), Fault>)
        requires
            old(self).wf(),
            x.0 < 16,
        ensures
            final(self).wf(),
            exists|b: u8| (final(self)@, r) == spec_execute(old(self)@, OpCode::Random(x, kk), b),
    {
        let drawn = crate::rng::draw_byte(&mut self.random_device);
        self.registers[x.0 as usize] = drawn & kk.0;
        proof {
            assert((self@, Ok::<(), Fault>(())) == spec_execute(
                old(self)@,
                OpCode::Random(x, kk),
                drawn,
            ));
        }
        Ok(())
    }

    fn key(&mut self, x: V) -> (r: Result<(), Fault>)
        requires
            old(self).wf(),
            x.0 < 16,
        ensures
            final(self).wf(),
            (final(self)@, r) == spec_execute(old(self)@, OpCode::SkipKey(x), 0),
    {
        let k = self.registers[x.0 as usize] & 0xF;
        proof {
            lemma_low_nibble(self.registers@[x.0 as int]);
        }
        if self.keys[k as usize] {
            self.pc = self.pc.wrapping_add(2);
        }
        Ok(())
    }

    fn skip_not_key(&mut self, x: V) -> (r: Result<(), Fault>)
        requires
            old(self).wf(),
            x.0 < 16,
        ensures
            final(self).wf(),
            (final(self)@, r) == spec_execute(old(self)@, OpCode::SkipNotKey(x), 0),
    {
        let k = self.registers[x.0 as usize] & 0xF;
        proof {
            lemma_low_nibble(self.registers@[x.0 as int]);
        }
        if !self.keys[k as usize] {
            self.pc = self.pc.wrapping_add(2);
        }
        Ok(())
    }

    fn load_dt(&mut self, x: V) -> (r: Result<(), Fault>)
        requires
            old(self).wf(),
            x.0 < 16,
        ensures
            final(self).wf(),
            (final(self)@, r) == spec_execute(old(self)@, OpCode::LoadDelayTimer(x), 0),
    {
        self.registers[x.0 as usize] = self.dt;
        Ok(())
    }

    fn load_key(&mut self, x: V) -> (r: Result<(), Fault>)
        requires
            old(self).wf(),
            x.0 < 16,
        ensures
            final(self).wf(),
            (final(self)@, r) == spec_execute(old(self)@, OpCode::LoadKey(x), 0),
    {
        self.waiting = Some(x.0);
        Ok(())
    }

    fn set_dt(&mut self, x: V) -> (r: Result<(), Fault>)
        requires
            old(self).wf(),
            x.0 < 16,
        ensures
            final(self).wf(),
            (final(self)@, r) == spec_execute(old(self)@, OpCode::SetDelayTimer(x), 0),
    {
        self.dt = self.registers[x.0 as usize];
        Ok(())
    }

    fn set_st(&mut self, x: V) -> (r: Result<(), Fault>)
        requires
            old(self).wf(),
            x.0 < 16,
        ensures
            final(self).wf(),
            (final(self)@, r) == spec_execute(old(self)@, OpCode::SetSoundTimer(x), 0),
    {
        self.st = self.registers[x.0 as usize];
        Ok(())
    }

    fn add_i(&mut self, x: V) -> (r: Result<(), Fault>)
        requires
            old(self).wf(),
            x.0 < 16,
        ensures
            final(self).wf(),
            (final(self)@, r) == spec_execute(old(self)@, OpCode::AddI(x), 0),
    {
        self.i = (self.i + self.registers[x.0 as usize] as u16) % 0x1000;
        Ok(())
    }

    fn load_sprite(&mut self, x: V) -> (r: Result<(), Fault>)
        requires
            old(self).wf(),
            x.0 < 16,
        ensures
            final(self).wf(),
            (final(self)@, r) == spec_execute(old(self)@, OpCode::LoadSprite(x), 0),
    {
        let d = self.registers[x.0 as usize] & 0xF;
        proof {
            lemma_low_nibble(self.registers@[x.0 as int]);
        }
        self.i = FONT_BASE + 5 * (d as u16);
        Ok(())
    }

    fn draw(&mut self, x: V, y: V, n: u8) -> (r: Result<(), Fault>)
        requires
            old(self).wf(),
            x.0 < 16,
            y.0 < 16,
            n < 16,
        ensures
            final(self).wf(),
            (final(self)@, r) == spec_execute(old(self)@, OpCode::Draw(x, y, n), 0),
    {
        if self.i as usize + n as usize > 4096 {
            return Err(Fault::Memory);
        }
        let cx = (self.registers[x.0 as usize] % 64) as usize;
        let cy = (self.registers[y.0 as usize] % 32) as usize;
        let i0 = self.i as usize;
        let mut hit = false;
        let mut row: usize = 0;
        proof {
            assert(self.display@ =~= partial_disp(
                old(self)@.disp,
                old(self)@.mem,
                i0 as int,
                n as int,
                cx as int,
                cy as int,
                0,
                0,
            ));
        }
        while row < n as usize
            invariant
                old(self).wf(),
                x.0 < 16,
                y.0 < 16,
                n < 16,
                cx == old(self)@.regs[x.0 as int] % 64,
                cy == old(self)@.regs[y.0 as int] % 32,
                i0 == old(self)@.index,
                i0 + n <= 4096,
                row <= n,
                same_except_disp(old(self)@, self@),
                self.display@.len() == 2048,
                self.display@ == partial_disp(
                    old(self)@.disp,
                    old(self)@.mem,
                    i0 as int,
                    n as int,
                    cx as int,
                    cy as int,
                    row as int,
                    0,
                ),
                hit == partial_hit(
                    old(self)@.disp,
                    old(self)@.mem,
                    i0 as int,
                    n as int,
                    cx as int,
                    cy as int,
                    row as int,
                    0,
                ),
            decreases n - row,
        {
            let byte = self.memory[i0 + row];
            let mut b: usize = 0;
            while b < 8
                invariant
                    old(self).wf(),
                    x.0 < 16,
                    y.0 < 16,
                    n < 16,
                    cx == old(self)@.regs[x.0 as int] % 64,
                    cy == old(self)@.regs[y.0 as int] % 32,
                    i0 == old(self)@.index,
                    i0 + n <= 4096,
                    row < n,
                    b <= 8,
                    byte == old(self)@.mem[i0 + row],
                    same_except_disp(old(self)@, self@),
                    self.display@.len() == 2048,
                    self.display@ == partial_disp(
                        old(self)@.disp,
                        old(self)@.mem,
                        i0 as int,
                        n as int,
                        cx as int,
                        cy as int,
                        row as int,
                        b as int,
                    ),
                    hit == partial_hit(
                        old(self)@.disp,
                        old(self)@.mem,
                        i0 as int,
                        n as int,
                        cx as int,
                        cy as int,
                        row as int,
                        b as int,
                    ),
                decreases 8 - b,
            {
                let ghost hit0 = hit;
                let ghost disp_at_b = self.display@;
                let sh: u8 = (7 - b) as u8;
                let bitv = ((byte >> sh) & 1) == 1;
                let px = (cx + b) % 64;
                let py = (cy + row) % 32;
                let idx = py * 64 + px;
                proof {
                    lemma_pixel_ident(cx as int, cy as int, row as int, b as int);
                }
                if bitv {
                    let cur = self.display[idx];
                    if cur {
                        hit = true;
                    }
                    self.display[idx] = !cur;
                }
                proof {
                    let gd = old(self)@.disp;
                    let gm = old(self)@.mem;
                    let gi = i0 as int;
                    let gn = n as int;
                    let gx = cx as int;
                    let gy = cy as int;
                    let gr = row as int;
                    let gb = b as int;
                    let gidx = idx as int;
                    assert(sprite_covers(gm, gi, gn, gx, gy, gidx) == bitv);
                    assert(!processed_before(gn, gx, gy, gr, gb, gidx));
                    assert(disp_at_b[gidx] == gd[gidx]);
                    assert forall|p: int|
                        0 <= p < 2048 && p != gidx implies (processed_before(
                        gn,
                        gx,
                        gy,
                        gr,
                        gb + 1,
                        p,
                    ) == processed_before(gn, gx, gy, gr, gb, p)) by {
                        if ((p / 64) - gy + 32) % 32 == gr && ((p % 64) - gx + 64) % 64 == gb {
                            lemma_pixel_unique(gx, gy, gr, gb, p);
                        }
                    }
                    assert(self.display@ =~= partial_disp(gd, gm, gi, gn, gx, gy, gr, gb + 1));
                    assert(processed_before(gn, gx, gy, gr, gb + 1, gidx) == (gr < gn && gb < 8));
                    if hit {
                        if hit0 {
                            let p = choose|p: int|
                                0 <= p < 2048 && sprite_covers(gm, gi, gn, gx, gy, p)
                                    && processed_before(gn, gx, gy, gr, gb, p) && gd[p];
                            assert(processed_before(gn, gx, gy, gr, gb + 1, p));
                            assert(partial_hit(gd, gm, gi, gn, gx, gy, gr, gb + 1));
                        } else {
                            assert(sprite_covers(gm, gi, gn, gx, gy, gidx) && processed_before(
                                gn,
                                gx,
                                gy,
                                gr,
                                gb + 1,
                                gidx,
                            ) && gd[gidx]);
                            assert(partial_hit(gd, gm, gi, gn, gx, gy, gr, gb + 1));
                        }
                    } else {
                        assert forall|p: int|
                            0 <= p < 2048 && sprite_covers(gm, gi, gn, gx, gy, p)
                                && processed_before(gn, gx, gy, gr, gb + 1, p) implies !gd[p] by {
                            if processed_before(gn, gx, gy, gr, gb, p) {
                                assert(!partial_hit(gd, gm, gi, gn, gx, gy, gr, gb));
                            } else {
                                lemma_pixel_unique(gx, gy, gr, gb, p);
                            }
                        }
                        assert(!partial_hit(gd, gm, gi, gn, gx, gy, gr, gb + 1));
                    }
                    assert(hit == partial_hit(gd, gm, gi, gn, gx, gy, gr, gb + 1));
                }
                b = b + 1;
            }
            proof {
                lemma_row_step(
                    old(self)@.disp,
                    old(self)@.mem,
                    i0 as int,
                    n as int,
                    cx as int,
                    cy as int,
                    row as int,
                );
            }
            row = row + 1;
        }
        proof {
            lemma_draw_complete(
                old(self)@.disp,
                old(self)@.mem,
                i0 as int,
                n as int,
                cx as int,
                cy as int,
            );
        }
        if hit {
            self.registers[0xF] = 1;
        } else {
            self.registers[0xF] = 0;
        }
        proof {
            assert(self@ =~~= spec_execute(old(self)@, OpCode::Draw(x, y, n), 0).0);
        }
        Ok(())
    }

    fn clearscreen(&mut self) -> (r: Result<(), Fault>)
        requires
            old(self).wf(),
        ensures
            final(self).wf(),
            (final(self)@, r) == spec_execute(old(self)@, OpCode::ClearScreen, 0),
    {
        let mut p: usize = 0;
        while p < 2048
            invariant
                old(self).wf(),
                p <= 2048,
                same_except_disp(old(self)@, self@),
                self.display@.len() == 2048,
                forall|k: int| 0 <= k < p ==> !self.display@[k],
            decreases 2048 - p,
        {
            self.display[p] = false;
            p = p + 1;
        }
        proof {
            assert(self@ =~~= (VmState { disp: Seq::new(2048, |q: int| false), ..old(self)@ }));
        }
        Ok(())
    }

    fn save_registers(&mut self, x: V) -> (r: Result<(), Fault>)
        requires
            old(self).wf(),
            x.0 < 16,
        ensures
            final(self).wf(),
            (final(self)@, r) == spec_execute(old(self)@, OpCode::SaveRegisters(x), 0),
    {
        if self.i as usize + x.0 as usize >= 4096 {
            return Err(Fault::Memory);
        }
        let mut off: usize = 0;
        while off <= x.0 as usize
            invariant
                old(self).wf(),
                x.0 < 16,
                old(self)@.index + x.0 < 4096,
                off <= x.0 + 1,
                same_except_mem(old(self)@, self@),
                self.memory@.len() == 4096,
                forall|k: int|
                    0 <= k < 4096 ==> self.memory@[k] == (if old(self)@.index <= k < old(
                        self,
                    )@.index + off {
                        old(self)@.regs[k - old(self)@.index]
                    } else {
                        old(self)@.mem[k]
                    }),
            decreases x.0 + 1 - off,
        {
            self.memory[self.i as usize + off] = self.registers[off];
            off = off + 1;
        }
        proof {
            assert(self@.mem =~= Seq::new(
                4096,
                |k: int|
                    if old(self)@.index <= k <= old(self)@.index + x.0 {
                        old(self)@.regs[k - old(self)@.index]
                    } else {
                        old(self)@.mem[k]
                    },
            ));
            assert(self@ =~~= spec_execute(old(self)@, OpCode::SaveRegisters(x), 0).0);
        }
        Ok(())
    }

    fn load_registers(&mut self, x: V) -> (r: Result<(), Fault>)
        requires
            old(self).wf(),
            x.0 < 16,
        ensures
            final(self).wf(),
            (final(self)@, r) == spec_execute(old(self)@, OpCode::LoadRegisters(x), 0),
    {
        if self.i as usize + x.0 as usize >= 4096 {
            return Err(Fault::Memory);
        }
        let mut off: usize = 0;
        while off <= x.0 as usize
            invariant
                old(self).wf(),
                x.0 < 16,
                old(self)@.index + x.0 < 4096,
                off <= x.0 + 1,
                same_except_regs(old(self)@, self@),
                self.registers@.len() == 16,
                forall|k: int|
                    0 <= k < 16 ==> self.registers@[k] == (if k < off {
                        old(self)@.mem[old(self)@.index + k]
                    } else {
                        old(self)@.regs[k]
                    }),
            decreases x.0 + 1 - off,
        {
            self.registers[off] = self.memory[self.i as usize + off];
            off = off + 1;
        }
        proof {
            assert(self@.regs =~= Seq::new(
                16,
                |k: int|
                    if k <= x.0 {
                        old(self)@.mem[old(self)@.index + k]
                    } else {
                        old(self)@.regs[k]
                    },
            ));
            assert(self@ =~~= spec_execute(old(self)@, OpCode::LoadRegisters(x), 0).0);
        }
        Ok(())
    }

    fn load_bcd(&mut self, x: V) -> (r: Result<(), Fault>)
        requires
            old(self).wf(),
            x.0 < 16,
        ensures
            final(self).wf(),
            (final(self)@, r) == spec_execute(old(self)@, OpCode::LoadBCD(x), 0),
    {
        if self.i >= 4094 {
            return Err(Fault::Memory);
        }
        let v = self.registers[x.0 as usize];
        self.memory[self.i as usize] = v / 100;
        self.memory[self.i as usize + 1] = (v / 10) % 10;
        self.memory[self.i as usize + 2] = v % 10;
        Ok(())
    }

    /// Execute one decoded instruction against the current state. The
    /// successor state and result are exactly those of [`spec_execute`],
    /// for some byte `b` drawn from the random source; every instruction
    /// but `Random` ignores `b`, so for those the relation is exact.
    pub fn execute(&mut self, op: OpCode) -> (r: Result<(), Fault>)
        requires
            old(self).wf(),
            op.wf(),
        ensures
            final(self).wf(),
            exists|b: u8| (final(self)@, r) == spec_execute(old(self)@, op, b),
            !(op matches OpCode::Random(_, _)) ==> (final(self)@, r) == spec_execute(
                old(self)@,
                op,
                0,
            ),
    {
        match op {
            OpCode::System(nnn) => self.system(nnn),
            OpCode::ClearScreen => self.clearscreen(),
            OpCode::Return => self.execute_return(),
            OpCode::Jump(nnn) => self.jump(nnn),
            OpCode::Call(nnn) => self.execute_call(nnn),
            OpCode::SkipEqual(x, kk) => self.skip_equal(x, kk),
            OpCode::SkipNotEqual(x, kk) => self.skip_not_equal(x, kk),
            OpCode::SkipEqualRegister(x, y) => self.skip_equal_register(x, y),
            OpCode::Load(x, kk) => self.load(x, kk),
            OpCode::Add(x, kk) => self.add(x, kk),
            OpCode::LoadRegister(x, y) => self.load_register(x, y),
            OpCode::OrRegister(x, y) => self.or_register(x, y),
            OpCode::AndRegister(x, y) => self.and_register(x, y),
            OpCode::XorRegister(x, y) => self.xor_register(x, y),
            OpCode::AddRegister(x, y) => self.add_register(x, y),
            OpCode::SubRegister(x, y) => self.sub_register(x, y),
            OpCode::ShrRegister(x, y) => self.shr_register(x, y),
            OpCode::SubNotBorrowRegister(x, y) => self.sub_not_borrow_register(x, y),
            OpCode::ShlRegister(x, y) => self.shl_register(x, y),
            OpCode::SkipNotEqualRegister(x, y) => self.skip_not_equal_register(x, y),
            OpCode::SetIndex(nnn) => self.set_index(nnn),
            OpCode::JumpV0(nnn) => self.jump_v0(nnn),
            OpCode::Random(x, kk) => self.execute_random(x, kk),
            OpCode::Draw(x, y, n) => self.draw(x, y, n),
            OpCode::SkipKey(x) => self.key(x),
            OpCode::SkipNotKey(x) => self.skip_not_key(x),
            OpCode::LoadDelayTimer(x) => self.load_dt(x),
            OpCode::LoadKey(x) => self.load_key(x),
            OpCode::SetDelayTimer(x) => self.set_dt(x),
            OpCode::SetSoundTimer(x) => self.set_st(x),
            OpCode::AddI(x) => self.add_i(x),
            OpCode::LoadSprite(x) => self.load_sprite(x),
            OpCode::LoadBCD(x) => self.load_bcd(x),
            OpCode::SaveRegisters(x) => self.save_registers(x),
            OpCode::LoadRegisters(x) => self.load_registers(x),
        }
    }

    /// One machine cycle: fetch the big-endian word at the program counter,
    /// advance the counter past it, decode, and execute. A machine parked
    /// awaiting a key does nothing. Fetching past the end of memory is a
    /// memory fault; a word that decodes to nothing is a decode fault, and
    /// execution does not proceed on it.
    pub fn step(&mut self) -> (r: Result<(), Fault>)
        requires
            old(self).wf(),
        ensures
            final(self).wf(),
            old(self)@.waiting is Some ==> final(self)@ == old(self)@ && r == Ok::<(), Fault>(()),
            old(self)@.waiting is None && old(self)@.pc + 1 >= 4096 ==> final(self)@ == old(self)@
                && r == Err::<(), Fault>(Fault::Memory),
            old(self)@.waiting is None && old(self)@.pc + 1 < 4096 ==> ({
                let w = fetched_word(old(self)@);
                let s1 = VmState { pc: (old(self)@.pc + 2) as u16, ..old(self)@ };
                match spec_decode(w) {
                    Option::None => final(self)@ == s1 && r == Err::<(), Fault>(Fault::Decode),
                    Option::Some(op) => (exists|b: u8|
                        (final(self)@, r) == spec_execute(s1, op, b)) && (!(op
                        matches OpCode::Random(_, _)) ==> (final(self)@, r) == spec_execute(
                        s1,
                        op,
                        0,
                    )),
                }
            }),
    {
        match self.waiting {
            Some(_) => {
                return Ok(());
            },
            None => {},
        }
        if self.pc >= 4095 {
            return Err(Fault::Memory);
        }
        let hi = self.memory[self.pc as usize];
        let lo = self.memory[self.pc as usize + 1];
        let w: u16 = ((hi as u16) << 8) | (lo as u16);
        self.pc = self.pc + 2;
        let op = match OpCode::try_from(w) {
            Ok(op) => op,
            Err(f) => {
                return Err(f);
            },
        };
        self.execute(op)
    }
}

} // verus!
