//! The laws the instruction set obeys, each proved from the transition
//! function that the execution engine is verified against.

use vstd::prelude::*;

use crate::opcode::{Addr, Fault, OpCode, V};
use crate::semantics::{
    bit_of, draw_disp, draw_hit, lemma_pixel_ident, spec_execute, sprite_covers, VmState,
};

verus! {

/// Adding two registers stores their sum modulo 256 and raises the flag
/// register exactly when the true sum exceeds 255; the flag survives only
/// when the destination is not the flag register itself.
pub proof fn lemma_add_register(s: VmState, x: V, y: V)
    requires
        s.wf(),
        x.0 < 16,
        y.0 < 16,
    ensures
        ({
            let a = s.regs[x.0 as int];
            let b = s.regs[y.0 as int];
            let t = spec_execute(s, OpCode::AddRegister(x, y), 0);
            &&& t.1 == Ok::<(), Fault>(())
            &&& t.0.regs[x.0 as int] == (a + b) % 256
            &&& x.0 != 15 ==> t.0.regs[15] == (if a + b > 255 {
                1u8
            } else {
                0u8
            })
        }),
{
}

/// Subtracting `Vy` from `Vx` stores the difference modulo 256 and raises
/// the flag exactly when `Vx` was strictly greater: the not-borrow rule.
pub proof fn lemma_sub_register(s: VmState, x: V, y: V)
    requires
        s.wf(),
        x.0 < 16,
        y.0 < 16,
    ensures
        ({
            let a = s.regs[x.0 as int];
            let b = s.regs[y.0 as int];
            let t = spec_execute(s, OpCode::SubRegister(x, y), 0);
            &&& t.1 == Ok::<(), Fault>(())
            &&& t.0.regs[x.0 as int] == (a - b) % 256
            &&& x.0 != 15 ==> t.0.regs[15] == (if a > b {
                1u8
            } else {
                0u8
            })
        }),
{
}

/// A right shift halves the register and the flag captures the low bit of
/// the pre-shift value: the bit that was shifted out.
pub proof fn lemma_shr_register(s: VmState, x: V, y: V)
    requires
        s.wf(),
        x.0 < 16,
    ensures
        ({
            let a = s.regs[x.0 as int];
            let t = spec_execute(s, OpCode::ShrRegister(x, y), 0);
            &&& t.1 == Ok::<(), Fault>(())
            &&& t.0.regs[x.0 as int] == a / 2
            &&& x.0 != 15 ==> t.0.regs[15] == a & 1
        }),
{
}

/// A left shift doubles the register modulo 256 and the flag captures the
/// high bit of the pre-shift value: the bit that was shifted out.
pub proof fn lemma_shl_register(s: VmState, x: V, y: V)
    requires
        s.wf(),
        x.0 < 16,
    ensures
        ({
            let a = s.regs[x.0 as int];
            let t = spec_execute(s, OpCode::ShlRegister(x, y), 0);
            &&& t.1 == Ok::<(), Fault>(())
            &&& t.0.regs[x.0 as int] == (2 * a) % 256
            &&& x.0 != 15 ==> t.0.regs[15] == a >> 7
        }),
{
}

/// Whether an instruction is a conditional skip, and whether its condition
/// holds in a state.
pub open spec fn skip_condition(s: VmState, op: OpCode) -> Option<bool> {
    match op {
        OpCode::SkipEqual(x, kk) => Some(s.regs[x.0 as int] == kk.0),
        OpCode::SkipNotEqual(x, kk) => Some(s.regs[x.0 as int] != kk.0),
        OpCode::SkipEqualRegister(x, y) => Some(s.regs[x.0 as int] == s.regs[y.0 as int]),
        OpCode::SkipNotEqualRegister(x, y) => Some(s.regs[x.0 as int] != s.regs[y.0 as int]),
        OpCode::SkipKey(x) => Some(s.keys[(s.regs[x.0 as int] & 0xF) as int]),
        OpCode::SkipNotKey(x) => Some(!s.keys[(s.regs[x.0 as int] & 0xF) as int]),
        _ => None,
    }
}

/// Executed right after its fetch advanced the counter by 2, a skip whose
/// condition fires leaves the counter 4 past its pre-fetch value, and one
/// that does not fire leaves it 2 past; no skip touches a register.
pub proof fn lemma_skip_advance(s: VmState, op: OpCode)
    requires
        s.wf(),
        op.wf(),
        skip_condition(s, op) is Some,
        s.pc + 4 < 0x10000,
    ensures
        ({
            let s1 = VmState { pc: (s.pc + 2) as u16, ..s };
            let t = spec_execute(s1, op, 0);
            &&& t.1 == Ok::<(), Fault>(())
            &&& t.0.pc == if skip_condition(s, op) == Some(true) {
                s.pc + 4
            } else {
                s.pc + 2
            }
            &&& t.0.regs == s.regs
        }),
{
}

/// A call pushes the already-advanced return address; the matching return
/// restores both the program counter and the stack depth.
pub proof fn lemma_call_return(s: VmState, nnn: Addr)
    requires
        s.wf(),
        nnn.0 < 0x1000,
        s.sp < 16,
    ensures
        ({
            let t1 = spec_execute(s, OpCode::Call(nnn), 0);
            let t2 = spec_execute(t1.0, OpCode::Return, 0);
            &&& t1.1 == Ok::<(), Fault>(())
            &&& t1.0.pc == nnn.0
            &&& t2.1 == Ok::<(), Fault>(())
            &&& t2.0.pc == s.pc
            &&& t2.0.sp == s.sp
        }),
{
}

/// A call faults exactly when all 16 frames are in use, a return exactly
/// when none is; a faulting instruction leaves the state untouched.
pub proof fn lemma_stack_faults(s: VmState, nnn: Addr)
    requires
        s.wf(),
    ensures
        ({
            let tc = spec_execute(s, OpCode::Call(nnn), 0);
            let tr = spec_execute(s, OpCode::Return, 0);
            &&& tc.1 == if s.sp >= 16 {
                Err::<(), Fault>(Fault::Stack)
            } else {
                Ok::<(), Fault>(())
            }
            &&& s.sp >= 16 ==> tc.0 == s
            &&& s.sp < 16 ==> tc.0.sp == s.sp + 1
            &&& tr.1 == if s.sp == 0 {
                Err::<(), Fault>(Fault::Stack)
            } else {
                Ok::<(), Fault>(())
            }
            &&& s.sp == 0 ==> tr.0 == s
            &&& s.sp > 0 ==> tr.0.sp == s.sp - 1
        }),
{
}

/// Saving registers 0 through `x`, wiping those registers, then loading
/// them back restores every register exactly.
pub proof fn lemma_save_wipe_load(s: VmState, x: V)
    requires
        s.wf(),
        x.0 < 16,
        s.index + x.0 < 4096,
    ensures
        ({
            let t1 = spec_execute(s, OpCode::SaveRegisters(x), 0);
            let s2 = VmState {
                regs: Seq::new(
                    16,
                    |k: int|
                        if k <= x.0 {
                            0u8
                        } else {
                            t1.0.regs[k]
                        },
                ),
                ..t1.0
            };
            let t2 = spec_execute(s2, OpCode::LoadRegisters(x), 0);
            &&& t1.1 == Ok::<(), Fault>(())
            &&& t2.1 == Ok::<(), Fault>(())
            &&& t2.0.regs =~= s.regs
        }),
{
    let t1 = spec_execute(s, OpCode::SaveRegisters(x), 0);
    let s2 = VmState {
        regs: Seq::new(
            16,
            |k: int|
                if k <= x.0 {
                    0u8
                } else {
                    t1.0.regs[k]
                },
        ),
        ..t1.0
    };
    let t2 = spec_execute(s2, OpCode::LoadRegisters(x), 0);
    assert(t2.0.regs =~= s.regs);
}

/// A non-zero byte has a set bit.
proof fn lemma_nonzero_byte_bit(b: u8)
    requires
        b != 0,
    ensures
        exists|k: int| 0 <= k < 8 && #[trigger] bit_of(b, k),
{
    assert((b >> 0) & 1 == 1 || (b >> 1) & 1 == 1 || (b >> 2) & 1 == 1 || (b >> 3) & 1 == 1 || (b
        >> 4) & 1 == 1 || (b >> 5) & 1 == 1 || (b >> 6) & 1 == 1 || (b >> 7) & 1 == 1)
        by (bit_vector)
        requires
            b != 0,
    ;
    if (b >> 0) & 1 == 1 {
        assert(bit_of(b, 0));
    } else if (b >> 1) & 1 == 1 {
        assert(bit_of(b, 1));
    } else if (b >> 2) & 1 == 1 {
        assert(bit_of(b, 2));
    } else if (b >> 3) & 1 == 1 {
        assert(bit_of(b, 3));
    } else if (b >> 4) & 1 == 1 {
        assert(bit_of(b, 4));
    } else if (b >> 5) & 1 == 1 {
        assert(bit_of(b, 5));
    } else if (b >> 6) & 1 == 1 {
        assert(bit_of(b, 6));
    } else {
        assert(bit_of(b, 7));
    }
}

/// Drawing a non-empty sprite that collides with nothing reports no
/// collision, and drawing it again at the same spot reports one: the second
/// pass erases what the first drew.
pub proof fn lemma_draw_twice(s: VmState, x: V, y: V, n: u8)
    requires
        s.wf(),
        x.0 < 16,
        y.0 < 16,
        x.0 != 15,
        y.0 != 15,
        n < 16,
        s.index + n <= 4096,
        !draw_hit(
            s.disp,
            s.mem,
            s.index as int,
            n as int,
            (s.regs[x.0 as int] % 64) as int,
            (s.regs[y.0 as int] % 32) as int,
        ),
        exists|r: int| 0 <= r < n && #[trigger] s.mem[s.index + r] != 0,
    ensures
        ({
            let t1 = spec_execute(s, OpCode::Draw(x, y, n), 0);
            let t2 = spec_execute(t1.0, OpCode::Draw(x, y, n), 0);
            &&& t1.1 == Ok::<(), Fault>(())
            &&& t1.0.regs[15] == 0
            &&& t2.1 == Ok::<(), Fault>(())
            &&& t2.0.regs[15] == 1
        }),
{
    let cx: int = (s.regs[x.0 as int] % 64) as int;
    let cy: int = (s.regs[y.0 as int] % 32) as int;
    let i = s.index as int;
    let t1 = spec_execute(s, OpCode::Draw(x, y, n), 0);
    assert(t1.0.regs[x.0 as int] == s.regs[x.0 as int]);
    assert(t1.0.regs[y.0 as int] == s.regs[y.0 as int]);
    let r = choose|r: int| 0 <= r < n && #[trigger] s.mem[s.index + r] != 0;
    lemma_nonzero_byte_bit(s.mem[i + r]);
    let k = choose|k: int| 0 <= k < 8 && #[trigger] bit_of(s.mem[i + r], k);
    lemma_pixel_ident(cx, cy, r, 7 - k);
    let p = ((cy + r) % 32) * 64 + ((cx + (7 - k)) % 64);
    assert(sprite_covers(s.mem, i, n as int, cx, cy, p));
    assert(!s.disp[p]);
    assert(t1.0.disp == draw_disp(s.disp, s.mem, i, n as int, cx, cy));
    assert(t1.0.disp[p] == (s.disp[p] != sprite_covers(s.mem, i, n as int, cx, cy, p)));
    assert(t1.0.disp[p]);
    assert(sprite_covers(t1.0.mem, i, n as int, cx, cy, p) && t1.0.disp[p]);
    assert(draw_hit(t1.0.disp, t1.0.mem, i, n as int, cx, cy));
}

} // verus!
