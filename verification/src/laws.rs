//! The laws the machine obeys, stated over the abstract state and proved
//! once and for all.

use vstd::prelude::*;

use crate::command::{spec_decode, spec_opcode, Command, RegId};
use crate::machine::{
    spec_exec_cmd, spec_step, wrap_add, wrap_mul, State,
};

verus! {

/// Executing any single instruction preserves the machine's structural
/// invariant; in particular array 0 stays live.
pub proof fn lemma_exec_cmd_preserves_wf(s: State, c: Command, input: u32)
    requires
        s.wf(),
        c.wf(),
    ensures
        spec_exec_cmd(s, c, input).0.wf(),
{
    match c {
        Command::Alloc { dst, size } => {
            if s.next_id != 0xFFFFFFFFu32 {
                let h2 = spec_exec_cmd(s, c, input).0.heap;
                assert forall|k: u32| #[trigger] h2.contains_key(k) implies k < (s.next_id
                    + 1) as u32 by {
                    if k != s.next_id {
                        assert(s.heap.contains_key(k));
                    }
                }
            }
        },
        Command::ArrStore { src, arr, offset } => {
            let a = s.reg(arr);
            if s.heap.contains_key(a) && s.reg(offset) < s.heap[a].len() {
                let h2 = s.heap.insert(a, s.heap[a].update(s.reg(offset) as int, s.reg(src)));
                assert forall|k: u32| #[trigger] h2.contains_key(k) implies k < s.next_id by {
                    if k != a {
                        assert(s.heap.contains_key(k));
                    }
                }
            }
        },
        Command::LoadProg { arr, offset } => {
            let a = s.reg(arr);
            if a != 0 && s.heap.contains_key(a) {
                let h2 = s.heap.insert(0, s.heap[a]);
                assert forall|k: u32| #[trigger] h2.contains_key(k) implies k < s.next_id by {
                    if k != 0 {
                        assert(s.heap.contains_key(k));
                    }
                }
            }
        },
        _ => {},
    }
}

/// Every reachable state keeps array 0 live: a full cycle preserves the
/// structural invariant.  Moreover a cycle fetches only inside array 0:
/// if it raises no fault, the instruction pointer was strictly below the
/// length of array 0.
pub proof fn lemma_step_preserves_wf(s: State, input: u32)
    requires
        s.wf(),
    ensures
        spec_step(s, input).0.wf(),
        spec_step(s, input).0.heap.contains_key(0),
        s.ready() && spec_step(s, input).0.fault is None ==> s.ip < s.heap[0].len(),
{
    if s.ready() && s.ip < s.heap[0].len() {
        let p = s.heap[0][s.ip as int];
        if spec_opcode(p) <= 13 {
            Command::lemma_decode_wf(p);
            lemma_exec_cmd_preserves_wf(s, spec_decode(p), input);
        }
    }
}

/// Register values always fit in 32 bits.
pub proof fn lemma_registers_fit(s: State)
    requires
        s.wf(),
    ensures
        forall|i: int| 0 <= i < 8 ==> s.regs[i] <= 0xFFFFFFFFu32,
{
}

/// A successful Allocation hands back an identifier that is not 0 and
/// was not live before the instruction; afterwards it is live and its
/// array has the requested length.
pub proof fn lemma_alloc_fresh(s: State, input: u32, dst: RegId, size: RegId)
    requires
        s.wf(),
        s.ready(),
        s.ip < s.heap[0].len(),
        spec_decode(s.heap[0][s.ip as int]) == (Command::Alloc { dst, size }),
        spec_opcode(s.heap[0][s.ip as int]) <= 13,
        spec_step(s, input).0.fault is None,
    ensures
        ({
            let s2 = spec_step(s, input).0;
            let id = s2.reg(dst);
            &&& id != 0
            &&& !s.heap.contains_key(id)
            &&& s2.heap.contains_key(id)
            &&& s2.heap[id].len() == s.reg(size)
        }),
{
    Command::lemma_decode_wf(s.heap[0][s.ip as int]);
}

/// After Abandonment, the abandoned identifier is no longer live.
pub proof fn lemma_free_removes(s: State, input: u32, arr: RegId)
    requires
        s.wf(),
        s.ready(),
        s.ip < s.heap[0].len(),
        spec_decode(s.heap[0][s.ip as int]) == (Command::Free { arr }),
        spec_opcode(s.heap[0][s.ip as int]) <= 13,
        spec_step(s, input).0.fault is None,
    ensures
        !spec_step(s, input).0.heap.contains_key(s.reg(arr)),
{
    Command::lemma_decode_wf(s.heap[0][s.ip as int]);
}

/// A successful Load Program from a source other than array 0 installs a
/// copy: array 0 then holds the source's platters, and every other
/// array, the source itself included, is exactly as it was.
pub proof fn lemma_load_prog_copies(s: State, input: u32, arr: RegId, offset: RegId)
    requires
        s.wf(),
        s.ready(),
        s.ip < s.heap[0].len(),
        spec_decode(s.heap[0][s.ip as int]) == (Command::LoadProg { arr, offset }),
        spec_opcode(s.heap[0][s.ip as int]) <= 13,
        s.reg(arr) != 0,
        spec_step(s, input).0.fault is None,
    ensures
        ({
            let s2 = spec_step(s, input).0;
            &&& s2.heap[0] == s.heap[s.reg(arr)]
            &&& forall|k: u32|
                k != 0 ==> s2.heap.contains_key(k) == s.heap.contains_key(k)
            &&& forall|k: u32|
                k != 0 && s.heap.contains_key(k) ==> s2.heap[k] == s.heap[k]
        }),
{
    Command::lemma_decode_wf(s.heap[0][s.ip as int]);
}

/// Array Amendment writes one cell of one array and touches nothing
/// else.  Together with `lemma_load_prog_copies` this is the deep-copy
/// guarantee: after a Load Program from a source other than 0, amending
/// array 0 leaves the source unchanged, and amending the source leaves
/// array 0 unchanged.
pub proof fn lemma_amend_touches_one(s: State, input: u32, src: RegId, arr: RegId, offset: RegId)
    requires
        s.wf(),
        s.ready(),
        s.ip < s.heap[0].len(),
        spec_decode(s.heap[0][s.ip as int]) == (Command::ArrStore { src, arr, offset }),
        spec_opcode(s.heap[0][s.ip as int]) <= 13,
        spec_step(s, input).0.fault is None,
    ensures
        ({
            let s2 = spec_step(s, input).0;
            let a = s.reg(arr);
            &&& s2.heap[a] == s.heap[a].update(s.reg(offset) as int, s.reg(src))
            &&& forall|k: u32|
                k != a ==> s2.heap.contains_key(k) == s.heap.contains_key(k)
            &&& forall|k: u32|
                k != a && s.heap.contains_key(k) ==> s2.heap[k] == s.heap[k]
        }),
{
    Command::lemma_decode_wf(s.heap[0][s.ip as int]);
}

/// The instruction pointer is post-incremented by exactly the
/// instructions that are not Load Program: a faultless cycle on any
/// other instruction leaves `ip` one past the fetched platter, while
/// Load Program assigns `ip` the value of its offset register.  (At the
/// value level the two can coincide: a Load Program whose offset
/// register happens to hold `ip + 1` also lands there.)
pub proof fn lemma_ip_advance(s: State, input: u32)
    requires
        s.wf(),
        s.ready(),
        s.ip < s.heap[0].len(),
        spec_opcode(s.heap[0][s.ip as int]) <= 13,
        spec_step(s, input).0.fault is None,
    ensures
        ({
            let c = spec_decode(s.heap[0][s.ip as int]);
            let s2 = spec_step(s, input).0;
            &&& !(c is LoadProg) ==> s2.ip == s.ip + 1
            &&& (c matches Command::LoadProg { arr, offset } ==> s2.ip == s.reg(offset))
        }),
{
}

/// Addition and multiplication at the register level are modulo 2^32;
/// both commute, and 0 and 1 are their identities.
pub proof fn lemma_arith_laws(x: u32, y: u32)
    ensures
        wrap_add(x, y) == wrap_add(y, x),
        wrap_mul(x, y) == wrap_mul(y, x),
        wrap_add(x, 0) == x,
        wrap_mul(x, 1) == x,
{
    assert(x * y == y * x) by (nonlinear_arith);
    vstd::arithmetic::div_mod::lemma_small_mod(x as nat, 0x1_0000_0000);
    assert(wrap_add(x, 0) == x);
    assert(x * 1 == x);
    assert(wrap_mul(x, 1) == x);
}

/// Not-And composition: `NAND(x, x)` is bitwise NOT, and
/// `NAND(NAND(x, x), NAND(y, y))` is bitwise OR.
pub proof fn lemma_nand_laws(x: u32, y: u32)
    ensures
        !(x & x) == !x,
        !(!(x & x) & !(y & y)) == (x | y),
{
    assert(!(x & x) == !x) by (bit_vector);
    assert(!(!(x & x) & !(y & y)) == (x | y)) by (bit_vector);
}

/// Division by 1 is the identity, and 0 divided by anything nonzero is 0.
pub proof fn lemma_div_laws(x: u32, y: u32)
    requires
        y != 0,
    ensures
        x / 1 == x,
        0u32 / y == 0,
{
}

} // verus!
