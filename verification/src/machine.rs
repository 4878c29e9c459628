//! The Universal Machine itself: eight registers, an instruction pointer,
//! a heap of platter arrays keyed by 32-bit identifiers, and the
//! fetch-decode-execute loop.
//!
//! The heap is a `rustc_hash::FxHashMap`; verified code reaches it only
//! through the trusted wrappers at the top of this file, whose contracts
//! speak of the map's abstract view.

use vstd::prelude::*;

use crate::command::{
    spec_decode, spec_opcode, Command, Plate, RegId,
};
use crate::io::IOInterface;
use rustc_hash::FxHashMap;

verus! {

/// Declares `rustc_hash::FxBuildHasher` (the hasher state of an
/// `FxHashMap`) so that the map type can appear in verified signatures.
#[verifier::external_type_specification]
#[verifier::external_body]
pub struct ExFxBuildHasher(rustc_hash::FxBuildHasher);

/// The empty heap of platter vectors.
pub open spec fn empty_heap() -> Map<Plate, Vec<Plate>> {
    Map::empty()
}

/// Relies on `HashMap::default` (here with rustc_hash's `FxBuildHasher`):
/// the freshly built map is empty.
#[verifier::external_body]
fn heap_empty() -> (m: FxHashMap<Plate, Vec<Plate>>)
    ensures
        m@ == empty_heap(),
{
    FxHashMap::default()
}

/// Relies on `HashMap::get`: returns the value stored at the key exactly
/// when the key is present.
#[verifier::external_body]
fn heap_get<'a>(m: &'a FxHashMap<Plate, Vec<Plate>>, k: Plate) -> (r: Option<&'a Vec<Plate>>)
    ensures
        (match r {
            Some(v) => m@.contains_key(k) && *v == m@[k],
            None => !m@.contains_key(k),
        }),
{
    m.get(&k)
}

/// Relies on `HashMap::insert`: afterwards the map sends the key to the
/// value and is unchanged elsewhere.
#[verifier::external_body]
fn heap_insert(m: &mut FxHashMap<Plate, Vec<Plate>>, k: Plate, v: Vec<Plate>)
    ensures
        final(m)@ == old(m)@.insert(k, v),
{
    m.insert(k, v);
}

/// Relies on `HashMap::remove`: afterwards the key is absent and the map
/// is unchanged elsewhere; the value that was stored, if any, is returned.
#[verifier::external_body]
fn heap_remove(m: &mut FxHashMap<Plate, Vec<Plate>>, k: Plate) -> (r: Option<Vec<Plate>>)
    ensures
        final(m)@ == old(m)@.remove(k),
        (match r {
            Some(v) => old(m)@.contains_key(k) && v == old(m)@[k],
            None => !old(m)@.contains_key(k),
        }),
{
    m.remove(&k)
}

/// The map of platter sequences that a heap of platter vectors stands for.
pub open spec fn heap_view(m: Map<Plate, Vec<Plate>>) -> Map<Plate, Seq<Plate>> {
    Map::new(|k: Plate| m.contains_key(k), |k: Plate| m[k]@)
}

proof fn lemma_heap_view_insert(m: Map<Plate, Vec<Plate>>, k: Plate, v: Vec<Plate>)
    ensures
        heap_view(m.insert(k, v)) == heap_view(m).insert(k, v@),
{
    assert(heap_view(m.insert(k, v)) =~= heap_view(m).insert(k, v@));
}

proof fn lemma_heap_view_remove(m: Map<Plate, Vec<Plate>>, k: Plate)
    ensures
        heap_view(m.remove(k)) == heap_view(m).remove(k),
{
    assert(heap_view(m.remove(k)) =~= heap_view(m).remove(k));
}

/// The terminal failure conditions, distinct from a clean halt.
#[derive(Clone, Copy, Debug, PartialEq, Eq, Structural)]
pub enum Fault {
    /// Division with a zero divisor.
    DivideByZero,
    /// Array Index, Array Amendment, Abandonment or Load Program named an
    /// identifier with no live array.
    UnknownArray,
    /// Array Index or Array Amendment past the end of the array.
    OffsetOutOfBounds,
    /// Abandonment of the program array (identifier 0).
    FreeOfArrayZero,
    /// Output of a value above 255 while outputs are checked strictly.
    OutputTooLarge,
    /// A platter whose opcode is 14 or 15 was fetched.
    UndefinedOpcode,
    /// The instruction pointer left the program array.
    IpOutOfBounds,
    /// The 32-bit allocation counter is exhausted.
    IdExhausted,
}

/// The eight general-purpose registers.
pub struct Registers {
    pub regs: [Plate; 8],
}

impl Registers {
    /// Read the register with the given index.
    pub fn get(&self, r: RegId) -> (v: Plate)
        requires
            r < 8,
        ensures
            v == self.regs@[r as int],
    {
        self.regs[r as usize]
    }

    /// Write the register with the given index.
    pub fn set(&mut self, r: RegId, v: Plate)
        requires
            r < 8,
        ensures
            final(self).regs@ == old(self).regs@.update(r as int, v),
    {
        self.regs[r as usize] = v;
    }
}

impl Default for Registers {
    /// All eight registers hold zero.
    fn default() -> (r: Registers)
        ensures
            r.regs@ == Seq::new(8, |i: int| 0u32),
    {
        let a: [Plate; 8] = [0, 0, 0, 0, 0, 0, 0, 0];
        proof {
            assert(a@ =~= Seq::new(8, |i: int| 0u32));
        }
        Registers { regs: a }
    }
}

/// The mathematical state of a machine: what each observable field holds.
#[verifier::ext_equal]
pub struct State {
    pub regs: Seq<Plate>,
    pub ip: nat,
    pub next_id: Plate,
    pub heap: Map<Plate, Seq<Plate>>,
    pub halted: bool,
    pub fault: Option<Fault>,
    pub strict_output: bool,
}

impl State {
    /// The machine's structural invariant: eight registers, a live
    /// program array, and an allocation counter past every live
    /// identifier (so fresh identifiers are never reused).
    pub open spec fn wf(self) -> bool {
        &&& self.regs.len() == 8
        &&& self.heap.contains_key(0)
        &&& self.next_id >= 1
        &&& forall|k: Plate| #[trigger] self.heap.contains_key(k) ==> k < self.next_id
    }

    /// The value of register `r`.
    pub open spec fn reg(self, r: RegId) -> Plate {
        self.regs[r as int]
    }

    /// Neither halted nor faulted: another instruction may execute.
    pub open spec fn ready(self) -> bool {
        !self.halted && self.fault is None
    }

    /// The same state, stopped by the given fault.
    pub open spec fn with_fault(self, f: Fault) -> State {
        State { fault: Some(f), ..self }
    }
}

/// Addition modulo 2^32.
pub open spec fn wrap_add(x: Plate, y: Plate) -> Plate {
    ((x + y) % 0x1_0000_0000) as u32
}

/// Multiplication modulo 2^32.
pub open spec fn wrap_mul(x: Plate, y: Plate) -> Plate {
    ((x * y) % 0x1_0000_0000) as u32
}

/// What one decoded instruction does to the state, apart from advancing
/// the instruction pointer: the new state and the byte emitted, if any.
/// `input` is the platter the host would serve if the instruction asks
/// for input.
pub open spec fn spec_exec_cmd(s: State, c: Command, input: u32) -> (State, Option<u8>) {
    match c {
        Command::CondMove { dst, src, cnd } => (
            if s.reg(cnd) != 0 {
                State { regs: s.regs.update(dst as int, s.reg(src)), ..s }
            } else {
                s
            },
            None,
        ),
        Command::ArrLoad { dst, arr, offset } => {
            let a = s.reg(arr);
            let off = s.reg(offset);
            if !s.heap.contains_key(a) {
                (s.with_fault(Fault::UnknownArray), None)
            } else if off >= s.heap[a].len() {
                (s.with_fault(Fault::OffsetOutOfBounds), None)
            } else {
                (State { regs: s.regs.update(dst as int, s.heap[a][off as int]), ..s }, None)
            }
        },
        Command::ArrStore { src, arr, offset } => {
            let a = s.reg(arr);
            let off = s.reg(offset);
            if !s.heap.contains_key(a) {
                (s.with_fault(Fault::UnknownArray), None)
            } else if off >= s.heap[a].len() {
                (s.with_fault(Fault::OffsetOutOfBounds), None)
            } else {
                (
                    State {
                        heap: s.heap.insert(a, s.heap[a].update(off as int, s.reg(src))),
                        ..s
                    },
                    None,
                )
            }
        },
        Command::Add { dst, op1, op2 } => (
            State { regs: s.regs.update(dst as int, wrap_add(s.reg(op1), s.reg(op2))), ..s },
            None,
        ),
        Command::Mul { dst, op1, op2 } => (
            State { regs: s.regs.update(dst as int, wrap_mul(s.reg(op1), s.reg(op2))), ..s },
            None,
        ),
        Command::Div { dst, op1, op2 } => {
            if s.reg(op2) == 0 {
                (s.with_fault(Fault::DivideByZero), None)
            } else {
                (State { regs: s.regs.update(dst as int, s.reg(op1) / s.reg(op2)), ..s }, None)
            }
        },
        Command::NotAnd { dst, op1, op2 } => (
            State { regs: s.regs.update(dst as int, !(s.reg(op1) & s.reg(op2))), ..s },
            None,
        ),
        Command::Halt => (State { halted: true, ..s }, None),
        Command::Alloc { dst, size } => {
            if s.next_id == 0xFFFFFFFFu32 {
                (s.with_fault(Fault::IdExhausted), None)
            } else {
                (
                    State {
                        heap: s.heap.insert(s.next_id, Seq::new(s.reg(size) as nat, |i: int| 0u32)),
                        regs: s.regs.update(dst as int, s.next_id),
                        next_id: (s.next_id + 1) as u32,
                        ..s
                    },
                    None,
                )
            }
        },
        Command::Free { arr } => {
            let a = s.reg(arr);
            if a == 0 {
                (s.with_fault(Fault::FreeOfArrayZero), None)
            } else if !s.heap.contains_key(a) {
                (s.with_fault(Fault::UnknownArray), None)
            } else {
                (State { heap: s.heap.remove(a), ..s }, None)
            }
        },
        Command::Output { src } => {
            let v = s.reg(src);
            if s.strict_output && v > 255 {
                (s.with_fault(Fault::OutputTooLarge), None)
            } else {
                (s, Some((v % 256) as u8))
            }
        },
        Command::Input { dst } => (State { regs: s.regs.update(dst as int, input), ..s }, None),
        Command::LoadProg { arr, offset } => {
            let a = s.reg(arr);
            let off = s.reg(offset);
            if a == 0 {
                (State { ip: off as nat, ..s }, None)
            } else if !s.heap.contains_key(a) {
                (s.with_fault(Fault::UnknownArray), None)
            } else {
                (State { heap: s.heap.insert(0, s.heap[a]), ip: off as nat, ..s }, None)
            }
        },
        Command::StoreConst { dst, val } => (
            State { regs: s.regs.update(dst as int, val), ..s },
            None,
        ),
    }
}

/// One full fetch-decode-execute cycle: fetch faults if the instruction
/// pointer has left the program array or the opcode is undefined;
/// otherwise the instruction runs and, unless it was Load Program or it
/// faulted, the instruction pointer advances by one.
pub open spec fn spec_step(s: State, input: u32) -> (State, Option<u8>) {
    if !s.ready() {
        (s, None)
    } else if s.ip >= s.heap[0].len() {
        (s.with_fault(Fault::IpOutOfBounds), None)
    } else {
        let p = s.heap[0][s.ip as int];
        if spec_opcode(p) > 13 {
            (s.with_fault(Fault::UndefinedOpcode), None)
        } else {
            let c = spec_decode(p);
            let r = spec_exec_cmd(s, c, input);
            if r.0.fault is Some {
                r
            } else if c is LoadProg {
                r
            } else {
                (State { ip: s.ip + 1, ..r.0 }, r.1)
            }
        }
    }
}

/// Whether the next cycle will consume a byte from the input stream:
/// exactly when it fetches and executes an Input instruction.
pub open spec fn spec_consumes_input(s: State) -> bool {
    s.ready() && s.ip < s.heap[0].len() && spec_opcode(s.heap[0][s.ip as int]) <= 13
        && spec_decode(s.heap[0][s.ip as int]) is Input
}

/// The platter the host serves from a pending input stream: the first
/// byte, or the end-of-stream sentinel.
pub open spec fn spec_next_input(inp: Seq<u8>) -> u32 {
    if inp.len() > 0 {
        inp[0] as u32
    } else {
        0xFFFFFFFFu32
    }
}

/// The input stream after one cycle from state `s`.
pub open spec fn spec_input_after(s: State, inp: Seq<u8>) -> Seq<u8> {
    if spec_consumes_input(s) && inp.len() > 0 {
        inp.skip(1)
    } else {
        inp
    }
}

/// The bytes one cycle emits.
pub open spec fn spec_emitted(out: Option<u8>) -> Seq<u8> {
    match out {
        Some(b) => seq![b],
        None => Seq::empty(),
    }
}

/// Up to `fuel` cycles from state `s` against the pending input `inp`:
/// the state reached, the input left over, and the bytes emitted, with
/// execution stopping early at a halt or a fault.
pub open spec fn spec_run(s: State, inp: Seq<u8>, fuel: nat) -> (State, Seq<u8>, Seq<u8>)
    decreases fuel,
{
    if fuel == 0 || !s.ready() {
        (s, inp, Seq::empty())
    } else {
        let r = spec_step(s, spec_next_input(inp));
        let rest = spec_run(r.0, spec_input_after(s, inp), (fuel - 1) as nat);
        (rest.0, rest.1, spec_emitted(r.1) + rest.2)
    }
}

/// The number of cycles a step bound allows: the bound itself, or the
/// largest 32-bit count when none is given.
pub open spec fn spec_fuel(max_steps: Option<u32>) -> nat {
    match max_steps {
        Some(n) => n as nat,
        None => 0xFFFFFFFFu32 as nat,
    }
}

/// The 32-bit big-endian word starting at byte `4 * i`.
pub open spec fn spec_word(bytes: Seq<u8>, i: int) -> Plate {
    ((bytes[4 * i] as u32) << 24) | ((bytes[4 * i + 1] as u32) << 16) | ((bytes[4 * i
        + 2] as u32) << 8) | (bytes[4 * i + 3] as u32)
}

/// A scroll's platters: each consecutive 4-byte group read big-endian.
pub open spec fn spec_words(bytes: Seq<u8>) -> Seq<Plate> {
    Seq::new((bytes.len() / 4) as nat, |i: int| spec_word(bytes, i))
}

/// The state of a machine freshly booted from a scroll: zeroed registers,
/// instruction pointer at 0, the scroll's platters as array 0, the
/// allocation counter at 1, and strict output checking.
pub open spec fn spec_boot(bytes: Seq<u8>) -> State {
    State {
        regs: Seq::new(8, |i: int| 0u32),
        ip: 0,
        next_id: 1,
        heap: Map::<Plate, Seq<Plate>>::empty().insert(0, spec_words(bytes)),
        halted: false,
        fault: None,
        strict_output: true,
    }
}

/// The Universal Machine.  `fault`, when set, is the terminal failure
/// condition, distinct from the clean halt recorded in `is_halted`.
pub struct UniversalMachine {
    pub registers: Registers,
    pub ip: usize,
    pub next_array_id: Plate,
    pub arrays: FxHashMap<Plate, Vec<Plate>>,
    pub is_halted: bool,
    pub fault: Option<Fault>,
    pub strict_output: bool,
}

impl View for UniversalMachine {
    type V = State;

    open spec fn view(&self) -> State {
        State {
            regs: self.registers.regs@,
            ip: self.ip as nat,
            next_id: self.next_array_id,
            heap: heap_view(self.arrays@),
            halted: self.is_halted,
            fault: self.fault,
            strict_output: self.strict_output,
        }
    }
}

impl UniversalMachine {
    /// The machine's structural invariant, stated on its abstract state.
    pub open spec fn inv(&self) -> bool {
        self@.wf()
    }

    /// Boot a machine from a scroll: a byte stream that is a whole number
    /// of 4-byte big-endian platters.  Returns `None` exactly when the
    /// length is not a multiple of 4.
    pub fn new(program: &[u8]) -> (r: Option<UniversalMachine>)
        ensures
            (r is Some) <==> program@.len() % 4 == 0,
            (match r {
                Some(m) => m.inv() && m@ == spec_boot(program@),
                None => true,
            }),
    {
        if program.len() % 4 != 0 {
            return None;
        }
        let mut words: Vec<Plate> = Vec::new();
        let mut i: usize = 0;
        while i < program.len()
            invariant
                i == 4 * words@.len(),
                i <= program.len(),
                program@.len() % 4 == 0,
                forall|j: int| 0 <= j < words@.len() ==> words@[j] == spec_word(program@, j),
            decreases program.len() - i,
        {
            assert(i + 4 <= program.len()) by {
                assert(i % 4 == 0);
            };
            let w = ((program[i] as u32) << 24) | ((program[i + 1] as u32) << 16) | ((program[i
                + 2] as u32) << 8) | (program[i + 3] as u32);
            words.push(w);
            i = i + 4;
        }
        proof {
            assert(words@ =~= spec_words(program@));
        }
        let mut arrays = heap_empty();
        heap_insert(&mut arrays, 0, words);
        let m = UniversalMachine {
            registers: Registers::default(),
            ip: 0,
            next_array_id: 1,
            arrays,
            is_halted: false,
            fault: None,
            strict_output: true,
        };
        proof {
            assert(heap_view(m.arrays@) =~= spec_boot(program@).heap);
            assert(m@ =~= spec_boot(program@));
        }
        Some(m)
    }

    /// Run the fetch-decode-execute loop until the machine halts or
    /// faults, or for at most `max_steps` cycles if a bound is given.  A
    /// bounded run that stops early leaves all state in place, so a later
    /// call resumes exactly where it left off.
    pub fn run<I: IOInterface>(&mut self, io: &mut I, max_steps: Option<u32>)
        requires
            old(self).inv(),
        ensures
            final(self).inv(),
            ({
                let r = spec_run(old(self)@, old(io).in_view(), spec_fuel(max_steps));
                &&& final(self)@ == r.0
                &&& final(io).in_view() == r.1
                &&& final(io).out_view() == old(io).out_view() + r.2
            }),
    {
        let max: u32 = match max_steps {
            Some(m) => m,
            None => u32::MAX,
        };
        let mut step: u32 = 0;
        let ghost s_init = old(self)@;
        let ghost in_init = old(io).in_view();
        let ghost out_init = old(io).out_view();
        let ghost full = spec_run(s_init, in_init, max as nat);
        while !self.is_halted && self.fault.is_none() && step < max
            invariant
                self.inv(),
                step <= max,
                ({
                    let rest = spec_run(self@, io.in_view(), (max - step) as nat);
                    &&& full.0 == rest.0
                    &&& full.1 == rest.1
                    &&& out_init + full.2 == io.out_view() + rest.2
                }),
            decreases max - step,
        {
            let ghost s_pre = self@;
            let ghost in_pre = io.in_view();
            let ghost out_pre = io.out_view();
            let ghost inp = spec_next_input(in_pre);
            let ghost fuel_pre = (max - step) as nat;
            let ghost rest_pre = spec_run(s_pre, in_pre, fuel_pre);

            let mut fetched: Option<Plate> = None;
            match heap_get(&self.arrays, 0) {
                None => {
                    proof {
                        assert(false);
                    }
                },
                Some(v0) => {
                    if self.ip < v0.len() {
                        fetched = Some(v0[self.ip]);
                    }
                },
            }
            match fetched {
                None => {
                    self.fault = Some(Fault::IpOutOfBounds);
                    proof {
                        assert(self@ =~= spec_step(s_pre, inp).0);
                    }
                },
                Some(p) => {
                    let id = Command::decode_command_id(p);
                    if id > 13 {
                        self.fault = Some(Fault::UndefinedOpcode);
                        proof {
                            assert(self@ =~= spec_step(s_pre, inp).0);
                        }
                    } else {
                        let command = Command::decode(p);
                        self.perform_command(&command, io);
                        match &command {
                            Command::LoadProg { .. } => {},
                            _ => {
                                proof {
                                    lemma_exec_cmd_keeps_ip(s_pre, command, inp);
                                }
                                if self.fault.is_none() {
                                    self.ip = self.ip + 1;
                                }
                            },
                        }
                        proof {
                            assert(self@ =~= spec_step(s_pre, inp).0);
                        }
                    }
                },
            }
            step = step + 1;
            proof {
                let r_step = spec_step(s_pre, inp);
                assert(io.in_view() == spec_input_after(s_pre, in_pre));
                assert(io.out_view() =~= out_pre + spec_emitted(r_step.1));
                let rest_new = spec_run(self@, io.in_view(), (max - step) as nat);
                assert(rest_pre.0 == rest_new.0 && rest_pre.1 == rest_new.1 && rest_pre.2
                    == spec_emitted(r_step.1) + rest_new.2);
                assert((out_pre + spec_emitted(r_step.1)) + rest_new.2 =~= out_pre + (spec_emitted(
                    r_step.1,
                ) + rest_new.2));
            }
        }
        proof {
            let rest = spec_run(self@, io.in_view(), (max - step) as nat);
            assert(rest.0 == self@ && rest.1 == io.in_view() && rest.2 =~= Seq::<u8>::empty());
            assert(io.out_view() + Seq::<u8>::empty() =~= io.out_view());
            assert(max as nat == spec_fuel(max_steps));
        }
    }

    /// Execute one already-decoded instruction, leaving the instruction
    /// pointer alone except for Load Program, which assigns it.
    fn perform_command<I: IOInterface>(&mut self, command: &Command, io: &mut I)
        requires
            old(self).inv(),
            command.wf(),
        ensures
            final(self).inv(),
            ({
                let r = spec_exec_cmd(old(self)@, *command, spec_next_input(old(io).in_view()));
                &&& final(self)@ == r.0
                &&& final(io).out_view() == old(io).out_view() + spec_emitted(r.1)
                &&& final(io).in_view() == (if *command is Input && old(io).in_view().len() > 0 {
                    old(io).in_view().skip(1)
                } else {
                    old(io).in_view()
                })
            }),
    {
        let ghost s0 = old(self)@;
        let ghost inp = spec_next_input(old(io).in_view());
        match *command {
            Command::CondMove { dst, src, cnd } => {
                if self.registers.get(cnd) != 0 {
                    let v = self.registers.get(src);
                    self.registers.set(dst, v);
                }
                proof {
                    assert(self@ =~= spec_exec_cmd(s0, *command, inp).0);
                }
            },
            Command::ArrLoad { dst, arr, offset } => {
                let a = self.registers.get(arr);
                let off = self.registers.get(offset);
                match heap_get(&self.arrays, a) {
                    None => {
                        self.fault = Some(Fault::UnknownArray);
                    },
                    Some(v) => {
                        if (off as usize) < v.len() {
                            let x = v[off as usize];
                            self.registers.set(dst, x);
                        } else {
                            self.fault = Some(Fault::OffsetOutOfBounds);
                        }
                    },
                }
                proof {
                    assert(self@ =~= spec_exec_cmd(s0, *command, inp).0);
                }
            },
            Command::ArrStore { src, arr, offset } => {
                let a = self.registers.get(arr);
                let off = self.registers.get(offset);
                let x = self.registers.get(src);
                match heap_remove(&mut self.arrays, a) {
                    None => {
                        self.fault = Some(Fault::UnknownArray);
                        proof {
                            lemma_heap_view_remove(old(self).arrays@, a);
                            assert(heap_view(self.arrays@) =~= s0.heap);
                            assert(self@ =~= spec_exec_cmd(s0, *command, inp).0);
                        }
                    },
                    Some(mut v) => {
                        if (off as usize) < v.len() {
                            v.set(off as usize, x);
                            heap_insert(&mut self.arrays, a, v);
                            proof {
                                lemma_heap_view_remove(old(self).arrays@, a);
                                lemma_heap_view_insert(old(self).arrays@.remove(a), a, v);
                                assert(heap_view(self.arrays@) =~= s0.heap.insert(
                                    a,
                                    s0.heap[a].update(off as int, x),
                                ));
                                assert(self@ =~= spec_exec_cmd(s0, *command, inp).0);
                            }
                        } else {
                            heap_insert(&mut self.arrays, a, v);
                            self.fault = Some(Fault::OffsetOutOfBounds);
                            proof {
                                lemma_heap_view_remove(old(self).arrays@, a);
                                lemma_heap_view_insert(old(self).arrays@.remove(a), a, v);
                                assert(heap_view(self.arrays@) =~= s0.heap);
                                assert(self@ =~= spec_exec_cmd(s0, *command, inp).0);
                            }
                        }
                    },
                }
            },
            Command::Add { dst, op1, op2 } => {
                let a = self.registers.get(op1);
                let b = self.registers.get(op2);
                let sum = ((a as u64) + (b as u64)) % 0x1_0000_0000;
                self.registers.set(dst, sum as u32);
                proof {
                    assert(self@ =~= spec_exec_cmd(s0, *command, inp).0);
                }
            },
            Command::Mul { dst, op1, op2 } => {
                let a = self.registers.get(op1);
                let b = self.registers.get(op2);
                proof {
                    assert((a as u64) * (b as u64) <= 0xFFFFFFFFu64 * 0xFFFFFFFFu64)
                        by (nonlinear_arith)
                        requires
                            a as u64 <= 0xFFFFFFFFu64,
                            b as u64 <= 0xFFFFFFFFu64,
                    ;
                }
                let prod = ((a as u64) * (b as u64)) % 0x1_0000_0000;
                self.registers.set(dst, prod as u32);
                proof {
                    assert(self@ =~= spec_exec_cmd(s0, *command, inp).0);
                }
            },
            Command::Div { dst, op1, op2 } => {
                let b = self.registers.get(op2);
                if b == 0 {
                    self.fault = Some(Fault::DivideByZero);
                } else {
                    let a = self.registers.get(op1);
                    self.registers.set(dst, a / b);
                }
                proof {
                    assert(self@ =~= spec_exec_cmd(s0, *command, inp).0);
                }
            },
            Command::NotAnd { dst, op1, op2 } => {
                let a = self.registers.get(op1);
                let b = self.registers.get(op2);
                self.registers.set(dst, !(a & b));
                proof {
                    assert(self@ =~= spec_exec_cmd(s0, *command, inp).0);
                }
            },
            Command::Halt => {
                self.is_halted = true;
                proof {
                    assert(self@ =~= spec_exec_cmd(s0, *command, inp).0);
                }
            },
            Command::Alloc { dst, size } => {
                if self.next_array_id == u32::MAX {
                    self.fault = Some(Fault::IdExhausted);
                    proof {
                        assert(self@ =~= spec_exec_cmd(s0, *command, inp).0);
                    }
                } else {
                    let id = self.next_array_id;
                    self.next_array_id = id + 1;
                    let n = self.registers.get(size);
                    let zeros = zero_vec(n as usize);
                    heap_insert(&mut self.arrays, id, zeros);
                    self.registers.set(dst, id);
                    proof {
                        lemma_heap_view_insert(old(self).arrays@, id, zeros);
                        assert(heap_view(self.arrays@) =~= s0.heap.insert(
                            id,
                            Seq::new(s0.reg(size) as nat, |i: int| 0u32),
                        ));
                        assert(self@ =~= spec_exec_cmd(s0, *command, inp).0);
                    }
                }
            },
            Command::Free { arr } => {
                let a = self.registers.get(arr);
                if a == 0 {
                    self.fault = Some(Fault::FreeOfArrayZero);
                    proof {
                        assert(self@ =~= spec_exec_cmd(s0, *command, inp).0);
                    }
                } else {
                    match heap_remove(&mut self.arrays, a) {
                        Some(_) => {
                            proof {
                                lemma_heap_view_remove(old(self).arrays@, a);
                                assert(self@ =~= spec_exec_cmd(s0, *command, inp).0);
                            }
                        },
                        None => {
                            self.fault = Some(Fault::UnknownArray);
                            proof {
                                lemma_heap_view_remove(old(self).arrays@, a);
                                assert(heap_view(self.arrays@) =~= s0.heap);
                                assert(self@ =~= spec_exec_cmd(s0, *command, inp).0);
                            }
                        },
                    }
                }
            },
            Command::Output { src } => {
                let v = self.registers.get(src);
                if self.strict_output && v > 255 {
                    self.fault = Some(Fault::OutputTooLarge);
                    proof {
                        assert(self@ =~= spec_exec_cmd(s0, *command, inp).0);
                    }
                } else {
                    io.request_output((v % 256) as u8);
                    proof {
                        assert(self@ =~= spec_exec_cmd(s0, *command, inp).0);
                        assert(io.out_view() =~= old(io).out_view() + spec_emitted(
                            spec_exec_cmd(s0, *command, inp).1,
                        ));
                    }
                }
            },
            Command::Input { dst } => {
                let r = io.request_input();
                self.registers.set(dst, r);
                proof {
                    assert(self@ =~= spec_exec_cmd(s0, *command, inp).0);
                }
            },
            Command::LoadProg { arr, offset } => {
                let a = self.registers.get(arr);
                let off = self.registers.get(offset);
                if a == 0 {
                    self.ip = off as usize;
                    proof {
                        assert(self@ =~= spec_exec_cmd(s0, *command, inp).0);
                    }
                } else {
                    match heap_get(&self.arrays, a) {
                        None => {
                            self.fault = Some(Fault::UnknownArray);
                            proof {
                                assert(self@ =~= spec_exec_cmd(s0, *command, inp).0);
                            }
                        },
                        Some(v) => {
                            let copy = clone_vec(v);
                            heap_insert(&mut self.arrays, 0, copy);
                            self.ip = off as usize;
                            proof {
                                lemma_heap_view_insert(old(self).arrays@, 0, copy);
                                assert(heap_view(self.arrays@) =~= s0.heap.insert(0, s0.heap[a]));
                                assert(self@ =~= spec_exec_cmd(s0, *command, inp).0);
                            }
                        },
                    }
                }
            },
            Command::StoreConst { dst, val } => {
                self.registers.set(dst, val);
                proof {
                    assert(self@ =~= spec_exec_cmd(s0, *command, inp).0);
                }
            },
        }
        proof {
            let r = spec_exec_cmd(s0, *command, inp);
            assert(io.out_view() =~= old(io).out_view() + spec_emitted(r.1));
        }
    }
}

/// Every instruction but Load Program leaves the instruction pointer
/// where it was; the cycle then advances it separately.
proof fn lemma_exec_cmd_keeps_ip(s: State, c: Command, input: u32)
    requires
        !(c is LoadProg),
    ensures
        spec_exec_cmd(s, c, input).0.ip == s.ip,
{
}

/// A vector of `n` zero platters.
fn zero_vec(n: usize) -> (v: Vec<Plate>)
    ensures
        v@ == Seq::new(n as nat, |i: int| 0u32),
{
    let mut v: Vec<Plate> = Vec::new();
    let mut i: usize = 0;
    while i < n
        invariant
            i == v@.len(),
            i <= n,
            forall|j: int| 0 <= j < i ==> v@[j] == 0u32,
        decreases n - i,
    {
        v.push(0);
        i = i + 1;
    }
    proof {
        assert(v@ =~= Seq::new(n as nat, |i: int| 0u32));
    }
    v
}

/// A deep copy of a vector of platters.
fn clone_vec(v: &Vec<Plate>) -> (r: Vec<Plate>)
    ensures
        r@ == v@,
{
    let mut r: Vec<Plate> = Vec::new();
    let mut i: usize = 0;
    while i < v.len()
        invariant
            i == r@.len(),
            i <= v@.len(),
            forall|j: int| 0 <= j < i ==> r@[j] == v@[j],
        decreases v@.len() - i,
    {
        let x = v[i];
        r.push(x);
        i = i + 1;
    }
    proof {
        assert(r@ =~= v@);
    }
    r
}

} // verus!
