//! Properties of the machine that relate several steps.
use crate::isa::{decoded, word_of, Instruction};
use crate::machine::{finished, Fault, MachineState, Progress, STACK_CAPACITY};
use vstd::prelude::*;

verus! {

/// Once a run has stopped, further steps change nothing.
pub proof fn lemma_stopped_stays(s: MachineState, n: nat, k: nat)
    requires
        !(s.run_for(n) is Running),
        n <= k,
    ensures
        s.run_for(k) == s.run_for(n),
    decreases k - n,
{
    if k > n {
        lemma_stopped_stays(s, n, (k - 1) as nat);
    }
}

/// The outcome of a run is unique: two step counts at which the machine has
/// stopped give the same final state and the same result.
pub proof fn lemma_outcome_unique(
    s: MachineState,
    n: nat,
    m: nat,
    x: MachineState,
    y: MachineState,
    r1: Result<(), Fault>,
    r2: Result<(), Fault>,
)
    requires
        s.run_for(n) == finished(x, r1),
        s.run_for(m) == finished(y, r2),
    ensures
        x == y,
        r1 == r2,
{
    if n <= m {
        lemma_stopped_stays(s, n, m);
    } else {
        lemma_stopped_stays(s, m, n);
    }
    match r1 {
        Ok(u) => {
            assert(r2 is Ok);
            assert(r2->Ok_0 == u);
        },
        Err(f) => {
            assert(r2 is Err);
            assert(r2->Err_0 == f);
        },
    }
}

/// Where the first step stops the machine, every run of it ends there.
pub proof fn lemma_first_step_stops(s: MachineState, n: nat, x: MachineState, r: Result<(), Fault>)
    requires
        !(s.step() is Running),
        s.run_for(n) == finished(x, r),
    ensures
        finished(x, r) == s.step(),
{
    assert(s.run_for(0) == Progress::Running(s));
    assert(s.run_for(1) == s.step());
    if n == 0 {
        match r {
            Ok(()) => {},
            Err(f) => {},
        }
    } else {
        lemma_stopped_stays(s, 1, n);
    }
}

/// A halt word at the program counter ends the run at once, with registers
/// and memory as they were.
pub proof fn lemma_halt_stops(s: MachineState, n: nat, x: MachineState, r: Result<(), Fault>)
    requires
        s.can_fetch(),
        decoded(s.fetched()) == Instruction::Halt,
        s.run_for(n) == finished(x, r),
    ensures
        r is Ok,
        x == s.advanced(),
        x.registers == s.registers,
        x.memory == s.memory,
{
    lemma_first_step_stops(s, n, x, r);
}

/// A word that names no instruction ends the run with that word reported and
/// the machine, registers included, as it was.
pub proof fn lemma_unknown_opcode_stops(
    s: MachineState,
    n: nat,
    x: MachineState,
    r: Result<(), Fault>,
)
    requires
        s.can_fetch(),
        decoded(s.fetched()) is Unknown,
        s.run_for(n) == finished(x, r),
    ensures
        r == Err::<(), Fault>(Fault::UnimplementedOpcode(s.fetched())),
        x == s,
{
    lemma_first_step_stops(s, n, x, r);
}

/// A return with an empty stack ends the run with a stack underflow and the
/// machine, registers included, as it was.
pub proof fn lemma_return_on_empty_stack_stops(
    s: MachineState,
    n: nat,
    x: MachineState,
    r: Result<(), Fault>,
)
    requires
        s.can_fetch(),
        decoded(s.fetched()) == Instruction::Return,
        s.stack_pointer == 0,
        s.run_for(n) == finished(x, r),
    ensures
        r == Err::<(), Fault>(Fault::StackUnderflow),
        x == s,
{
    lemma_first_step_stops(s, n, x, r);
}

/// A step that keeps running keeps the state well formed.
pub proof fn lemma_step_wf(s: MachineState)
    requires
        s.wf(),
        s.step() is Running,
    ensures
        s.step()->Running_0.wf(),
{
}

/// The run from `t` keeps running for `n` steps with its stack never below `depth`.
pub open spec fn stays_within(t: MachineState, n: nat, depth: int) -> bool {
    forall|k: nat|
        k <= n ==> #[trigger] t.run_for(k) is Running && t.run_for(k)->Running_0.stack_pointer
            >= depth
}

/// While the stack stays at or above `depth`, the slot just below it is kept.
pub proof fn lemma_frame_kept(t: MachineState, n: nat, depth: int)
    requires
        t.wf(),
        1 <= depth <= t.stack_pointer,
        stays_within(t, n, depth),
    ensures
        t.run_for(n)->Running_0.wf(),
        t.run_for(n)->Running_0.stack[depth - 1] == t.stack[depth - 1],
    decreases n,
{
    if n > 0 {
        let m = (n - 1) as nat;
        assert(t.run_for(m) is Running);
        assert(t.run_for(n) is Running);
        lemma_frame_kept(t, m, depth);
        lemma_step_wf(t.run_for(m)->Running_0);
    }
}

/// A call and its matching return: after a call at the program counter, a run
/// of any length that never pops the caller's frame and then executes a return
/// at the callee's depth resumes at the word after the call, with the stack
/// pointer as it was before the call.
pub proof fn lemma_call_return_round_trip(s: MachineState, n: nat)
    requires
        s.wf(),
        s.can_fetch(),
        decoded(s.fetched()) is Call,
        s.stack_pointer < STACK_CAPACITY,
        stays_within(s.step()->Running_0, n, s.stack_pointer + 1),
        s.step()->Running_0.run_for(n)->Running_0.stack_pointer == s.stack_pointer + 1,
        s.step()->Running_0.run_for(n)->Running_0.can_fetch(),
        decoded(s.step()->Running_0.run_for(n)->Running_0.fetched()) == Instruction::Return,
    ensures
        s.step()->Running_0.run_for(n + 1) is Running,
        s.step()->Running_0.run_for(n + 1)->Running_0.position_in_memory == s.position_in_memory
            + 2,
        s.step()->Running_0.run_for(n + 1)->Running_0.stack_pointer == s.stack_pointer,
{
    let t = s.step()->Running_0;
    assert(t.run_for(n) is Running);
    lemma_frame_kept(t, n, s.stack_pointer + 1);
}

/// Two nested calls and two returns: control comes back in last-in first-out
/// order, and each call's frame adds exactly one to the stack pointer until
/// its return.
pub proof fn lemma_nested_calls(s: MachineState, a: u16, b: u16)
    requires
        s.wf(),
        s.can_fetch(),
        s.stack_pointer + 2 <= STACK_CAPACITY,
        a + 3 < 4096,
        b + 1 < 4096,
        decoded(s.fetched()) == Instruction::Call(a),
        decoded(word_of(s.memory[a as int], s.memory[a + 1])) == Instruction::Call(b),
        decoded(word_of(s.memory[b as int], s.memory[b + 1])) == Instruction::Return,
        decoded(word_of(s.memory[a + 2], s.memory[a + 3])) == Instruction::Return,
    ensures
        s.run_for(1) is Running,
        s.run_for(1)->Running_0.position_in_memory == a,
        s.run_for(1)->Running_0.stack_pointer == s.stack_pointer + 1,
        s.run_for(2) is Running,
        s.run_for(2)->Running_0.position_in_memory == b,
        s.run_for(2)->Running_0.stack_pointer == s.stack_pointer + 2,
        s.run_for(3) is Running,
        s.run_for(3)->Running_0.position_in_memory == a + 2,
        s.run_for(3)->Running_0.stack_pointer == s.stack_pointer + 1,
        s.run_for(4) is Running,
        s.run_for(4)->Running_0.position_in_memory == s.position_in_memory + 2,
        s.run_for(4)->Running_0.stack_pointer == s.stack_pointer,
{
    let s1 = s.run_for(1)->Running_0;
    assert(s.run_for(0) == Progress::Running(s));
    assert(s.run_for(1) == s.step());
    assert(s1.fetched() == word_of(s.memory[a as int], s.memory[a + 1]));
    let s2 = s.run_for(2)->Running_0;
    assert(s.run_for(2) == s1.step());
    assert(s2.fetched() == word_of(s.memory[b as int], s.memory[b + 1]));
    let s3 = s.run_for(3)->Running_0;
    assert(s.run_for(3) == s2.step());
    assert(s3.fetched() == word_of(s.memory[a + 2], s.memory[a + 3]));
    assert(s.run_for(4) == s3.step());
}

} // verus!
