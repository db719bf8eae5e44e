//! Properties of the counter over sequences of invocations.

use vstd::prelude::*;
use crate::auth::{Capability, Identity};
use crate::codec::{le_bytes, lemma_le_value_of_le_bytes};
use crate::counter::{
    counter_key_bytes, invalid_sentinel, opcode_of, slot, step, value_of, OutcomeView, StateView,
    OP_DECREMENT, OP_INCREMENT, OP_INITIALIZE, OP_READ,
};
use crate::error::CounterError;

verus! {

/// The state after the invocations `calls` (opcode, caller), in order.
pub open spec fn run(s: StateView, calls: Seq<(u128, Identity)>) -> StateView
    decreases calls.len(),
{
    if calls.len() == 0 {
        s
    } else {
        run(step(s, calls[0].0, calls[0].1).1, calls.drop_first())
    }
}

/// The outcomes of the invocations `calls`, in order.
pub open spec fn run_outcomes(s: StateView, calls: Seq<(u128, Identity)>) -> Seq<OutcomeView>
    decreases calls.len(),
{
    if calls.len() == 0 {
        Seq::empty()
    } else {
        seq![step(s, calls[0].0, calls[0].1).0] + run_outcomes(
            step(s, calls[0].0, calls[0].1).1,
            calls.drop_first(),
        )
    }
}

/// `n` increments, all by `caller`.
pub open spec fn increments(caller: Identity, n: nat) -> Seq<(u128, Identity)> {
    Seq::new(n, |i: int| (OP_INCREMENT, caller))
}

/// Writing a value and reading the slot back gives the value.
proof fn lemma_value_of_written(s: StateView, v: u64)
    ensures
        value_of(slot((s.0.insert(counter_key_bytes(), le_bytes(v)), s.1))) == Some(v),
{
    lemma_le_value_of_le_bytes(v);
}

/// Initializing twice answers `1` and then `0`, and leaves the counter at zero.
pub proof fn lemma_initialize_idempotent(s: StateView, first: Identity, second: Identity)
    requires
        slot(s).len() == 0,
    ensures
        ({
            let (r1, s1) = step(s, OP_INITIALIZE, first);
            let (r2, s2) = step(s1, OP_INITIALIZE, second);
            &&& r1 == Ok::<Seq<u8>, CounterError>(seq![1u8])
            &&& r2 == Ok::<Seq<u8>, CounterError>(seq![0u8])
            &&& s2 == s1
            &&& value_of(slot(s2)) == Some(0u64)
            &&& s2.1 == Capability::ProvisionedTo(first)
        }),
{
    lemma_value_of_written(s, 0);
}

/// Decrements from zero, by any callers, never move the counter off zero, and every
/// one that succeeds answers zero.
pub proof fn lemma_decrement_floor(s: StateView, calls: Seq<(u128, Identity)>)
    requires
        value_of(slot(s)) == Some(0u64),
        forall|i: int| 0 <= i < calls.len() ==> (#[trigger] calls[i]).0 == OP_DECREMENT,
    ensures
        value_of(slot(run(s, calls))) == Some(0u64),
        run_outcomes(s, calls).len() == calls.len(),
        forall|i: int|
            0 <= i < calls.len() && (#[trigger] run_outcomes(s, calls)[i]) is Ok ==> run_outcomes(
                s,
                calls,
            )[i] == Ok::<Seq<u8>, CounterError>(le_bytes(0)),
    decreases calls.len(),
{
    if calls.len() > 0 {
        let (r, next) = step(s, calls[0].0, calls[0].1);
        lemma_value_of_written(s, 0);
        let rest = calls.drop_first();
        assert forall|i: int| 0 <= i < rest.len() implies (#[trigger] rest[i]).0 == OP_DECREMENT by {
            assert(rest[i] == calls[i + 1]);
        }
        lemma_decrement_floor(next, rest);
        let outs = run_outcomes(s, calls);
        assert(outs == seq![r] + run_outcomes(next, rest));
        assert forall|i: int| 0 <= i < calls.len() && (#[trigger] outs[i]) is Ok implies outs[i]
            == Ok::<Seq<u8>, CounterError>(le_bytes(0)) by {
            if i > 0 {
                assert(outs[i] == run_outcomes(next, rest)[i - 1]);
            }
        }
    }
}

/// `n` increments by the owner from `v` leave the counter at `v + n`.
pub proof fn lemma_increments_add(s: StateView, owner: Identity, v: u64, n: nat)
    requires
        value_of(slot(s)) == Some(v),
        s.1.held_by(owner),
        v + n <= u64::MAX,
    ensures
        value_of(slot(run(s, increments(owner, n)))) == Some((v + n) as u64),
        run(s, increments(owner, n)).1 == s.1,
    decreases n,
{
    if n > 0 {
        let calls = increments(owner, n);
        let next = step(s, OP_INCREMENT, owner).1;
        lemma_value_of_written(s, (v + 1) as u64);
        assert(calls.drop_first() =~= increments(owner, (n - 1) as nat));
        lemma_increments_add(next, owner, (v + 1) as u64, (n - 1) as nat);
    }
}

/// After `n` increments by the owner from zero, a read answers `n`.
pub proof fn lemma_read_after_increments(s: StateView, owner: Identity, n: nat)
    requires
        value_of(slot(s)) == Some(0u64),
        s.1.held_by(owner),
        n <= u64::MAX,
    ensures
        step(run(s, increments(owner, n)), OP_READ, owner).0 == Ok::<Seq<u8>, CounterError>(
            le_bytes(n as u64),
        ),
{
    lemma_increments_add(s, owner, 0, n);
}

/// Once initialized, a mutation by anyone but the owner fails as unauthorized and
/// changes nothing.
pub proof fn lemma_ownership_gate(s: StateView, owner: Identity, caller: Identity, op: u128)
    requires
        slot(s).len() == 8,
        s.1 == Capability::ProvisionedTo(owner),
        caller != owner,
        op == OP_INCREMENT || op == OP_DECREMENT,
    ensures
        step(s, op, caller) == (Err::<Seq<u8>, CounterError>(CounterError::Unauthorized), s),
{
}

/// Before initialization, a mutation fails on the empty slot and changes nothing.
pub proof fn lemma_uninitialized_guard(s: StateView, caller: Identity, op: u128)
    requires
        slot(s).len() == 0,
        op == OP_INCREMENT || op == OP_DECREMENT,
    ensures
        step(s, op, caller) == (Err::<Seq<u8>, CounterError>(CounterError::MalformedState), s),
{
}

/// An increment by the owner at the largest value fails and leaves the value there.
pub proof fn lemma_overflow_fatal(s: StateView, owner: Identity)
    requires
        value_of(slot(s)) == Some(u64::MAX),
        s.1.held_by(owner),
    ensures
        step(s, OP_INCREMENT, owner) == (Err::<Seq<u8>, CounterError>(
            CounterError::ArithmeticOverflow,
        ), s),
{
}

/// Once the counter holds a value, every sequence of invocations leaves it holding a
/// value, and the capability is never provisioned again.
pub proof fn lemma_initialized_stays(s: StateView, calls: Seq<(u128, Identity)>)
    requires
        value_of(slot(s)) is Some,
    ensures
        value_of(slot(run(s, calls))) is Some,
        run(s, calls).1 == s.1,
    decreases calls.len(),
{
    if calls.len() > 0 {
        let v = value_of(slot(s))->Some_0;
        lemma_value_of_written(s, if v == 0 { 0 } else { (v - 1) as u64 });
        if v < u64::MAX {
            lemma_value_of_written(s, (v + 1) as u64);
        }
        lemma_initialized_stays(step(s, calls[0].0, calls[0].1).1, calls.drop_first());
    }
}

/// An unrecognized opcode answers eight zero bytes and changes nothing.
pub proof fn lemma_unknown_opcode(s: StateView, op: u128, caller: Identity)
    requires
        op > OP_INITIALIZE,
    ensures
        step(s, op, caller) == (Ok::<Seq<u8>, CounterError>(invalid_sentinel()), s),
{
}

/// An invocation without inputs is a read.
pub proof fn lemma_default_opcode(s: StateView, caller: Identity)
    ensures
        step(s, opcode_of(Seq::<u128>::empty()), caller) == step(s, OP_READ, caller),
{
}

} // verus!
