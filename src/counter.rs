//! The counter state machine and the opcode dispatcher in front of it.

use vstd::prelude::*;
use crate::auth::{Capability, Identity};
use crate::codec::{decode_le, encode_le, le_bytes, le_value};
use crate::error::CounterError;
use crate::storage::{stored_or_empty, Storage};

verus! {

/// Opcode of the read operation; also taken when no input is given.
pub const OP_READ: u128 = 0;

/// Opcode of the owner-only increment.
pub const OP_INCREMENT: u128 = 1;

/// Opcode of the owner-only saturating decrement.
pub const OP_DECREMENT: u128 = 2;

/// Opcode of the one-time initialization.
pub const OP_INITIALIZE: u128 = 3;

/// The key of the counter slot: the bytes of `/counter`.
pub open spec fn counter_key_bytes() -> Seq<u8> {
    seq![47u8, 99u8, 111u8, 117u8, 110u8, 116u8, 101u8, 114u8]
}

/// The key of the counter slot.
pub fn counter_key() -> (r: Vec<u8>)
    ensures
        r@ == counter_key_bytes(),
{
    let mut r: Vec<u8> = Vec::new();
    r.push(47u8);
    r.push(99u8);
    r.push(111u8);
    r.push(117u8);
    r.push(110u8);
    r.push(116u8);
    r.push(101u8);
    r.push(114u8);
    assert(r@ =~= counter_key_bytes());
    r
}

/// What a contract instance holds between invocations: its storage and its capability record.
pub type StateView = (Map<Seq<u8>, Seq<u8>>, Capability);

/// What an operation answers: the response bytes, or why it failed.
pub type OutcomeView = Result<Seq<u8>, CounterError>;

/// The raw bytes of the counter slot; empty while uninitialized.
pub open spec fn slot(s: StateView) -> Seq<u8> {
    stored_or_empty(s.0, counter_key_bytes())
}

/// The counter value, where the slot holds exactly eight bytes.
pub open spec fn value_of(slot: Seq<u8>) -> Option<u64> {
    if slot.len() == 8 {
        Some(le_value(slot))
    } else {
        None
    }
}

/// The state with the counter slot overwritten by the encoding of `v`.
pub open spec fn with_value(s: StateView, v: u64) -> StateView {
    (s.0.insert(counter_key_bytes(), le_bytes(v)), s.1)
}

/// The response of an unrecognized opcode: eight zero bytes.
pub open spec fn invalid_sentinel() -> Seq<u8> {
    Seq::new(8, |i: int| 0u8)
}

/// The opcode of an invocation: its first input, or read where there is none.
pub open spec fn opcode_of(inputs: Seq<u128>) -> u128 {
    if inputs.len() == 0 {
        OP_READ
    } else {
        inputs[0]
    }
}

/// Read: the current value, which must be present as eight bytes.
pub open spec fn read_step(s: StateView) -> (OutcomeView, StateView) {
    match value_of(slot(s)) {
        Some(v) => (Ok(le_bytes(v)), s),
        None => (Err(CounterError::MalformedState), s),
    }
}

/// Increment: owner only, and fails rather than leaving the 64-bit range.
pub open spec fn increment_step(s: StateView, caller: Identity) -> (OutcomeView, StateView) {
    match value_of(slot(s)) {
        None => (Err(CounterError::MalformedState), s),
        Some(v) => if !s.1.held_by(caller) {
            (Err(CounterError::Unauthorized), s)
        } else if v == u64::MAX {
            (Err(CounterError::ArithmeticOverflow), s)
        } else {
            (Ok(le_bytes((v + 1) as u64)), with_value(s, (v + 1) as u64))
        },
    }
}

/// Decrement: owner only, and stops at zero.
pub open spec fn decrement_step(s: StateView, caller: Identity) -> (OutcomeView, StateView) {
    match value_of(slot(s)) {
        None => (Err(CounterError::MalformedState), s),
        Some(v) => if !s.1.held_by(caller) {
            (Err(CounterError::Unauthorized), s)
        } else {
            let n: u64 = if v == 0 {
                0
            } else {
                (v - 1) as u64
            };
            (Ok(le_bytes(n)), with_value(s, n))
        },
    }
}

/// Initialize: where the slot is absent, provision the capability to the caller and
/// store zero, answering `1`; otherwise change nothing and answer `0`.
pub open spec fn initialize_step(s: StateView, caller: Identity) -> (OutcomeView, StateView) {
    if slot(s).len() == 0 {
        (
            Ok(seq![1u8]),
            (s.0.insert(counter_key_bytes(), le_bytes(0)), Capability::ProvisionedTo(caller)),
        )
    } else {
        (Ok(seq![0u8]), s)
    }
}

/// One invocation with opcode `op` by `caller`: its outcome and the state after it.
pub open spec fn step(s: StateView, op: u128, caller: Identity) -> (OutcomeView, StateView) {
    if op == OP_READ {
        read_step(s)
    } else if op == OP_INCREMENT {
        increment_step(s, caller)
    } else if op == OP_DECREMENT {
        decrement_step(s, caller)
    } else if op == OP_INITIALIZE {
        initialize_step(s, caller)
    } else {
        (Ok(invalid_sentinel()), s)
    }
}

/// Per-invocation input: who calls, and the integer inputs (the first is the opcode).
#[derive(Debug)]
pub struct CallContext {
    pub caller: Identity,
    pub inputs: Vec<u128>,
}

/// The bytes an invocation answers with.
#[derive(Debug)]
pub struct CallResponse {
    pub data: Vec<u8>,
}

/// The outcome of an invocation as bytes or error.
pub open spec fn outcome(r: Result<CallResponse, CounterError>) -> OutcomeView {
    match r {
        Ok(resp) => Ok(resp.data@),
        Err(e) => Err(e),
    }
}

/// The persisted state of one contract instance.
pub struct ContractState {
    pub storage: Storage,
    pub capability: Capability,
}

impl View for ContractState {
    type V = StateView;

    open spec fn view(&self) -> StateView {
        (self.storage@, self.capability)
    }
}

impl ContractState {
    pub open spec fn wf(&self) -> bool {
        self.storage.wf()
    }

    /// A fresh instance: nothing stored, no capability provisioned.
    pub fn new() -> (s: ContractState)
        ensures
            s.wf(),
            s@ == (Map::<Seq<u8>, Seq<u8>>::empty(), Capability::NotProvisioned),
    {
        ContractState { storage: Storage::new(), capability: Capability::NotProvisioned }
    }

    /// The raw bytes of the counter slot.
    fn load(&self) -> (r: Vec<u8>)
        requires
            self.wf(),
        ensures
            r@ == slot(self@),
    {
        let key = counter_key();
        self.storage.get(&key)
    }

    /// Overwrites the counter slot with the encoding of `v`.
    fn store(&mut self, v: u64)
        requires
            old(self).wf(),
        ensures
            final(self).wf(),
            final(self)@ == with_value(old(self)@, v),
    {
        let key = counter_key();
        self.storage.set(key, encode_le(v));
    }
}

/// The contract: a single persisted counter behind an opcode dispatcher.
#[derive(Clone, Copy, Debug, Default)]
pub struct Counter;

impl Counter {
    /// Answers the current value.
    pub fn read(&self, state: &ContractState) -> (r: Result<CallResponse, CounterError>)
        requires
            state.wf(),
        ensures
            outcome(r) == read_step(state@).0,
    {
        let stored = state.load();
        if stored.len() != 8 {
            return Err(CounterError::MalformedState);
        }
        let count = decode_le(&stored);
        Ok(CallResponse { data: encode_le(count) })
    }

    /// Adds one to the value, for the owner only.
    pub fn increment(&self, caller: Identity, state: &mut ContractState) -> (r: Result<
        CallResponse,
        CounterError,
    >)
        requires
            old(state).wf(),
        ensures
            final(state).wf(),
            (outcome(r), final(state)@) == increment_step(old(state)@, caller),
    {
        let stored = state.load();
        if stored.len() != 8 {
            return Err(CounterError::MalformedState);
        }
        if let Err(e) = state.capability.require_owner(caller) {
            return Err(e);
        }
        let count = decode_le(&stored);
        if count == u64::MAX {
            return Err(CounterError::ArithmeticOverflow);
        }
        let new_count = count + 1;
        state.store(new_count);
        Ok(CallResponse { data: encode_le(new_count) })
    }

    /// Takes one from the value, stopping at zero, for the owner only.
    pub fn decrement(&self, caller: Identity, state: &mut ContractState) -> (r: Result<
        CallResponse,
        CounterError,
    >)
        requires
            old(state).wf(),
        ensures
            final(state).wf(),
            (outcome(r), final(state)@) == decrement_step(old(state)@, caller),
    {
        let stored = state.load();
        if stored.len() != 8 {
            return Err(CounterError::MalformedState);
        }
        if let Err(e) = state.capability.require_owner(caller) {
            return Err(e);
        }
        let count = decode_le(&stored);
        let new_count = count.saturating_sub(1);
        state.store(new_count);
        Ok(CallResponse { data: encode_le(new_count) })
    }

    /// Provisions the capability to `caller` and stores zero, unless already initialized.
    pub fn initialize(&self, caller: Identity, state: &mut ContractState) -> (r: Result<
        CallResponse,
        CounterError,
    >)
        requires
            old(state).wf(),
        ensures
            final(state).wf(),
            (outcome(r), final(state)@) == initialize_step(old(state)@, caller),
    {
        let stored = state.load();
        let mut data: Vec<u8> = Vec::new();
        if stored.len() == 0 {
            state.capability = Capability::ProvisionedTo(caller);
            state.store(0);
            data.push(1u8);
        } else {
            data.push(0u8);
        }
        assert(data@ =~= initialize_step(old(state)@, caller).0->Ok_0);
        Ok(CallResponse { data })
    }

    /// Runs one invocation: decodes the opcode from the first input and performs it.
    pub fn execute(&self, context: &CallContext, state: &mut ContractState) -> (r: Result<
        CallResponse,
        CounterError,
    >)
        requires
            old(state).wf(),
        ensures
            final(state).wf(),
            (outcome(r), final(state)@) == step(
                old(state)@,
                opcode_of(context.inputs@),
                context.caller,
            ),
    {
        let operation: u128 = if context.inputs.len() == 0 {
            OP_READ
        } else {
            context.inputs[0]
        };
        if operation == OP_READ {
            self.read(state)
        } else if operation == OP_INCREMENT {
            self.increment(context.caller, state)
        } else if operation == OP_DECREMENT {
            self.decrement(context.caller, state)
        } else if operation == OP_INITIALIZE {
            self.initialize(context.caller, state)
        } else {
            let mut data: Vec<u8> = Vec::new();
            let mut i: usize = 0;
            while i < 8
                invariant
                    0 <= i <= 8,
                    data@ == Seq::new(i as nat, |j: int| 0u8),
                decreases 8 - i,
            {
                data.push(0u8);
                i = i + 1;
                assert(data@ =~= Seq::new(i as nat, |j: int| 0u8));
            }
            Ok(CallResponse { data })
        }
    }
}

} // verus!
