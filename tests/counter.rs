use alkane_counter::{
    counter_key, decode_le, encode_le, CallContext, Capability, ContractState, Counter,
    CounterError, Identity, Storage,
};

fn call(caller: Identity, inputs: Vec<u128>) -> CallContext {
    CallContext { caller, inputs }
}

fn owner() -> Identity {
    Identity { block: 0, tx: 0 }
}

fn stranger() -> Identity {
    Identity { block: 2, tx: 7 }
}

fn stored_counter(state: &ContractState) -> Vec<u8> {
    state.storage.get(&counter_key())
}

fn initialized() -> ContractState {
    let mut state = ContractState::new();
    let counter = Counter::default();
    counter.execute(&call(owner(), vec![3]), &mut state).unwrap();
    state
}

#[test]
fn test_initialization() {
    let context = CallContext { caller: Identity { block: 0, tx: 0 }, inputs: vec![3] };
    let counter = Counter::default();
    let mut state = ContractState::new();
    let result = counter.execute(&context, &mut state);
    assert!(result.is_ok(), "Execution failed: {:?}", result.err());
}

#[test]
fn initialize_twice_answers_one_then_zero() {
    let counter = Counter::default();
    let mut state = ContractState::new();
    let first = counter.execute(&call(owner(), vec![3]), &mut state).unwrap();
    assert_eq!(first.data, vec![1]);
    let second = counter.execute(&call(stranger(), vec![3]), &mut state).unwrap();
    assert_eq!(second.data, vec![0]);
    assert_eq!(state.capability, Capability::ProvisionedTo(owner()));
    let read = counter.execute(&call(stranger(), vec![0]), &mut state).unwrap();
    assert_eq!(read.data, vec![0, 0, 0, 0, 0, 0, 0, 0]);
}

#[test]
fn decrement_stops_at_zero() {
    let counter = Counter::default();
    let mut state = initialized();
    for _ in 0..3 {
        let r = counter.execute(&call(owner(), vec![2]), &mut state).unwrap();
        assert_eq!(r.data, vec![0, 0, 0, 0, 0, 0, 0, 0]);
    }
    assert_eq!(stored_counter(&state), vec![0, 0, 0, 0, 0, 0, 0, 0]);
}

#[test]
fn read_after_increments() {
    let counter = Counter::default();
    let mut state = initialized();
    for n in 1..=5u64 {
        let r = counter.execute(&call(owner(), vec![1]), &mut state).unwrap();
        assert_eq!(r.data, n.to_le_bytes().to_vec());
    }
    let read = counter.execute(&call(owner(), vec![0]), &mut state).unwrap();
    assert_eq!(read.data, vec![5, 0, 0, 0, 0, 0, 0, 0]);
}

#[test]
fn decrement_after_increments() {
    let counter = Counter::default();
    let mut state = initialized();
    counter.execute(&call(owner(), vec![1]), &mut state).unwrap();
    counter.execute(&call(owner(), vec![1]), &mut state).unwrap();
    let r = counter.execute(&call(owner(), vec![2]), &mut state).unwrap();
    assert_eq!(r.data, vec![1, 0, 0, 0, 0, 0, 0, 0]);
}

#[test]
fn non_owner_cannot_mutate() {
    let counter = Counter::default();
    let mut state = initialized();
    counter.execute(&call(owner(), vec![1]), &mut state).unwrap();
    for op in [1u128, 2u128] {
        let r = counter.execute(&call(stranger(), vec![op]), &mut state);
        assert_eq!(r.unwrap_err(), CounterError::Unauthorized);
        assert_eq!(stored_counter(&state), vec![1, 0, 0, 0, 0, 0, 0, 0]);
    }
}

#[test]
fn mutation_before_initialize_is_malformed() {
    let counter = Counter::default();
    for op in [1u128, 2u128] {
        let mut state = ContractState::new();
        let r = counter.execute(&call(owner(), vec![op]), &mut state);
        assert_eq!(r.unwrap_err(), CounterError::MalformedState);
        assert_eq!(stored_counter(&state), Vec::<u8>::new());
        assert_eq!(state.capability, Capability::NotProvisioned);
    }
}

#[test]
fn read_before_initialize_is_malformed() {
    let counter = Counter::default();
    let mut state = ContractState::new();
    let r = counter.execute(&call(owner(), vec![0]), &mut state);
    assert_eq!(r.unwrap_err(), CounterError::MalformedState);
}

#[test]
fn read_of_short_slot_is_malformed() {
    let counter = Counter::default();
    let mut state = initialized();
    state.storage.set(counter_key(), vec![1, 2, 3]);
    let r = counter.execute(&call(owner(), vec![0]), &mut state);
    assert_eq!(r.unwrap_err(), CounterError::MalformedState);
    let r = counter.execute(&call(owner(), vec![1]), &mut state);
    assert_eq!(r.unwrap_err(), CounterError::MalformedState);
    assert_eq!(stored_counter(&state), vec![1, 2, 3]);
}

#[test]
fn increment_at_max_overflows() {
    let counter = Counter::default();
    let mut state = initialized();
    state.storage.set(counter_key(), encode_le(u64::MAX));
    let r = counter.execute(&call(owner(), vec![1]), &mut state);
    assert_eq!(r.unwrap_err(), CounterError::ArithmeticOverflow);
    assert_eq!(stored_counter(&state), vec![0xff; 8]);
}

#[test]
fn unknown_opcode_answers_zero_sentinel() {
    let counter = Counter::default();
    let mut state = initialized();
    counter.execute(&call(owner(), vec![1]), &mut state).unwrap();
    let r = counter.execute(&call(stranger(), vec![99]), &mut state).unwrap();
    assert_eq!(r.data, vec![0, 0, 0, 0, 0, 0, 0, 0]);
    assert_eq!(stored_counter(&state), vec![1, 0, 0, 0, 0, 0, 0, 0]);
    assert_eq!(state.capability, Capability::ProvisionedTo(owner()));
}

#[test]
fn unknown_opcode_before_initialize_writes_nothing() {
    let counter = Counter::default();
    let mut state = ContractState::new();
    let r = counter.execute(&call(owner(), vec![99]), &mut state).unwrap();
    assert_eq!(r.data, vec![0, 0, 0, 0, 0, 0, 0, 0]);
    assert_eq!(stored_counter(&state), Vec::<u8>::new());
    assert_eq!(state.capability, Capability::NotProvisioned);
}

#[test]
fn empty_inputs_read() {
    let counter = Counter::default();
    let mut state = initialized();
    counter.execute(&call(owner(), vec![1]), &mut state).unwrap();
    counter.execute(&call(owner(), vec![1]), &mut state).unwrap();
    let r = counter.execute(&call(stranger(), vec![]), &mut state).unwrap();
    assert_eq!(r.data, vec![2, 0, 0, 0, 0, 0, 0, 0]);
    let mut fresh = ContractState::new();
    let r = counter.execute(&call(owner(), vec![]), &mut fresh);
    assert_eq!(r.unwrap_err(), CounterError::MalformedState);
}

#[test]
fn opcode_taken_from_first_input_only() {
    let counter = Counter::default();
    let mut state = ContractState::new();
    let r = counter.execute(&call(owner(), vec![3, 1, 1]), &mut state).unwrap();
    assert_eq!(r.data, vec![1]);
    assert_eq!(stored_counter(&state), vec![0, 0, 0, 0, 0, 0, 0, 0]);
}

#[test]
fn encoding_is_little_endian() {
    assert_eq!(encode_le(0x0102030405060708), vec![8, 7, 6, 5, 4, 3, 2, 1]);
    assert_eq!(decode_le(&vec![8, 7, 6, 5, 4, 3, 2, 1]), 0x0102030405060708);
    assert_eq!(decode_le(&encode_le(u64::MAX - 1)), u64::MAX - 1);
}

#[test]
fn storage_get_and_overwrite() {
    let mut storage = Storage::new();
    assert_eq!(storage.get(&vec![1, 2]), Vec::<u8>::new());
    storage.set(vec![1, 2], vec![9]);
    storage.set(vec![3], vec![4, 5]);
    storage.set(vec![1, 2], vec![7, 7]);
    assert_eq!(storage.get(&vec![1, 2]), vec![7, 7]);
    assert_eq!(storage.get(&vec![3]), vec![4, 5]);
    assert_eq!(storage.get(&vec![1]), Vec::<u8>::new());
}

#[test]
fn require_owner_checks_identity() {
    let cap = Capability::ProvisionedTo(owner());
    assert_eq!(cap.require_owner(owner()), Ok(()));
    assert_eq!(cap.require_owner(stranger()), Err(CounterError::Unauthorized));
    assert_eq!(
        Capability::NotProvisioned.require_owner(owner()),
        Err(CounterError::Unauthorized)
    );
}

#[test]
fn counter_key_is_slash_counter() {
    assert_eq!(counter_key(), b"/counter".to_vec());
}
