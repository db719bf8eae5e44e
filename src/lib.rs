//! A persisted 64-bit counter behind an opcode dispatcher, with ownership-gated
//! mutation and a one-time initialization that provisions the owner capability.

pub mod auth;
pub mod codec;
pub mod counter;
pub mod error;
pub mod laws;
pub mod storage;

pub use auth::{Capability, Identity};
pub use codec::{decode_le, encode_le};
pub use counter::{
    counter_key, CallContext, CallResponse, ContractState, Counter, OP_DECREMENT, OP_INCREMENT,
    OP_INITIALIZE, OP_READ,
};
pub use error::CounterError;
pub use storage::Storage;
