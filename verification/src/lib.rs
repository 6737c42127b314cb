//! A fixed-layout account record and the three requests that create, update and
//! validate it without ever changing the length of the slot that stores it.

pub mod codec;
pub mod codec_laws;
pub mod error;
pub mod instruction;
pub mod layout;
pub mod processor;
pub mod processor_laws;
pub mod state;
pub mod wire;
pub mod wire_laws;

pub use error::{BorshDemoError, DecodeError, EncodeError, ProcessError};
pub use instruction::BorshDemoInstruction;
pub use processor::{Outcome, Processor, Slot};
pub use state::{
    BorshDemoAccount, BorshDemoState, DataEnum, NestedStruct, SimpleEnum, ACCOUNT_DISCRIMINATOR,
    DISCRIMINATOR_LEN,
};
