//! A greeting ledger: one invocation checks who owns a record, reads the
//! record's state out of its fixed buffer, counts the greeting, and writes the
//! state back.

pub mod account;
pub mod buffer;
pub mod error;
pub mod laws;
pub mod layout;
pub mod processor;
pub mod state;
mod wire;

pub use account::{Account, Identity};
pub use buffer::copy_payload;
pub use error::ErrorKind;
pub use processor::{process_instruction, Receipt};
pub use state::GreetingAccount;
