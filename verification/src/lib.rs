//! A memory-only personal-finance ledger: banks, buckets of a bank's funds,
//! tags and transactions, entered one field at a time through a modal form.
//!
//! The store (`UserData`) keeps every record in the order of commits and
//! refuses duplicates and dangling references. The form (`InputState`) holds
//! what was typed for each field. `App` ties menu, store and form together:
//! `App::handle_key` is the whole state machine, and `machine::AppView` says
//! what it does.

pub mod app;
mod clock;
pub mod decimal;
pub mod error;
pub mod input;
pub mod laws;
pub mod machine;
pub mod model;
pub mod store;
pub mod text;

pub use app::{App, MenuState};
pub use decimal::Decimal;
pub use error::{CommitError, ErrorKind};
pub use input::{EntityKind, InputField, InputMode, InputState, Key};
pub use model::{Bank, Bucket, Tag, Transaction, TransactionType};
pub use store::UserData;
