//! A typed access layer over a hierarchically-keyed document store that is
//! reached through remote procedure calls.
//!
//! The crate provides the entity/key/value data model of the store, builders
//! for queries and mutation batches, pure conversions between the model and
//! the wire shapes of the protocol, and the decision core of a transaction
//! runner that retries a unit of work under optimistic concurrency control
//! with classified errors and exponential backoff.

pub mod ds;
pub mod schema;

mod adapter;
mod error;

pub use adapter::model_update::ModeledUpdate;
pub use adapter::EntityAdapter;
pub use adapter::EntityModel;
pub use ds::transaction::Transaction;
pub use error::DsError;
pub use error::EntailError;
pub use error::EntailErrorKind;
