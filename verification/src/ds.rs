//! The data model of the store and the pure logic around it: keys, values,
//! entities, queries, mutation batches, wire-shape conversions, the reference
//! semantics of mutations, and the decision core of the transaction runner.

pub mod entity;
pub mod mutation;
pub mod query;
pub mod shell;
pub mod store;
pub mod transaction;
pub mod wire;

pub use entity::Entity;
pub use entity::EntityView;
pub use entity::Key;
pub use entity::KeyVariant;
pub use entity::KeyVariantView;
pub use entity::PathElemView;
pub use entity::PropView;
pub use entity::PropertyValue;
pub use entity::Value;
pub use entity::ValueView;
pub use entity::MEANING_TEXT;

pub use mutation::Mutation;
pub use mutation::MutationBatch;
pub use mutation::MutationResponse;
pub use mutation::MutationResult;
pub use mutation::MutationView;
pub use mutation::WireCommitResponse;
pub use mutation::WireMutation;
pub use mutation::WireMutationResult;

pub use query::CompositeFilterOperator;
pub use query::Filter;
pub use query::FilterOperator;
pub use query::OrderDirection;
pub use query::PropertyOrder;
pub use query::Query;
pub use query::QueryResult;
pub use query::WireFilter;
pub use query::WireQuery;

pub use shell::ShellCore;
pub use shell::WireBeginTransactionRequest;
pub use shell::WireCommitRequest;
pub use shell::WireKeysRequest;
pub use shell::WireLookupRequest;
pub use shell::WireReadOptions;
pub use shell::WireRollbackRequest;
pub use shell::WireRunQueryRequest;

pub use store::ApplyError;
pub use store::MemoryStore;

pub use transaction::AttemptStart;
pub use transaction::RetryDirective;
pub use transaction::RetryRule;
pub use transaction::RunState;
pub use transaction::Transaction;
pub use transaction::TransactionShell;

pub use wire::WireDecodeError;
pub use wire::WireEntity;
pub use wire::WireKey;
pub use wire::WirePathElement;
pub use wire::WirePayload;
pub use wire::WireValue;
