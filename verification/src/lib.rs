//! Persistent-state core of a pooled instance-token contract: a LIFO stack of
//! token ids kept under an explicit count, a monotone replay guard over
//! transaction ids, and a deterministic roll that consumes one token and either
//! keeps it in the pool or releases the top pool token to the caller.

pub mod codec;
pub mod engine;
pub mod errors;
pub mod host;
pub mod state;
pub mod store;
pub mod types;
pub mod ids;
pub mod laws;

pub use codec::id_label;
pub use codec::u128_to_dec;
pub use errors::RollError;
pub use ids::InstanceId;
pub use ids::PANDA_GROUP;
pub use state::PandaRoll;
pub use state::StoreModel;
pub use types::CallContext;
pub use types::CallResponse;
pub use types::Transfer;
pub use engine::spec_multiplier;
pub use engine::multiplier_from_bytes;
pub use engine::roll_model;
pub use engine::deposit_model;
