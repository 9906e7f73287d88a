//! A persistent property-record store: CRUD and ownership transfer over one
//! entity type, backed by a durable id counter and a durable ordered map
//! that both live in regions of a single durable byte space and survive
//! restarts. Records cross the storage boundary through a verified,
//! size-bounded byte codec; the service operations carry contracts that pin
//! down what each one returns and how it changes the store.

pub mod codec;
pub mod property;
pub mod storage;
pub mod store;

pub use property::Error;
pub use property::Property;
pub use property::PropertyPayload;
pub use codec::MAX_ENCODED_SIZE;
pub use storage::MemorySpace;
pub use store::verify_owner_identity;
pub use store::Store;
