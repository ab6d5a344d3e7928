//! Account-context validation: validators that check externally supplied
//! account handles, a composer that builds a whole context from a schema,
//! and the serializer that turns a validated context back into metadata.

pub mod account;
pub mod error;
pub mod cursor;
pub mod registry;
pub mod signer;
pub mod system_account;
pub mod context;
pub mod laws;
pub mod mirror;
