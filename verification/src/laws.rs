//! What the library promises, operation by operation: each law says of any
//! input what comes out, in terms of the input itself.

pub mod addresses;
pub mod answers;
pub mod counting;
pub mod detection;
pub mod frames;
pub mod protocols;
pub mod reporting;
pub mod requests;
pub mod settings;
