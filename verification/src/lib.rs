//! A delegated-call proxy: an owner grants other principals time-limited,
//! scoped authority to invoke methods on third-party targets through the
//! proxy's identity. The authorization policy decides, for each forwarding
//! request, whether it runs immediately, is queued for explicit owner
//! approval, or is rejected; a hash-addressed queue holds the pending
//! requests and their dispositions.

pub mod types;
pub mod model;
pub mod trusted;
pub mod service;
pub mod call;
pub mod laws;
