//! Batch validation of bearer credentials against one rate-limited endpoint:
//! egress-client rotation, the retry and backoff protocol, and the tally.

pub mod backoff;
pub mod egress;
pub mod exchange;
pub mod intake;
pub mod protocol;
pub mod rotation;
pub mod tally;
pub mod validate;
