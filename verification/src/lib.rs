//! Monte-Carlo pricing orchestration: the simulation timeline, the weighted
//! instrument list, bumps and their undo snapshot, and the pricer's own
//! bookkeeping, each with a proved contract.
//!
//! Dates are day numbers (`i64`). Weights, bump magnitudes and the simulation
//! model are carried through as type parameters: the library never computes
//! with them.

pub mod timeline;
pub mod instrument;
pub mod bump;
pub mod saveable;
pub mod pricer;
