//! Runs many stateful environments in lock-step rounds on a pool of worker
//! threads, and moves their variable-length observations and actions in
//! flat, ragged batches.

/// Agents, observations as agents see them, and the bridge between agents
/// and a training environment.
pub mod agent;
/// The batch executor: shards, the round's barrier, the ragged batch format,
/// and the environment interface.
pub mod low_level;
/// Lists of named values.
pub mod named;
/// The channels and parkers that threads meet on.
pub mod sync;
