//! Orchestration of a Shadertoy-style multi-buffer compute pipeline: named
//! stages that each write one persistent texture and read the textures of
//! their producers, walked once per frame in dependency order.
//!
//! - `graph`: the producer → consumer graph, its topological order and the
//!   rejection of cycles at setup.
//! - `node`: the per-stage state machine (Loading → Init → Update, or Error).
//! - `pipeline`: the registry of asynchronously compiled pipelines.
//! - `binding`: stage textures, declared layouts and bind group contents.
//! - `uniform`: the frame-global uniform record.
//! - `dispatch`: workgroup counts, rounded up.
//! - `driver`: the frame driver that owns all of the above.
pub mod binding;
pub mod dispatch;
pub mod driver;
pub mod graph;
pub mod node;
pub mod pipeline;
pub mod uniform;
