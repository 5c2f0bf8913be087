//! Retargeting core for humanoid skeletal animation: a scene-graph snapshot
//! with its searches, the keyed stores of per-bone corrective parameters, the
//! evaluator bookkeeping that resolves them at commit time, and the queries
//! that tell when a play session has finished.

pub mod builder;
pub mod completion;
pub mod evaluator;
pub mod hierarchy;
pub mod lineage;
pub mod registry;
pub mod searcher;
pub mod types;
