//! Sparse object grids indexed by A5 pentagonal cells, for agent-based models.
pub mod engine;
