//! Runtime threat sensor: event records, probe decisions, a per-process
//! descriptor registry and the detectors that run over it.
pub mod abi;
pub mod net;
pub mod probe;
pub mod registry;
pub mod detectors;
pub mod bus;
