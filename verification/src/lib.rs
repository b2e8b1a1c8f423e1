//! Client library for the NSDP-style discovery protocol spoken by ProSAFE
//! switches: request framing, response decoding, and the pure decision logic
//! of the metrics exporter built on top of it.

pub mod codec;
pub mod exporter;
pub mod prosafe_switch;

pub use codec::QueryError;
pub use exporter::{run, Exporter, Opt, Route};
pub use prosafe_switch::{
    Cmd, Link, PortStat, PortStats, ProSafeSwitch, QueryRequest, QueryResponse, SpeedStat,
    SpeedStats,
};
