//! Decision logic of a live terminal dashboard for CPU and memory use:
//! textual gauges, panel layout, metric arithmetic, the terminal session
//! lifecycle and the refresh loop, each stated and proved with Verus.

pub mod gauge;
pub mod layout;
pub mod metrics;
pub mod controller;
pub mod session;
pub mod text;
pub mod frame;

