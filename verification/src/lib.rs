//! Conceptual rainfall-runoff models with calibration and goodness-of-fit
//! metrics.
//!
//! - [`gr4j`] and [`hbv`] are lumped daily models, [`bands`] distributes HBV
//!   over elevation bands, [`routing`] takes subcatchments down a river network.
//! - [`metrics`] scores a simulation, [`calibrate`] searches for parameters.
//! - [`forcing`] reads forcing tables, [`session`] runs and calibrates over one.
//!
//! Every model and metric is generic over its number type ([`number`]), so dual
//! numbers or tape-based numbers flow through unchanged. Each contract states
//! the result as a formula over the operations of that type. [`laws`] takes the
//! same formulas over the real numbers ([`exact`]) and proves what they promise
//! there: water is conserved, stores keep within their capacities, a perfect
//! simulation scores one.
pub mod bands;
pub mod calibrate;
pub mod error;
pub mod exact;
pub mod forcing;
pub mod gr4j;
pub mod hbv;
pub mod laws;
pub mod metrics;
pub mod number;
pub mod routing;
pub mod session;
pub mod text;
pub mod uh;

pub use bands::{ElevationBand, ElevationBands, HbvBands};
pub use calibrate::{
    calibrate_gr4j, calibrate_hbv, calibrate_hbv_bands, dds_maximize, DdsConfig, Objective,
    Optimizer,
};
pub use error::Error;
pub use gr4j::{Gr4j, Gr4jParams, Gr4jState};
pub use hbv::{Hbv, HbvParams, HbvState};
