//! Laws of the models.
//!
//! The contracts of the models hold for any number type, rounding included.
//! What is promised of them as a whole (that water is neither made nor lost,
//! that stores stay within their capacity, that a perfect simulation scores
//! one) is mostly a matter of exact arithmetic. Here the formulas of the
//! contracts are taken over the real numbers, and those promises are proved.
//! Laws that need no arithmetic, such as that a run can be split, are proved
//! for every number type.
pub mod algebra;
pub mod band_equations;
pub mod band_order;
pub mod bands;
pub mod calibrate;
pub mod continuity;
pub mod curves;
pub mod forcing;
pub mod gr4j;
pub mod gr4j_equations;
pub mod hbv;
pub mod hbv_equations;
pub mod hydrograph;
pub mod hypsometry;
pub mod links;
pub mod metrics;
pub mod network;
pub mod operations;
pub mod production;
pub mod reach;
pub mod rejection;
pub mod scores;
pub mod search;
pub mod settings;
pub mod sums;
pub mod tables;
pub mod triangle;
pub mod unit_hydrograph;
pub mod units;
