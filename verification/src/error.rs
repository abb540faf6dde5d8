//! Errors of model construction and simulation.
use vstd::prelude::*;
use vstd::string::*;
use crate::text::{around, decimal};

verus! {

use crate::text::decimal_text;

/// Errors produced by model construction and simulation.
#[derive(Debug)]
pub enum Error {
    /// A parameter or input was rejected.
    InvalidParameter {
        /// The rejected parameter.
        name: &'static str,
        /// Why it was rejected.
        reason: String,
    },
    /// The forcing series differ in length.
    ForcingLengthMismatch {
        /// Steps of the precipitation series.
        precip: usize,
        /// Steps of the evapotranspiration series.
        pet: usize,
    },
}

/// What an [`Error`] says.
pub enum Fault {
    /// A parameter or input was rejected.
    InvalidParameter {
        /// The rejected parameter.
        name: Seq<char>,
        /// Why it was rejected.
        reason: Seq<char>,
    },
    /// The forcing series differ in length.
    ForcingLengthMismatch {
        /// Steps of the precipitation series.
        precip: nat,
        /// Steps of the evapotranspiration series.
        pet: nat,
    },
}

impl View for Error {
    type V = Fault;

    open spec fn view(&self) -> Fault {
        match *self {
            Error::InvalidParameter { name, reason } => Fault::InvalidParameter {
                name: name@,
                reason: reason@,
            },
            Error::ForcingLengthMismatch { precip, pet } => Fault::ForcingLengthMismatch {
                precip: precip as nat,
                pet: pet as nat,
            },
        }
    }
}

/// The fault of parameter `name` for `reason`.
pub open spec fn invalid(name: Seq<char>, reason: Seq<char>) -> Fault {
    Fault::InvalidParameter { name, reason }
}

/// The fault of forcing series of different lengths.
pub open spec fn mismatch(precip: nat, pet: nat) -> Fault {
    Fault::ForcingLengthMismatch { precip, pet }
}

/// Builds the error for parameter `name`.
pub(crate) fn reject(name: &'static str, reason: &str) -> (e: Error)
    ensures
        e@ == invalid(name@, reason@),
{
    Error::InvalidParameter { name, reason: reason.to_owned() }
}

/// The text of a fault.
pub open spec fn fault_text(f: Fault) -> Seq<char> {
    match f {
        Fault::InvalidParameter { name, reason } => "invalid parameter `"@ + name + "`: "@ + reason,
        Fault::ForcingLengthMismatch { precip, pet } => {
            "forcing series length mismatch: precip has "@ + decimal_text(precip)
                + " steps, pet has "@ + decimal_text(pet)
        },
    }
}

impl Error {
    /// The message of this error.
    pub fn message(&self) -> (r: String)
        ensures
            r@ == fault_text(self@),
    {
        match self {
            Error::InvalidParameter { name, reason } => {
                let mut r = "invalid parameter `".to_owned();
                r.append(name);
                r.append("`: ");
                r.append(reason.as_str());
                r
            },
            Error::ForcingLengthMismatch { precip, pet } => {
                let mut r = around(
                    "forcing series length mismatch: precip has ",
                    *precip,
                    " steps, pet has ",
                );
                r.append(decimal(*pet).as_str());
                r
            },
        }
    }
}

} // verus!
