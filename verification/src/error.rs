//! The engine's error taxonomy: input validation, unknown configuration
//! values and codec failures. Every failure is fatal for the run that
//! raised it, and its message names the rejected value; there is no
//! retry anywhere.

use vstd::prelude::*;
use vstd::string::StringExecFns;

use crate::textfmt::{push_dec, spec_dec};

verus! {

/// A fatal engine error.
#[derive(Debug)]
pub enum IconError {
    /// The source raster is not square; nothing is generated.
    NonSquareSource { width: u32, height: u32 },
    /// A badge identifier outside the supported set was requested.
    UnknownBugKind { name: String },
    /// An icon-family type code outside the supported set was requested.
    UnknownOsType { code: String },
    /// A requested pixel size is zero or beyond the supported range.
    InvalidSize { size: u32 },
    /// A codec rejected the data it was handed.
    EncodeFailed,
}

impl IconError {
    /// A human-readable description of the failure, naming the rejected
    /// value and, for configuration errors, the valid set.
    pub fn message(&self) -> (msg: String)
        ensures
            msg@ == self.spec_message(),
    {
        match self {
            IconError::NonSquareSource { width, height } => {
                let mut m = String::from_str("source image must be square (width == height), got ");
                push_dec(&mut m, *width);
                m.append("x");
                push_dec(&mut m, *height);
                proof {
                    assert(m@ =~= self.spec_message());
                }
                m
            },
            IconError::UnknownBugKind { name } => {
                let mut m = String::from_str("unknown bug type: ");
                m.append(name.as_str());
                m.append(". Available types: moth, cockroach, ladybug, spider");
                proof {
                    assert(m@ =~= self.spec_message());
                }
                m
            },
            IconError::UnknownOsType { code } => {
                let mut m = String::from_str("unknown icon family type code: ");
                m.append(code.as_str());
                m.append(
                    ". Supported codes: is32, ic11, il32, ic12, ic07, ic13, ic08, ic14, ic09, ic10",
                );
                proof {
                    assert(m@ =~= self.spec_message());
                }
                m
            },
            IconError::InvalidSize { size } => {
                let mut m = String::from_str("requested icon size ");
                push_dec(&mut m, *size);
                m.append(" must be between 1 and 16384 pixels");
                proof {
                    assert(m@ =~= self.spec_message());
                }
                m
            },
            IconError::EncodeFailed => String::from_str("image encoding failed"),
        }
    }

    /// The text `message` returns.
    pub open spec fn spec_message(&self) -> Seq<char> {
        match self {
            IconError::NonSquareSource { width, height } =>
                "source image must be square (width == height), got "@ + spec_dec(*width as int)
                    + "x"@ + spec_dec(*height as int),
            IconError::UnknownBugKind { name } => "unknown bug type: "@ + name@
                + ". Available types: moth, cockroach, ladybug, spider"@,
            IconError::UnknownOsType { code } => "unknown icon family type code: "@ + code@
                + ". Supported codes: is32, ic11, il32, ic12, ic07, ic13, ic08, ic14, ic09, ic10"@,
            IconError::InvalidSize { size } => "requested icon size "@ + spec_dec(*size as int)
                + " must be between 1 and 16384 pixels"@,
            IconError::EncodeFailed => "image encoding failed"@,
        }
    }
}

} // verus!
