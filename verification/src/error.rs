//! The engine's error type and the text each error reads as.
use crate::text::{decimal, u32_decimal};
use vstd::prelude::*;
use vstd::string::StringExecFns;

verus! {

#[verifier::external_type_specification]
#[verifier::external_body]
pub struct ExIoError(std::io::Error);

#[derive(Debug)]
pub enum KaadanError {
    Platform(String),
    Renderer(String),
    AssetNotFound(String),
    AssetLoad { path: String, reason: String },
    InvalidHandle { index: u32, generation: u32 },
    Io(std::io::Error),
    Other(String),
}

/// Text of an I/O error, as std's `Display` for `std::io::Error` writes it.
/// Nothing is claimed of the text: std documents no format for it.
#[verifier::external_body]
fn io_error_text(e: &std::io::Error) -> (s: String) {
    e.to_string()
}

impl KaadanError {
    /// The message of every variant but `Io`, whose text comes from std.
    pub open spec fn spec_message(&self) -> Seq<char> {
        match self {
            KaadanError::Platform(s) => "Platform error: "@ + s@,
            KaadanError::Renderer(s) => "Renderer error: "@ + s@,
            KaadanError::AssetNotFound(s) => "Asset not found: "@ + s@,
            KaadanError::AssetLoad { path, reason } => "Asset load error: "@ + path@ + ": "@ + reason@,
            KaadanError::InvalidHandle { index, generation } => "Invalid handle: index="@ + decimal(
                *index as nat,
            ) + ", generation="@ + decimal(*generation as nat),
            KaadanError::Io(_) => "IO error: "@,
            KaadanError::Other(s) => s@,
        }
    }

    /// The human-readable message of this error.
    pub fn message(&self) -> (m: String)
        ensures
            !(self is Io) ==> m@ == self.spec_message(),
            self is Io ==> m@.len() >= self.spec_message().len() && m@.subrange(
                0,
                self.spec_message().len() as int,
            ) == self.spec_message(),
    {
        match self {
            KaadanError::Platform(s) => "Platform error: ".to_owned().concat(s.as_str()),
            KaadanError::Renderer(s) => "Renderer error: ".to_owned().concat(s.as_str()),
            KaadanError::AssetNotFound(s) => "Asset not found: ".to_owned().concat(s.as_str()),
            KaadanError::AssetLoad { path, reason } => {
                let mut m = "Asset load error: ".to_owned();
                m.append(path.as_str());
                m.append(": ");
                m.append(reason.as_str());
                m
            },
            KaadanError::InvalidHandle { index, generation } => {
                let mut m = "Invalid handle: index=".to_owned();
                m.append(u32_decimal(*index).as_str());
                m.append(", generation=");
                m.append(u32_decimal(*generation).as_str());
                m
            },
            KaadanError::Io(e) => {
                let m = "IO error: ".to_owned().concat(io_error_text(e).as_str());
                proof {
                    assert(m@.subrange(0, "IO error: "@.len() as int) =~= "IO error: "@);
                }
                m
            },
            KaadanError::Other(s) => s.clone(),
        }
    }
}

impl From<std::io::Error> for KaadanError {
    fn from(e: std::io::Error) -> (r: KaadanError)
        ensures
            r == KaadanError::Io(e),
    {
        KaadanError::Io(e)
    }
}

impl vstd::std_specs::convert::FromSpecImpl<std::io::Error> for KaadanError {
    open spec fn obeys_from_spec() -> bool {
        true
    }

    open spec fn from_spec(e: std::io::Error) -> KaadanError {
        KaadanError::Io(e)
    }
}

pub type KaadanResult<T> = Result<T, KaadanError>;

} // verus!
