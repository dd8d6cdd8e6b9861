//! The request/response shapes of the thin API layer, and the run mode.

use vstd::prelude::*;
use vstd::string::StringSliceAdditionalSpecFns;
use vstd::string::StrSliceExecFns;
use crate::text::{lower_bytes, lower_vec, push_bytes};
use crate::strconv::bytes_to_string;

verus! {

/// Whether the pipeline serves simulated or real data; an explicit context
/// value, not ambient global state.
#[derive(Clone, Copy, Debug, PartialEq, Eq, Structural)]
pub enum RunMode {
    Sim,
    Real,
}

/// The run mode named by a string, compared after ASCII lowercasing.
pub open spec fn run_mode_spec(s: Seq<u8>) -> Option<RunMode> {
    let t = lower_bytes(s);
    if t == "sim".spec_bytes() {
        Some(RunMode::Sim)
    } else if t == "real".spec_bytes() {
        Some(RunMode::Real)
    } else {
        None
    }
}

impl RunMode {
    /// Parses a run mode name, exactly as `run_mode_spec` describes; the
    /// error carries a message naming the rejected mode.
    pub fn from_str(s: &str) -> (r: Result<RunMode, String>)
        ensures
            match r {
                Ok(m) => run_mode_spec(vstd::utf8::encode_utf8(s@)) == Some(m),
                Err(_) => run_mode_spec(vstd::utf8::encode_utf8(s@)) is None,
            },
    {
        let b = s.as_bytes_vec();
        let t = lower_vec(b.as_slice());
        if crate::text::bytes_eq(t.as_slice(), "sim".as_bytes()) {
            Ok(RunMode::Sim)
        } else if crate::text::bytes_eq(t.as_slice(), "real".as_bytes()) {
            Ok(RunMode::Real)
        } else {
            let mut m: Vec<u8> = Vec::new();
            push_bytes(&mut m, "invalid run mode: ".as_bytes());
            push_bytes(&mut m, b.as_slice());
            Err(bytes_to_string(&m))
        }
    }

    /// The mode's name.
    pub fn name(&self) -> (r: String)
        ensures
            (*self == RunMode::Sim ==> r@ == "sim"@) && (*self == RunMode::Real ==> r@ == "real"@),
    {
        match self {
            RunMode::Sim => "sim".to_owned(),
            RunMode::Real => "real".to_owned(),
        }
    }
}

/// The uniform response envelope of the API layer.
#[derive(Clone, Debug)]
pub struct ApiResponse<T> {
    pub success: bool,
    pub data: Option<T>,
    pub error: Option<String>,
}

impl<T> ApiResponse<T> {
    pub fn success(data: T) -> (r: ApiResponse<T>)
        ensures
            r.success == true,
            r.data == Some(data),
            r.error is None,
    {
        ApiResponse { success: true, data: Some(data), error: None }
    }

    pub fn error(message: String) -> (r: ApiResponse<T>)
        ensures
            r.success == false,
            r.data is None,
            match r.error {
                Some(m) => m@ == message@,
                None => false,
            },
    {
        ApiResponse { success: false, data: None, error: Some(message) }
    }
}

} // verus!
