//! Operator control endpoint settings and request authorization.

use crate::text::str_eq;
use vstd::prelude::*;

verus! {

/// Header checked when a secret is configured.
pub const HEADER_SECRET: &'static str = "x-pallas-secret";

/// Bind address and shared secret of the control endpoint.
#[derive(Debug)]
pub struct ControlServerConfig {
    /// e.g. `127.0.0.1:9847`
    pub bind: String,
    /// Required value of the secret header.
    pub secret: String,
}

/// A request is authorized when it carries the secret header with exactly the configured
/// value.
pub fn authorize(header_value: Option<&str>, secret: &str) -> (r: bool)
    ensures
        r == (match header_value {
            Some(v) => v@ == secret@,
            None => false,
        }),
{
    match header_value {
        Some(v) => str_eq(v, secret),
        None => false,
    }
}

} // verus!
