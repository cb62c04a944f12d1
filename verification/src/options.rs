//! Options understood by the desugaring driver.

use vstd::prelude::*;

verus! {

/// The name of the environment variable used to pass serialized options to
/// the driver.
pub fn desugar_args_env() -> (r: &'static str)
    ensures
        r@ == "CARGO_DESUGAR_ARGS"@,
{
    "CARGO_DESUGAR_ARGS"
}

/// Options understood by the desugaring driver.
pub struct CliOpts {
    /// Extra flags to forward directly to the host compiler.
    pub rustc_args: Vec<String>,
}

impl Default for CliOpts {
    fn default() -> (r: Self)
        ensures
            r.rustc_args@.len() == 0,
    {
        CliOpts { rustc_args: Vec::new() }
    }
}

} // verus!
