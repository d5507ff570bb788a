//! Command-line configuration of the service.

use vstd::prelude::*;

verus! {

/// The address the service listens on: the one given with `--cms`, else
/// `127.0.0.1:9001`.
pub fn listen_address(cms: Option<String>) -> (res: String)
    ensures
        cms matches Some(d) ==> res == d,
        cms is None ==> res@ == "127.0.0.1:9001"@,
{
    match cms {
        Some(d) => d,
        None => "127.0.0.1:9001".to_owned(),
    }
}

} // verus!
