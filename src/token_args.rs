use vstd::prelude::*;

verus! {

/// The arguments of a request that creates a new asset and attaches its
/// descriptive metadata.
#[derive(Clone, Debug)]
pub struct CreateTokenArgs {
    pub token_title: String,
    pub token_symbol: String,
    pub token_uri: String,
    pub token_decimals: u8,
}

} // verus!
