//! Standardized user-facing error messages, so wording stays consistent
//! across providers and CLI interactions.

use vstd::prelude::*;

verus! {

/// CLI tool not found on the system.
pub fn cli_not_found(cli_name: &str) -> (r: String)
    ensures
        r@ == cli_name@ + " not found. Please install it first."@,
{
    String::from_str(cli_name).concat(" not found. Please install it first.")
}

/// Authentication session expired and needs renewal.
pub fn auth_expired(provider: &str) -> (r: String)
    ensures
        r@ == provider@ + " session expired. Please login again."@,
{
    String::from_str(provider).concat(" session expired. Please login again.")
}

/// User is not logged in to the given provider.
pub fn not_logged_in(provider: &str) -> (r: String)
    ensures
        r@ == "Not logged in to "@ + provider@ + ". Please login first."@,
{
    String::from_str("Not logged in to ").concat(provider).concat(". Please login first.")
}

} // verus!
