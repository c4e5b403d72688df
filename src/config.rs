//! Default settings.
use vstd::prelude::*;

verus! {

/// Path of the local store when none is given.
pub fn default_db_path() -> (r: String)
    ensures
        r@ == "collier.db"@,
{
    "collier.db".to_owned()
}

/// Address of the remote node when none is given.
pub fn default_rpc_url() -> (r: String)
    ensures
        r@ == "https://api.mainnet-beta.solana.com"@,
{
    "https://api.mainnet-beta.solana.com".to_owned()
}

} // verus!
