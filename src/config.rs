use vstd::prelude::*;

verus! {

/// A full viewing key, in its textual encoding, and the path it was read from.
#[derive(Clone, Debug)]
pub struct FvkEntry {
    pub fvk: String,
    pub path: String,
}

/// One monitored account: its first key, its balance at genesis in base
/// units, and the keys it was migrated to, oldest first.
#[derive(Clone, Debug)]
pub struct AccountConfig {
    pub original: FvkEntry,
    pub genesis_balance: u128,
    pub migrations: Vec<FvkEntry>,
}

/// The monitor's configuration: the node to query and the accounts to watch.
#[derive(Debug)]
pub struct PmonitorConfig {
    pub grpc_url: String,
    pub accounts: Vec<AccountConfig>,
}

} // verus!
