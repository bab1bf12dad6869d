//! Network identifiers: string constants that partition peers into
//! mutually incompatible clusters.

use vstd::prelude::*;

verus! {

pub const LOCALNET: &'static str = "localnet";

pub const TESTNET: &'static str = "testnet";

pub const DEVNET: &'static str = "devnet";

pub const MAINNET_BETA: &'static str = "mainnet-beta";

} // verus!
