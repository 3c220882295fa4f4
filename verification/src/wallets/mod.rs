//! Wallets of accounts that the node's API users may act for.
use crate::api::AccountId;
use crate::config::WalletManagerConfig;
use vstd::prelude::*;

pub mod manager;

verus! {

/// A wallet and the roles whose users may use it through the node's API.
#[derive(Debug, Clone)]
pub struct Wallet {
    pub name: String,
    pub locked: bool,
    pub account_id: String,
    /// users with this role can access this account using our api
    pub authorized_roles: Vec<String>,
}

/// The wallets the node offers to its API users, by account id.
pub struct WalletManager {
    wallets: Vec<(AccountId, Wallet)>,
    config: WalletManagerConfig,
}

impl WalletManager {
    /// A manager with the given settings and no wallets.
    pub fn new(config: WalletManagerConfig) -> (r: Self)
        ensures
            r.wallet_list() == Seq::<(AccountId, Wallet)>::empty(),
    {
        WalletManager { wallets: Vec::new(), config }
    }

    /// A manager for tests, with default settings and no wallets.
    pub fn mock() -> (r: Self)
        ensures
            r.wallet_list() == Seq::<(AccountId, Wallet)>::empty(),
    {
        Self::new(WalletManagerConfig::default())
    }

    /// The wallets, each with its account id.
    pub closed spec fn wallet_list(&self) -> Seq<(AccountId, Wallet)> {
        self.wallets@
    }

    /// The wallets, each with its account id.
    pub fn get_wallets(&self) -> (r: &Vec<(AccountId, Wallet)>)
        ensures
            r@ == self.wallet_list(),
    {
        &self.wallets
    }
}

impl Default for WalletManager {
    fn default() -> (r: Self)
        ensures
            r.wallet_list() == Seq::<(AccountId, Wallet)>::empty(),
    {
        Self::new(WalletManagerConfig::default())
    }
}

} // verus!
