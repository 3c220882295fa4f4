use champ_node::wallets::manager::{address_from_file_name, Wallet, WalletManager, WalletManagerError};
use champ_node::wallets::WalletManager as ApiWalletManager;
use champ_node::config::WalletManagerConfig;

const ADDRESS: &str = "yy5xyknabqan31b8fkpyrd4nydtwpausi3kxgta";

fn address_bytes() -> Vec<u8> {
    vec![0, 54, 240, 40, 88, 11, 176, 44, 200, 39, 42, 154, 2, 15, 66, 0, 227, 70, 226, 118, 174, 84, 243, 71]
}

#[test]
fn create_wallet() {
    let wallet_name = "Malox";
    let mut wallet_manager = WalletManager::new();

    let account_address =
        wallet_manager.create_wallet(ADDRESS, Ok(address_bytes())).unwrap_or_else(|_| panic!("Creating wallet failed"));
    // a new wallet is in the name index, with no name yet
    assert_eq!(wallet_manager.wallet_name(&account_address).map(|s| s.as_str()), Some(""));
    wallet_manager.rename_wallet(account_address.as_str(), wallet_name);
    // finding it again keeps its name
    wallet_manager.create_wallet(ADDRESS, Ok(address_bytes())).unwrap_or_else(|_| panic!("Creating wallet failed"));
    assert_eq!(wallet_manager.wallet_name(&account_address).map(|s| s.as_str()), Some(wallet_name));
    wallet_manager.rename_wallet(account_address.as_str(), wallet_name);

    assert!(wallet_manager.get_wallets().contains_key(&account_address));
    let wallet = wallet_manager.get_wallet(&account_address).expect("no wallet found");
    assert_eq!(wallet.account_address, account_address);
    assert_eq!(wallet_manager.wallet_name(&account_address).map(|s| s.as_str()), Some(wallet_name));

    // unlocking with the key that decrypting the wallet file gave
    let key = vec![9u8; 32];
    let result = wallet_manager.unlock_wallet(&account_address, Ok(key));
    assert!(result.is_ok(), "Couldn't unlock wallet");
    let wallet = wallet_manager.get_wallet(&account_address).expect("no wallet found");
    assert!(wallet.has_private_key());
    assert!(!wallet.locked);
}

#[test]
fn delete_wallet() {
    let wallet_name = "Malox";
    let mut wallet_manager = WalletManager::new();
    let account_address =
        wallet_manager.create_wallet(ADDRESS, Ok(address_bytes())).unwrap_or_else(|_| panic!("Couldn't create wallet"));
    wallet_manager.rename_wallet(account_address.as_str(), wallet_name);

    assert!(wallet_manager.get_wallets().contains_key(account_address.as_str()));
    assert!(wallet_manager.names().contains_key(account_address.as_str()));

    wallet_manager.delete_wallet(account_address.as_str());
    assert!(!wallet_manager.get_wallets().contains_key(account_address.as_str()));
    assert!(!wallet_manager.names().contains_key(account_address.as_str()));
}

#[test]
fn invalid_address_is_refused() {
    let mut wallet_manager = WalletManager::new();
    let r = wallet_manager.create_wallet("not an address", Err("invalid address".to_string()));
    assert!(matches!(r, Err(WalletManagerError::AccountError(m)) if m == "invalid address"));
    assert_eq!(wallet_manager.get_wallets().len(), 0);
}

#[test]
fn unlocking_needs_a_known_wallet_and_a_good_key() {
    let mut wallet_manager = WalletManager::new();
    assert!(matches!(wallet_manager.unlock_wallet(ADDRESS, Ok(vec![1])), Err(WalletManagerError::NotFoundError)));
    wallet_manager.create_wallet(ADDRESS, Ok(address_bytes())).unwrap_or_else(|_| panic!("create"));
    assert!(matches!(wallet_manager.needs_unlock(ADDRESS), Ok(true)));
    let r = wallet_manager.unlock_wallet(ADDRESS, Err("wrong password".to_string()));
    assert!(matches!(r, Err(WalletManagerError::WalletError(m)) if m == "wrong password"));
    assert!(wallet_manager.get_wallet(ADDRESS).unwrap().locked);
    assert!(wallet_manager.unlock_wallet(ADDRESS, Ok(vec![1, 2, 3])).is_ok());
    assert!(matches!(wallet_manager.needs_unlock(ADDRESS), Ok(false)));
    // a second unlock leaves the wallet as it is
    assert!(wallet_manager.unlock_wallet(ADDRESS, Err("not tried".to_string())).is_ok());
}

#[test]
fn lock_forgets_the_key() {
    let mut wallet = Wallet::new(ADDRESS, Ok(address_bytes())).unwrap_or_else(|_| panic!("wallet"));
    assert!(wallet.locked);
    assert!(matches!(wallet.unlocked_key(), Err(WalletManagerError::Locked)));
    wallet.set_private_key(vec![5u8; 32]);
    assert!(!wallet.locked);
    assert_eq!(wallet.unlocked_key().ok().cloned(), Some(vec![5u8; 32]));
    wallet.lock();
    assert!(wallet.locked);
    assert!(!wallet.has_private_key());
    assert_eq!(wallet.account_address_bytes, address_bytes());
}

#[test]
fn primary_wallet_is_looked_up_by_configured_address() {
    let mut wallet_manager = WalletManager::mock();
    assert!(wallet_manager.primary_wallet(Some(ADDRESS)).is_none());
    wallet_manager.create_wallet(ADDRESS, Ok(address_bytes())).unwrap_or_else(|_| panic!("create"));
    assert!(wallet_manager.primary_wallet(None).is_none());
    assert_eq!(wallet_manager.primary_wallet(Some(ADDRESS)).unwrap().account_address, ADDRESS);
}

#[test]
fn wallet_file_names_give_addresses() {
    assert_eq!(address_from_file_name("yy5x.json"), "yy5x");
    assert_eq!(address_from_file_name("abc"), "abc");
    assert_eq!(address_from_file_name("a.b.c"), "a");
    assert_eq!(address_from_file_name(".json"), "");
}

#[test]
fn api_wallet_manager_starts_empty() {
    let m = ApiWalletManager::new(WalletManagerConfig::default());
    assert!(m.get_wallets().is_empty());
    assert!(ApiWalletManager::mock().get_wallets().is_empty());
    assert!(ApiWalletManager::default().get_wallets().is_empty());
}
