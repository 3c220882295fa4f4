//! The wallets the node keeps: which account addresses it holds, the name the
//! user gave each, and which are unlocked (hold their private key in memory).
//!
//! Key files and the name index live on disk; reading and writing them, and
//! generating or decrypting keys, happen around this bookkeeping.
use crate::string_map::StringMap;
use vstd::prelude::*;
use zeroize::Zeroize;

verus! {

broadcast use vstd::string::group_string_axioms;

/// What can go wrong while handling wallets.
#[derive(Debug)]
pub enum WalletManagerError {
    IOError(String),
    WalletError(String),
    AccountError(String),
    Unknown(String),
    ReadError(String),
    NotFoundError,
    Locked,
    UnlockError(String),
    CreateWalletError,
    UserAlreadyHasWalletError,
    SerializationError(String),
}

/// A wallet: an account address and, while unlocked, its private key.
#[derive(Debug)]
pub struct Wallet {
    pub locked: bool,
    pub account_address: String,
    pub account_address_bytes: Vec<u8>,
    private_key: Option<Vec<u8>>,
}

/// What a wallet holds, as mathematical values.
pub struct WalletView {
    pub locked: bool,
    pub account_address: Seq<char>,
    pub account_address_bytes: Seq<u8>,
    pub private_key: Option<Seq<u8>>,
}

/// The bytes of an optional key.
pub open spec fn key_view(k: Option<Vec<u8>>) -> Option<Seq<u8>> {
    match k {
        Some(v) => Some(v@),
        None => None,
    }
}

impl View for Wallet {
    type V = WalletView;

    closed spec fn view(&self) -> WalletView {
        WalletView {
            locked: self.locked,
            account_address: self.account_address@,
            account_address_bytes: self.account_address_bytes@,
            private_key: key_view(self.private_key),
        }
    }
}

/// A freshly known wallet: locked, with no key in memory.
pub open spec fn new_wallet_view(address: Seq<char>, bytes: Seq<u8>) -> WalletView {
    WalletView { locked: true, account_address: address, account_address_bytes: bytes, private_key: None }
}

/// The wallet `w` once it is locked: same address, no key.
pub open spec fn locked_view(w: WalletView) -> WalletView {
    WalletView { locked: true, private_key: None, ..w }
}

/// The wallet `w` once it is unlocked with `key`.
pub open spec fn unlocked_view(w: WalletView, key: Seq<u8>) -> WalletView {
    WalletView { locked: false, private_key: Some(key), ..w }
}

/// Overwrites a key held in memory with zeros and drops it, through
/// `zeroize::Zeroize::zeroize` on `Option<Vec<u8>>`. Its source zeroizes the
/// vector, takes it out of the option and writes `None` in its place, so the
/// option is `None` afterwards.
#[verifier::external_body]
fn wipe_key(key: &mut Option<Vec<u8>>)
    ensures
        *final(key) == None::<Vec<u8>>,
{
    key.zeroize();
}

impl Wallet {
    /// A locked wallet for `account_address`, given what decoding the address
    /// gave: its bytes, or the reason it is not a valid address.
    pub fn new(account_address: &str, parsed: Result<Vec<u8>, String>) -> (r: Result<Wallet, WalletManagerError>)
        ensures
            match parsed {
                Ok(bytes) => r matches Ok(w) && w@ == new_wallet_view(account_address@, bytes@),
                Err(e) => r == Err::<Wallet, WalletManagerError>(WalletManagerError::AccountError(e)),
            },
    {
        match parsed {
            Ok(bytes) => Ok(
                Wallet {
                    account_address: account_address.to_string(),
                    account_address_bytes: bytes,
                    locked: true,
                    private_key: None,
                },
            ),
            Err(e) => Err(WalletManagerError::AccountError(e)),
        }
    }

    /// Forgets the private key, wiping it first, and marks the wallet locked.
    pub fn lock(&mut self)
        ensures
            final(self)@ == locked_view(old(self)@),
    {
        wipe_key(&mut self.private_key);
        self.private_key = None;
        self.locked = true;
    }

    /// Holds `key` as the wallet's private key and marks the wallet unlocked.
    pub fn set_private_key(&mut self, key: Vec<u8>)
        ensures
            final(self)@ == unlocked_view(old(self)@, key@),
    {
        self.private_key = Some(key);
        self.locked = false;
    }

    /// The private key to derive the public key from or to sign with; a
    /// wallet without one in memory is `Locked`.
    pub fn unlocked_key(&self) -> (r: Result<&Vec<u8>, WalletManagerError>)
        ensures
            match self@.private_key {
                Some(k) => r matches Ok(v) && v@ == k,
                None => r == Err::<&Vec<u8>, WalletManagerError>(WalletManagerError::Locked),
            },
    {
        match &self.private_key {
            Some(key) => Ok(key),
            None => Err(WalletManagerError::Locked),
        }
    }

    /// Whether the wallet holds its private key in memory.
    pub fn has_private_key(&self) -> (r: bool)
        ensures
            r == self@.private_key is Some,
    {
        self.private_key.is_some()
    }
}

/// The wallets the node knows, by account address, and the names given to
/// them, by account address.
pub struct WalletManager {
    wallets: StringMap<Wallet>,
    names: StringMap<String>,
}

/// What a wallet manager holds, as mathematical maps.
pub struct WalletManagerView {
    pub wallets: Map<Seq<char>, WalletView>,
    pub names: Map<Seq<char>, Seq<char>>,
}

impl View for WalletManager {
    type V = WalletManagerView;

    closed spec fn view(&self) -> WalletManagerView {
        WalletManagerView { wallets: self.wallets@, names: self.names@ }
    }
}

/// The result of looking a wallet up by address.
pub open spec fn lookup_result(m: Map<Seq<char>, WalletView>, address: Seq<char>, r: Option<&Wallet>) -> bool {
    match r {
        Some(w) => m.contains_key(address) && w@ == m[address],
        None => !m.contains_key(address),
    }
}

/// The part of an account address that a wallet file's name carries: what
/// comes before its first dot.
pub open spec fn is_file_stem(name: Seq<char>, stem: Seq<char>) -> bool {
    &&& stem.len() <= name.len()
    &&& stem == name.take(stem.len() as int)
    &&& forall|i: int| 0 <= i < stem.len() ==> stem[i] != '.'
    &&& stem.len() < name.len() ==> name[stem.len() as int] == '.'
}

/// The account address that a wallet file named `file_name` belongs to.
pub fn address_from_file_name(file_name: &str) -> (r: String)
    ensures
        is_file_stem(file_name@, r@),
{
    let n = file_name.unicode_len();
    let mut i: usize = 0;
    while i < n
        invariant
            i <= n,
            n == file_name@.len(),
            forall|j: int| 0 <= j < i ==> file_name@[j] != '.',
        ensures
            i <= n,
            forall|j: int| 0 <= j < i ==> file_name@[j] != '.',
            i < n ==> file_name@[i as int] == '.',
        decreases n - i,
    {
        if file_name.get_char(i) == '.' {
            break;
        }
        i = i + 1;
    }
    let stem = file_name.substring_char(0, i);
    let r = stem.to_string();
    assert(r@ =~= file_name@.take(i as int));
    r
}

impl WalletManager {
    /// A manager that knows no wallets.
    pub fn new() -> (r: Self)
        ensures
            r@.wallets == Map::<Seq<char>, WalletView>::empty(),
            r@.names == Map::<Seq<char>, Seq<char>>::empty(),
    {
        WalletManager { wallets: StringMap::new(), names: StringMap::new() }
    }

    /// A manager for tests; it knows no wallets.
    pub fn mock() -> (r: Self)
        ensures
            r@.wallets == Map::<Seq<char>, WalletView>::empty(),
            r@.names == Map::<Seq<char>, Seq<char>>::empty(),
    {
        Self::new()
    }

    /// The wallet of `account_address`, if the node knows it.
    pub fn get_wallet(&self, account_address: &str) -> (r: Option<&Wallet>)
        ensures
            lookup_result(self@.wallets, account_address@, r),
    {
        self.wallets.get(account_address)
    }

    /// The wallet the configuration names as primary, if one is named and
    /// the node knows it.
    pub fn primary_wallet(&self, primary: Option<&str>) -> (r: Option<&Wallet>)
        ensures
            match primary {
                Some(p) => lookup_result(self@.wallets, p@, r),
                None => r is None,
            },
    {
        match primary {
            Some(p) => self.get_wallet(p),
            None => None,
        }
    }

    /// The name given to the wallet of `account_address`, if any.
    pub fn wallet_name(&self, account_address: &str) -> (r: Option<&String>)
        ensures
            match r {
                Some(n) => self@.names.contains_key(account_address@) && n@ == self@.names[account_address@],
                None => !self@.names.contains_key(account_address@),
            },
    {
        self.names.get(account_address)
    }

    /// All known wallets, by account address.
    pub fn get_wallets(&self) -> (r: &StringMap<Wallet>)
        ensures
            r@ == self@.wallets,
    {
        &self.wallets
    }

    /// All wallet names, by account address, as the name index stores them.
    pub fn names(&self) -> (r: &StringMap<String>)
        ensures
            r@ == self@.names,
    {
        &self.names
    }

    /// Replaces the name index by the one read from disk.
    pub fn set_names(&mut self, names: StringMap<String>)
        ensures
            final(self)@.names == names@,
            final(self)@.wallets == old(self)@.wallets,
    {
        self.names = names;
    }

    /// Records a newly created (or found) wallet for `account_address`, given
    /// what decoding the address gave, adds the address to the name index
    /// (with an empty name, unless it is named already), and returns the
    /// address.
    pub fn create_wallet(&mut self, account_address: &str, parsed: Result<Vec<u8>, String>) -> (r: Result<
        String,
        WalletManagerError,
    >)
        ensures
            match parsed {
                Ok(bytes) => {
                    &&& r matches Ok(a) && a@ == account_address@
                    &&& final(self)@.wallets == old(self)@.wallets.insert(
                        account_address@,
                        new_wallet_view(account_address@, bytes@),
                    )
                    &&& final(self)@.names == indexed(old(self)@.names, account_address@)
                },
                Err(e) => {
                    &&& r == Err::<String, WalletManagerError>(WalletManagerError::AccountError(e))
                    &&& final(self)@ == old(self)@
                },
            },
    {
        let wallet = Wallet::new(account_address, parsed);
        match wallet {
            Ok(w) => {
                self.wallets.insert(account_address.to_string(), w);
                if !self.names.contains_key(account_address) {
                    self.names.insert(account_address.to_string(), String::new());
                }
                Ok(account_address.to_string())
            },
            Err(e) => Err(e),
        }
    }

    /// Removes the name entry of `account_address`.
    pub fn delete_index_entry(&mut self, account_address: &str)
        ensures
            final(self)@.names == old(self)@.names.remove(account_address@),
            final(self)@.wallets == old(self)@.wallets,
    {
        self.names.remove(account_address);
    }

    /// Forgets the wallet of `account_address` and its name.
    pub fn delete_wallet(&mut self, account_address: &str)
        ensures
            final(self)@.names == old(self)@.names.remove(account_address@),
            final(self)@.wallets == old(self)@.wallets.remove(account_address@),
    {
        self.delete_index_entry(account_address);
        self.wallets.remove(account_address);
    }

    /// Names the wallet of `account_address`.
    pub fn rename_wallet(&mut self, account_address: &str, wallet: &str)
        ensures
            final(self)@.names == old(self)@.names.insert(account_address@, wallet@),
            final(self)@.wallets == old(self)@.wallets,
    {
        self.names.insert(account_address.to_string(), wallet.to_string());
    }

    /// Whether unlocking the wallet of `account_address` needs its key: the
    /// wallet must be known, and needs it while it is locked.
    pub fn needs_unlock(&self, account_address: &str) -> (r: Result<bool, WalletManagerError>)
        ensures
            self@.wallets.contains_key(account_address@) ==> r == Ok::<bool, WalletManagerError>(
                self@.wallets[account_address@].locked,
            ),
            !self@.wallets.contains_key(account_address@) ==> r == Err::<bool, WalletManagerError>(
                WalletManagerError::NotFoundError,
            ),
    {
        match self.wallets.get(account_address) {
            Some(w) => Ok(w.locked),
            None => Err(WalletManagerError::NotFoundError),
        }
    }

    /// Unlocks the wallet of `account_address` with what decrypting its key
    /// file gave: the private key, or why decryption failed. A wallet that is
    /// already unlocked stays as it is.
    pub fn unlock_wallet(&mut self, account_address: &str, unlocked: Result<Vec<u8>, String>) -> (r: Result<
        (),
        WalletManagerError,
    >)
        ensures
            final(self)@.names == old(self)@.names,
            !old(self)@.wallets.contains_key(account_address@) ==> {
                &&& r == Err::<(), WalletManagerError>(WalletManagerError::NotFoundError)
                &&& final(self)@.wallets == old(self)@.wallets
            },
            old(self)@.wallets.contains_key(account_address@) && !old(self)@.wallets[account_address@].locked
                ==> {
                &&& r == Ok::<(), WalletManagerError>(())
                &&& final(self)@.wallets == old(self)@.wallets
            },
            old(self)@.wallets.contains_key(account_address@) && old(self)@.wallets[account_address@].locked
                ==> match unlocked {
                Ok(key) => {
                    &&& r == Ok::<(), WalletManagerError>(())
                    &&& final(self)@.wallets == old(self)@.wallets.insert(
                        account_address@,
                        unlocked_view(old(self)@.wallets[account_address@], key@),
                    )
                },
                Err(e) => {
                    &&& r == Err::<(), WalletManagerError>(WalletManagerError::WalletError(e))
                    &&& final(self)@.wallets == old(self)@.wallets
                },
            },
    {
        let needs = self.needs_unlock(account_address);
        match needs {
            Err(e) => Err(e),
            Ok(false) => Ok(()),
            Ok(true) => match unlocked {
                Err(e) => Err(WalletManagerError::WalletError(e)),
                Ok(key) => {
                    let removed = self.wallets.remove(account_address);
                    match removed {
                        Some(mut w) => {
                            w.set_private_key(key);
                            self.wallets.insert(account_address.to_string(), w);
                            proof {
                                assert(self@.wallets =~= old(self)@.wallets.insert(
                                    account_address@,
                                    w@,
                                ));
                            }
                            Ok(())
                        },
                        None => Ok(()),
                    }
                },
            },
        }
    }
}

/// Locking a wallet that was unlocked from the locked state gives back the
/// wallet as it was before: unlocking leaves no trace but the key, and
/// locking removes the key.
pub proof fn law_lock_undoes_unlock(w: WalletView, key: Seq<u8>)
    requires
        w.locked,
        w.private_key is None,
    ensures
        locked_view(unlocked_view(w, key)) == w,
{
}

/// The name index once `address` is in it: an address that has no name yet
/// gets the empty name.
pub open spec fn indexed(names: Map<Seq<char>, Seq<char>>, address: Seq<char>) -> Map<Seq<char>, Seq<char>> {
    if names.contains_key(address) {
        names
    } else {
        names.insert(address, Seq::empty())
    }
}

/// Deleting a wallet that was just created, for an address the manager did
/// not know and had no name for, gives back the manager as it was.
pub proof fn law_delete_undoes_create(before: WalletManagerView, address: Seq<char>, bytes: Seq<u8>)
    requires
        !before.wallets.contains_key(address),
        !before.names.contains_key(address),
    ensures
        before.wallets.insert(address, new_wallet_view(address, bytes)).remove(address) == before.wallets,
        indexed(before.names, address).remove(address) == before.names,
{
    assert(before.wallets.insert(address, new_wallet_view(address, bytes)).remove(address) =~= before.wallets);
    assert(indexed(before.names, address).remove(address) =~= before.names);
}

} // verus!
