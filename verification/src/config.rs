//! The node's configuration: its settings, their defaults, and how the
//! settings read from the configuration file are taken over.
use crate::storage::database::{DatabaseConfig, Databases};
use path_absolutize::Absolutize;
use std::collections::{BTreeMap, HashSet};
use vstd::prelude::*;

verus! {

broadcast use vstd::string::group_string_axioms;

/// The role a node plays in the network.
#[derive(Debug, Clone, Copy, PartialEq, Eq)]
pub enum Mode {
    Prime,
    Validating,
    Observer,
    Light,
}

/// Settings of the wallet manager (none yet).
#[derive(Debug, Clone)]
pub struct WalletManagerConfig {}

impl Default for WalletManagerConfig {
    fn default() -> (r: Self) {
        WalletManagerConfig {  }
    }
}

/// Settings of consensus.
pub struct ConsensusSettings {
    /// currently only `dev` is supported
    pub chain: String,
    pub initial_peers: HashSet<String>,
    pub primary_wallet: Option<String>,
    pub mode: Mode,
}

impl Default for ConsensusSettings {
    fn default() -> (r: Self)
        ensures
            r.chain@ == "dev"@,
            r.mode == Mode::Validating,
            r.primary_wallet is None,
            r.initial_peers@ == Set::<String>::empty(),
    {
        ConsensusSettings {
            chain: "dev".to_string(),
            mode: Mode::Validating,
            primary_wallet: None,
            initial_peers: HashSet::new(),
        }
    }
}

/// A user of the node's API.
#[derive(Debug, Clone)]
pub struct UserAccount {
    pub permissions: Vec<String>,
    pub user_id: String,
    pub password_hash: String,
}

/// Settings of the node's admin interface.
#[derive(Debug, Clone)]
pub struct Admin {
    pub enabled: bool,
    pub jwt_private_key: Option<String>,
    pub jwt_public_key: Option<String>,
    pub node_name: String,
}

impl Default for Admin {
    fn default() -> (r: Self)
        ensures
            !r.enabled,
            r.jwt_private_key is None,
            r.jwt_public_key is None,
            r.node_name@ == Seq::<char>::empty(),
    {
        Admin { enabled: false, jwt_private_key: None, jwt_public_key: None, node_name: String::new() }
    }
}

/// The node's configuration.
pub struct Config {
    pub admin: Admin,
    pub node_users: BTreeMap<String, UserAccount>,
    pub database: DatabaseConfig,
    pub consensus: ConsensusSettings,
    pub config_path_override: Option<String>,
    pub data_path: Option<String>,
    pub config_path: Option<String>,
}

impl Default for Config {
    fn default() -> (r: Self)
        ensures
            !r.admin.enabled,
            r.admin.jwt_private_key is None,
            r.admin.jwt_public_key is None,
            r.admin.node_name@ == Seq::<char>::empty(),
            r.node_users@ == Map::<String, UserAccount>::empty(),
            r.database.kind == Databases::Sled,
            r.database.path is None,
            r.database.temporary == Some(true),
            r.database.uri is None,
            r.database.data_path is None,
            r.consensus.chain@ == "dev"@,
            r.consensus.mode == Mode::Validating,
            r.consensus.primary_wallet is None,
            r.consensus.initial_peers@ == Set::<String>::empty(),
            r.config_path_override is None,
            r.data_path is None,
            r.config_path is None,
    {
        Config {
            admin: Admin::default(),
            node_users: BTreeMap::new(),
            database: DatabaseConfig::default(),
            consensus: ConsensusSettings::default(),
            config_path_override: None,
            data_path: None,
            config_path: None,
        }
    }
}

/// The users a configuration file lists when it lists none.
pub fn default_accounts() -> (r: BTreeMap<String, UserAccount>)
    ensures
        r@ == Map::<String, UserAccount>::empty(),
{
    BTreeMap::new()
}

/// The admin settings a configuration file has when it has none: the admin
/// interface is enabled, without keys and without a node name.
pub fn default_admin() -> (r: Admin)
    ensures
        r.enabled,
        r.jwt_private_key is None,
        r.jwt_public_key is None,
        r.node_name@ == Seq::<char>::empty(),
{
    let d = Admin::default();
    Admin { enabled: true, ..d }
}

/// The database settings a configuration file has when it has none: a
/// temporary sled store.
pub fn default_database() -> (r: DatabaseConfig)
    ensures
        r.kind == Databases::Sled,
        r.path is None,
        r.temporary == Some(true),
        r.uri is None,
        r.data_path is None,
{
    let d = DatabaseConfig::default();
    DatabaseConfig { kind: Databases::Sled, ..d }
}

/// The consensus settings a configuration file has when it has none.
pub fn default_consensus() -> (r: ConsensusSettings)
    ensures
        r.chain@ == "dev"@,
        r.mode == Mode::Validating,
        r.primary_wallet is None,
        r.initial_peers@ == Set::<String>::empty(),
{
    ConsensusSettings::default()
}

/// The node name a configuration file has when it has none.
pub fn default_node_name() -> (r: String)
    ensures
        r@ == "PogNetwork Node"@,
{
    "PogNetwork Node".to_string()
}

/// What `path` names when it is taken relative to `base`, as
/// `path_absolutize` computes it from the text of both paths by the
/// platform's path rules (it reads nothing from the file system).
pub uninterp spec fn absolutized(path: Seq<char>, base: Seq<char>) -> Option<Seq<char>>;

/// The text of an optional string.
pub open spec fn opt_text(s: Option<String>) -> Option<Seq<char>> {
    match s {
        Some(t) => Some(t@),
        None => None,
    }
}

/// The text names an absolute path: it starts at the root.
pub open spec fn is_absolute_text(s: Seq<char>) -> bool {
    s.len() > 0 && s[0] == '/'
}

/// `path` made absolute relative to `base`, through
/// `path_absolutize::Absolutize::absolutize_from` on the two as paths, and
/// the result as text. `None` where the call fails or the result is not
/// valid text; what it gives otherwise is a function of the two texts.
/// One of the two must be absolute: from two relative paths that climb
/// above their start the call builds no component and panics.
#[verifier::external_body]
fn absolutize_from(path: &str, base: &str) -> (r: Option<String>)
    requires
        is_absolute_text(path@) || is_absolute_text(base@),
    ensures
        opt_text(r) == absolutized(path@, base@),
{
    let p = std::path::Path::new(path);
    match p.absolutize_from(base) {
        Ok(abs) => abs.to_str().map(|s| s.to_string()),
        Err(_) => None,
    }
}

/// Why the settings of a configuration file could not be taken over.
#[derive(Debug, Clone, Copy, PartialEq, Eq)]
pub enum ConfigError {
    /// the database path could not be made absolute
    UnknownDatabasePath,
}

/// Where the last `/` of `s` stands; -1 when there is none.
pub open spec fn last_slash_index(s: Seq<char>) -> int
    decreases s.len(),
{
    if s.len() == 0 {
        -1
    } else if s.last() == '/' {
        s.len() - 1
    } else {
        last_slash_index(s.drop_last())
    }
}

/// The directory holding the file at `s`: the text before its last `/`
/// (the root when that `/` is the first character), or the empty text for
/// a bare file name.
pub open spec fn dir_of(s: Seq<char>) -> Seq<char> {
    let i = last_slash_index(s);
    if i < 0 {
        Seq::empty()
    } else if i == 0 {
        seq!['/']
    } else {
        s.take(i)
    }
}

/// The last `/` of a text lies in it and is a `/`, and no `/` comes after.
proof fn lemma_last_slash_index(s: Seq<char>)
    ensures
        -1 <= last_slash_index(s) < s.len(),
        last_slash_index(s) >= 0 ==> s[last_slash_index(s)] == '/',
        forall|j: int| last_slash_index(s) < j < s.len() ==> s[j] != '/',
        s.len() > 0 && s[0] == '/' ==> last_slash_index(s) >= 0,
    decreases s.len(),
{
    if s.len() > 0 && s.last() != '/' {
        let t = s.drop_last();
        lemma_last_slash_index(t);
        assert forall|j: int| last_slash_index(s) < j < s.len() implies s[j] != '/' by {
            if j < s.len() - 1 {
                assert(t[j] == s[j]);
            }
        }
        if s.len() > 1 && s[0] == '/' {
            assert(t[0] == '/');
        }
        if last_slash_index(s) >= 0 {
            assert(t[last_slash_index(s)] == s[last_slash_index(s)]);
        }
    }
}

/// The directory of an absolute path is absolute.
pub proof fn lemma_dir_of_absolute(s: Seq<char>)
    requires
        is_absolute_text(s),
    ensures
        is_absolute_text(dir_of(s)),
{
    lemma_last_slash_index(s);
}

/// The directory holding the file at `path`.
pub fn config_dir(path: &str) -> (r: String)
    ensures
        r@ == dir_of(path@),
{
    proof {
        lemma_last_slash_index(path@);
    }
    let n = path.unicode_len();
    let mut i: usize = n;
    while i > 0
        invariant
            i <= n,
            n == path@.len(),
            forall|j: int| i <= j < n ==> path@[j] != '/',
            last_slash_index(path@) < i,
        decreases i,
    {
        proof {
            lemma_last_slash_index(path@);
        }
        if path.get_char(i - 1) == '/' {
            let k = i - 1;
            proof {
                lemma_last_slash_index(path@);
                reveal_strlit("/");
            }
            assert(last_slash_index(path@) == k as int);
            if k == 0 {
                assert("/"@ =~= seq!['/']);
                return "/".to_string();
            }
            return path.substring_char(0, k).to_string();
        }
        i = i - 1;
    }
    String::new()
}

/// Where the node keeps its data, given the database path of the
/// configuration file, the file's path, and the default data directory:
/// a relative database path is taken relative to the directory holding the
/// configuration file.
pub open spec fn data_path_for(
    database_path: Option<Seq<char>>,
    config_path: Seq<char>,
    default_data_path: Option<Seq<char>>,
) -> Option<Option<Seq<char>>> {
    match database_path {
        Some(p) => match absolutized(p, dir_of(config_path)) {
            Some(a) => Some(Some(a)),
            None => None,
        },
        None => Some(default_data_path),
    }
}

/// The texts of an optional optional string.
pub open spec fn opt_opt_text(s: Option<Option<String>>) -> Option<Option<Seq<char>>> {
    match s {
        Some(d) => Some(opt_text(d)),
        None => None,
    }
}

/// Where the node keeps its data: the configuration file's database path
/// made absolute relative to the directory holding the file at
/// `config_path`, or `default_data_path` where the file names none. `None`
/// when the database path cannot be made absolute. The configuration file's
/// path is absolute (it is always made so before the file is read).
pub fn data_path(database_path: &Option<String>, config_path: &str, default_data_path: Option<String>) -> (r: Option<
    Option<String>,
>)
    requires
        is_absolute_text(config_path@),
    ensures
        opt_opt_text(r) == data_path_for(opt_text(*database_path), config_path@, opt_text(default_data_path)),
{
    match database_path {
        Some(p) => {
            let dir = config_dir(config_path);
            proof {
                lemma_dir_of_absolute(config_path@);
            }
            match absolutize_from(p.as_str(), dir.as_str()) {
                Some(a) => Some(Some(a)),
                None => None,
            }
        },
        None => Some(default_data_path),
    }
}

/// The settings of `file` (read from `config_path`) are taken over into
/// `after`, which was `before`: the file's path, database, admin settings,
/// users and primary wallet; the rest stays.
pub open spec fn settings_taken_over(before: Config, after: Config, file: Config, config_path: Seq<char>) -> bool {
    &&& opt_text(after.config_path) == Some(config_path)
    &&& after.admin == file.admin
    &&& after.node_users == file.node_users
    &&& after.consensus.primary_wallet == file.consensus.primary_wallet
    &&& after.consensus.chain == before.consensus.chain
    &&& after.consensus.mode == before.consensus.mode
    &&& after.consensus.initial_peers == before.consensus.initial_peers
    &&& after.config_path_override == before.config_path_override
    &&& after.database.kind == file.database.kind
    &&& after.database.uri == file.database.uri
    &&& after.database.temporary == file.database.temporary
    &&& after.database.path == file.database.path
}

impl Config {
    /// Takes over the settings read from the configuration file at
    /// `config_path`, given where the data is kept (`None` when the
    /// database path could not be made absolute): the data path is set,
    /// and the database keeps it too; without one the other settings are
    /// still taken over and the file is refused.
    pub fn take_over(&mut self, file: Config, config_path: &str, data_path: Option<Option<String>>) -> (r: Result<
        (),
        ConfigError,
    >)
        ensures
            settings_taken_over(*old(self), *final(self), file, config_path@),
            match data_path {
                Some(d) => {
                    &&& r is Ok
                    &&& opt_text(final(self).data_path) == opt_text(d)
                    &&& opt_text(final(self).database.data_path) == opt_text(d)
                },
                None => {
                    &&& r == Err::<(), ConfigError>(ConfigError::UnknownDatabasePath)
                    &&& final(self).data_path == old(self).data_path
                    &&& final(self).database.data_path == file.database.data_path
                },
            },
    {
        self.config_path = Some(config_path.to_string());
        self.database = file.database;
        self.admin = file.admin;
        self.node_users = file.node_users;
        self.consensus.primary_wallet = file.consensus.primary_wallet;
        let data_path = match data_path {
            Some(d) => d,
            None => {
                return Err(ConfigError::UnknownDatabasePath);
            },
        };
        self.database.data_path = match &data_path {
            Some(d) => Some(d.clone()),
            None => None,
        };
        self.data_path = data_path;
        Ok(())
    }

    /// Takes over the settings read from the configuration file at
    /// `config_path`: its path, database, admin settings, users and primary
    /// wallet. The data path is the file's database path made absolute
    /// relative to the directory holding the file, or `default_data_path`
    /// where it has none; the database keeps it too. A database path that
    /// cannot be made absolute is refused after the other settings were
    /// taken over. The file's path is absolute.
    pub fn apply_file(&mut self, file: Config, config_path: &str, default_data_path: Option<String>) -> (r: Result<
        (),
        ConfigError,
    >)
        requires
            is_absolute_text(config_path@),
        ensures
            settings_taken_over(*old(self), *final(self), file, config_path@),
            match data_path_for(opt_text(file.database.path), config_path@, opt_text(default_data_path)) {
                Some(d) => {
                    &&& r is Ok
                    &&& opt_text(final(self).data_path) == d
                    &&& opt_text(final(self).database.data_path) == d
                },
                None => {
                    &&& r == Err::<(), ConfigError>(ConfigError::UnknownDatabasePath)
                    &&& final(self).data_path == old(self).data_path
                    &&& final(self).database.data_path == file.database.data_path
                },
            },
    {
        let d = data_path(&file.database.path, config_path, default_data_path);
        self.take_over(file, config_path, d)
    }
}

} // verus!
