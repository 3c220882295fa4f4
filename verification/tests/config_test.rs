use champ_node::config::{
    default_accounts, default_admin, default_consensus, default_database, default_node_name, Admin, Config,
    ConfigError, ConsensusSettings, Mode, UserAccount, config_dir, data_path,
};
use champ_node::storage::database::{DatabaseConfig, Databases};

#[test]
fn defaults_of_a_configuration_file() {
    assert!(default_accounts().is_empty());
    let admin = default_admin();
    assert!(admin.enabled);
    assert!(admin.jwt_private_key.is_none() && admin.jwt_public_key.is_none());
    assert_eq!(admin.node_name, "");
    let db = default_database();
    assert_eq!(db.kind, Databases::Sled);
    assert_eq!(db.temporary, Some(true));
    assert_eq!(default_node_name(), "PogNetwork Node");
    let c = default_consensus();
    assert_eq!(c.chain, "dev");
    assert_eq!(c.mode, Mode::Validating);
    assert!(c.primary_wallet.is_none() && c.initial_peers.is_empty());
}

#[test]
fn default_config_has_admin_disabled() {
    let c = Config::default();
    assert!(!c.admin.enabled);
    assert!(c.node_users.is_empty());
    assert!(c.data_path.is_none() && c.config_path.is_none() && c.config_path_override.is_none());
    assert_eq!(ConsensusSettings::default().chain, "dev");
    assert!(!Admin::default().enabled);
}

fn file_config(path: Option<&str>) -> Config {
    let mut file = Config::default();
    file.admin = default_admin();
    file.node_users.insert(
        "alice".to_string(),
        UserAccount { permissions: vec!["superadmin".to_string()], user_id: "a".to_string(), password_hash: "h".to_string() },
    );
    file.database = DatabaseConfig { kind: Databases::Sled, uri: None, temporary: Some(false), path: path.map(|p| p.to_string()), data_path: None };
    file.consensus.primary_wallet = Some("yy5x".to_string());
    file
}

#[test]
fn file_settings_are_taken_over_with_default_data_path() {
    let mut config = Config::default();
    config.consensus.chain = "kept".to_string();
    let r = config.apply_file(file_config(None), "/etc/champ/champ.toml", Some("/var/lib/champ".to_string()));
    assert_eq!(r, Ok(()));
    assert_eq!(config.config_path.as_deref(), Some("/etc/champ/champ.toml"));
    assert!(config.admin.enabled);
    assert_eq!(config.node_users.len(), 1);
    assert_eq!(config.consensus.primary_wallet.as_deref(), Some("yy5x"));
    assert_eq!(config.consensus.chain, "kept");
    assert_eq!(config.data_path.as_deref(), Some("/var/lib/champ"));
    assert_eq!(config.database.data_path.as_deref(), Some("/var/lib/champ"));
    assert_eq!(config.database.temporary, Some(false));
}

#[test]
fn database_path_is_made_absolute_relative_to_the_file() {
    let mut config = Config::default();
    let r = config.apply_file(file_config(Some("/srv/data")), "/etc/champ/champ.toml", None);
    assert_eq!(r, Ok(()));
    assert_eq!(config.data_path.as_deref(), Some("/srv/data"));
    assert_eq!(config.database.data_path.as_deref(), Some("/srv/data"));

    let mut config = Config::default();
    let r = config.apply_file(file_config(Some("data")), "/etc/champ/champ.toml", None);
    assert_eq!(r, Ok(()));
    // relative paths are taken relative to the directory holding the file
    assert_eq!(config.data_path.as_deref(), Some("/etc/champ/data"));
    let _ = ConfigError::UnknownDatabasePath;
}

#[test]
fn unresolvable_data_path_refuses_the_file_after_taking_settings() {
    let mut config = Config::default();
    let r = config.take_over(file_config(Some("x")), "/etc/champ/champ.toml", None);
    assert_eq!(r, Err(ConfigError::UnknownDatabasePath));
    assert!(config.admin.enabled);
    assert!(config.data_path.is_none());
    let r = config.take_over(file_config(None), "/etc/champ/champ.toml", Some(Some("/d".to_string())));
    assert_eq!(r, Ok(()));
    assert_eq!(config.data_path.as_deref(), Some("/d"));
}

#[test]
fn data_path_of_a_file() {
    assert_eq!(data_path(&None, "/etc/c.toml", Some("/var".to_string())), Some(Some("/var".to_string())));
    assert_eq!(data_path(&None, "/etc/c.toml", None), Some(None));
    assert_eq!(data_path(&Some("../data".to_string()), "/etc/champ/c.toml", None), Some(Some("/etc/data".to_string())));
}

#[test]
fn directory_of_the_configuration_file() {
    assert_eq!(config_dir("/etc/champ/champ.toml"), "/etc/champ");
    assert_eq!(config_dir("/champ.toml"), "/");
    assert_eq!(config_dir("champ.toml"), "");
    assert_eq!(data_path(&Some("..".to_string()), "/champ.toml", None), Some(Some("/".to_string())));
}
