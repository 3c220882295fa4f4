//! A block store on a Scylla cluster. No query of it is supported yet; what
//! is here is how its session is set up: the node it connects to, how long
//! it waits for schema agreement, and the keyspaces it creates.
use crate::storage::database::DatabaseConfig;
use vstd::prelude::*;

verus! {

broadcast use vstd::string::group_string_axioms;

/// A session with a Scylla cluster; the driver itself is not part of this
/// library.
#[derive(Debug)]
pub struct Session {
    pub known_node: String,
}

/// How a session is built.
#[derive(Debug)]
pub struct SessionSettings {
    /// the node to connect to: the configured uri
    pub known_node: String,
    /// seconds between checks for schema agreement
    pub schema_agreement_interval_secs: u64,
}

/// The Scylla block store.
pub struct Scylla {
    session: Option<Session>,
}

/// The statements that create the node's keyspaces.
pub open spec fn schema_statements_spec() -> Seq<Seq<char>> {
    seq![
        "CREATE KEYSPACE IF NOT EXISTS champ_admin WITH REPLICATION = {'class' : 'SimpleStrategy', 'replication_factor' : 1}"@,
        "CREATE KEYSPACE IF NOT EXISTS champ_chain WITH REPLICATION = {'class' : 'SimpleStrategy', 'replication_factor' : 1}"@,
    ]
}

impl Scylla {
    /// A store with no session.
    pub fn new() -> (r: Self)
        ensures
            !r.is_connected(),
    {
        Scylla { session: None }
    }

    /// A session is attached.
    pub closed spec fn is_connected(&self) -> bool {
        self.session is Some
    }

    /// The attached session, if any.
    pub closed spec fn current_session(&self) -> Option<Session> {
        self.session
    }

    /// The session to query with; the store must have been initialized.
    pub fn get_session(&self) -> (r: &Session)
        requires
            self.is_connected(),
        ensures
            self.current_session() == Some(*r),
    {
        self.session.as_ref().unwrap()
    }

    /// How to build the session for `cfg`, which must name the uri of a node.
    pub fn session_settings(cfg: &DatabaseConfig) -> (r: SessionSettings)
        requires
            cfg.uri is Some,
        ensures
            r.known_node@ == cfg.uri->0@,
            r.schema_agreement_interval_secs == 10,
    {
        let uri = match &cfg.uri {
            Some(u) => u.clone(),
            None => {
                assert(false);
                String::new()
            },
        };
        SessionSettings { known_node: uri, schema_agreement_interval_secs: 10 }
    }

    /// Attaches the session that was built.
    pub fn attach(&mut self, session: Session)
        ensures
            final(self).is_connected(),
            final(self).current_session() == Some(session),
    {
        self.session = Some(session);
    }

    /// The statements that set up the schema, in order.
    pub fn schema_statements() -> (r: Vec<String>)
        ensures
            r@.len() == 2,
            r@[0]@ == schema_statements_spec()[0],
            r@[1]@ == schema_statements_spec()[1],
    {
        let mut v: Vec<String> = Vec::new();
        let a = "CREATE KEYSPACE IF NOT EXISTS champ_admin WITH REPLICATION = {'class' : 'SimpleStrategy', 'replication_factor' : 1}";
        let b = "CREATE KEYSPACE IF NOT EXISTS champ_chain WITH REPLICATION = {'class' : 'SimpleStrategy', 'replication_factor' : 1}";
        v.push(a.to_string());
        v.push(b.to_string());
        v
    }
}

impl Default for Scylla {
    fn default() -> (r: Self)
        ensures
            !r.is_connected(),
    {
        Self::new()
    }
}

} // verus!
