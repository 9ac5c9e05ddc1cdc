//! Database client configuration, request capability and error taxonomy.
//!
//! The configuration holds plain connection parameters; absent fields fall
//! back to the driver's defaults. Durations are carried as milliseconds.

use vstd::prelude::*;

use crate::pooled::PooledDbClient;
use crate::threaded::ThreadedDbClient;

verus! {

/// TLS mode requested for the database connection.
#[derive(Clone, Copy, PartialEq, Eq, Structural, Debug)]
pub enum SslMode {
    Disable,
    Prefer,
    Require,
}

/// Connection parameters. The single-host (`host`, `port`) and multi-host
/// (`hosts`, `ports`) forms are mutually informative; neither is required.
#[derive(Clone, Debug)]
pub struct DatabaseConfig {
    pub user: Option<String>,
    pub password: Option<String>,
    pub dbname: Option<String>,
    pub options: Option<String>,
    pub application_name: Option<String>,
    pub ssl_mode: Option<SslMode>,
    pub host: Option<String>,
    pub hosts: Option<Vec<String>>,
    pub port: Option<u16>,
    pub ports: Option<Vec<u16>>,
    pub connect_timeout_ms: Option<u64>,
    pub keepalives: Option<bool>,
    pub keepalives_idle_ms: Option<u64>,
}

impl DatabaseConfig {
    pub fn empty() -> (r: DatabaseConfig)
        ensures
            r.user is None,
            r.password is None,
            r.dbname is None,
            r.options is None,
            r.application_name is None,
            r.ssl_mode is None,
            r.host is None,
            r.hosts is None,
            r.port is None,
            r.ports is None,
            r.connect_timeout_ms is None,
            r.keepalives is None,
            r.keepalives_idle_ms is None,
    {
        DatabaseConfig {
            user: None,
            password: None,
            dbname: None,
            options: None,
            application_name: None,
            ssl_mode: None,
            host: None,
            hosts: None,
            port: None,
            ports: None,
            connect_timeout_ms: None,
            keepalives: None,
            keepalives_idle_ms: None,
        }
    }
}

/// One bound statement parameter, as a plain value.
#[derive(Clone, Debug, PartialEq, Eq)]
pub enum ParamValue {
    Null,
    Bool(bool),
    Int(i64),
    Text(String),
}

/// A typed database request: a statement and its ordered parameters. The
/// surrounding service implements this for each of its request types.
pub trait DatabaseRequest {
    fn statement(&self) -> String;

    fn params(&self) -> Vec<ParamValue>;
}

/// The errors an executor call can surface.
#[derive(Clone, Debug, PartialEq, Eq)]
pub enum DbError {
    /// The pool could not hand out a connection.
    Connectivity(String),
    /// Statement preparation exceeded its timeout.
    TimedOutPreparing,
    /// Query execution exceeded its timeout; carries the statement text
    /// and its bound parameters for diagnostics.
    TimedOutExecuting(String, Vec<ParamValue>),
    /// The server rejected the query; carries the server's error text.
    Query(String),
    /// A returned row could not be converted to the expected shape.
    RowDecode(String),
}

/// The unified client: one call surface over the pooled and the threaded
/// executor.
pub enum DbClient {
    Pooled(PooledDbClient),
    Threaded(ThreadedDbClient),
}

impl DbClient {
    pub open spec fn is_pooled(self) -> bool {
        self matches DbClient::Pooled(_)
    }
}

impl From<PooledDbClient> for DbClient {
    fn from(client: PooledDbClient) -> (r: DbClient) {
        DbClient::Pooled(client)
    }
}

impl vstd::std_specs::convert::FromSpecImpl<PooledDbClient> for DbClient {
    open spec fn obeys_from_spec() -> bool {
        true
    }

    open spec fn from_spec(client: PooledDbClient) -> DbClient {
        DbClient::Pooled(client)
    }
}

impl From<ThreadedDbClient> for DbClient {
    fn from(value: ThreadedDbClient) -> (r: DbClient) {
        DbClient::Threaded(value)
    }
}

impl vstd::std_specs::convert::FromSpecImpl<ThreadedDbClient> for DbClient {
    open spec fn obeys_from_spec() -> bool {
        true
    }

    open spec fn from_spec(value: ThreadedDbClient) -> DbClient {
        DbClient::Threaded(value)
    }
}

/// The connection parameters used against a local development database.
pub fn database_test_config() -> (c: DatabaseConfig)
    ensures
        c.user matches Some(u) && u@ == "postgres"@,
        c.password matches Some(p) && p@ == "123456"@,
        c.dbname matches Some(d) && d@ == "red_alert"@,
        c.host matches Some(h) && h@ == "localhost"@,
        c.port is None,
        c.hosts is None,
        c.ports is None,
{
    let mut c = DatabaseConfig::empty();
    c.user = Some("postgres".to_owned());
    c.password = Some("123456".to_owned());
    c.dbname = Some("red_alert".to_owned());
    c.host = Some("localhost".to_owned());
    c
}

} // verus!
