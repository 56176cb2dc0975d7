//! How to reach the server, and what to ask it.

use crate::text::decimal;
use tiberius::{Config, Query};
use vstd::prelude::*;

verus! {

/// How to prove to the server who connects.
#[derive(Clone, Copy, PartialEq, Eq, Structural)]
pub enum AuthMethod {
    /// As the user who is logged in.
    Integrated,
}

/// How to connect to a server.
pub struct ConnectionConfig {
    pub host: String,
    pub port: u16,
    pub database: String,
    pub auth: AuthMethod,
    /// Whether to accept the server's certificate without validating it.
    pub trust_cert: bool,
}

/// A tiberius `Config`: the settings of a connection.
#[verifier::external_type_specification]
#[verifier::external_body]
pub struct ExConfig(tiberius::Config);

/// A tiberius `Query`: a statement and the parameters bound to it.
#[verifier::external_type_specification]
#[verifier::external_body]
pub struct ExQuery<'a>(tiberius::Query<'a>);

/// Which server certificates are accepted.
pub enum Trust {
    /// Those that the system trusts.
    System,
    /// Those that the system or a given authority trusts.
    Authority,
    /// All.
    All,
}

/// How far a connection is encrypted.
pub enum Encryption {
    /// The login alone.
    Off,
    /// Everything, where the server can.
    On,
    /// Nothing.
    NotSupported,
    /// Everything, or there is no connection.
    Required,
}

/// All settings that a `Config` holds; `None` is one that was not made.
pub struct Settings {
    pub host: Option<Seq<char>>,
    pub port: Option<u16>,
    pub database: Option<Seq<char>>,
    pub instance_name: Option<Seq<char>>,
    pub application_name: Option<Seq<char>>,
    pub encryption: Encryption,
    pub trust: Trust,
    /// Whether a way to authenticate is set.
    pub authenticated: bool,
    pub readonly: bool,
}

impl Settings {
    /// The settings of a new `Config`.
    pub open spec fn initial() -> Settings {
        Settings {
            host: None,
            port: None,
            database: None,
            instance_name: None,
            application_name: None,
            encryption: Encryption::Required,
            trust: Trust::System,
            authenticated: false,
            readonly: false,
        }
    }

    /// The address to connect to: host and port with a colon between them. The host is
    /// the local one where none is set or it is a lone dot; a port that is not set is
    /// that of the browser service where an instance is named, else that of the server.
    pub open spec fn address(self) -> Seq<char> {
        let host = match self.host {
            Some(host) if host != "."@ => host,
            _ => "localhost"@,
        };
        let port: u16 = match (self.port, self.instance_name) {
            (Some(port), _) => port,
            (None, Some(_)) => 1434,
            (None, None) => 1433,
        };
        host + seq![':'] + decimal(port as nat)
    }
}

/// The settings in a `Config`.
pub uninterp spec fn config_settings(config: tiberius::Config) -> Settings;

/// The statement of a `Query`.
pub uninterp spec fn query_statement(query: tiberius::Query<'static>) -> Seq<char>;

/// The number of parameters bound to a `Query`.
pub uninterp spec fn query_parameters(query: tiberius::Query<'static>) -> nat;

/// Makes a configuration with `Config::new`.
///
/// What is claimed is that no host, port, database, instance or application name is
/// set and no way to authenticate, that encryption is required, that certificates are
/// validated by what the system trusts, and that the connection is not for reading
/// alone.
#[verifier::external_body]
fn config_new() -> (config: Config)
    ensures
        config_settings(config) == Settings::initial(),
{
    Config::new()
}

/// Sets the host with `Config::host`.
///
/// What is claimed is that the host is then that one and nothing else has changed.
#[verifier::external_body]
fn config_host(config: &mut Config, host: &str)
    ensures
        config_settings(*final(config)) == (Settings {
            host: Some(host@),
            ..config_settings(*old(config))
        }),
{
    config.host(host)
}

/// Sets the port with `Config::port`.
///
/// What is claimed is that the port is then that one and nothing else has changed.
#[verifier::external_body]
fn config_port(config: &mut Config, port: u16)
    ensures
        config_settings(*final(config)) == (Settings {
            port: Some(port),
            ..config_settings(*old(config))
        }),
{
    config.port(port)
}

/// Sets the database with `Config::database`.
///
/// What is claimed is that the database is then that one and nothing else has changed.
#[verifier::external_body]
fn config_database(config: &mut Config, database: &str)
    ensures
        config_settings(*final(config)) == (Settings {
            database: Some(database@),
            ..config_settings(*old(config))
        }),
{
    config.database(database)
}

/// Accepts every certificate, with `Config::trust_cert`.
///
/// What is claimed is that all are then accepted and nothing else has changed. The
/// call panics where an authority was set, which is left out.
#[verifier::external_body]
fn config_trust_cert(config: &mut Config)
    requires
        !(config_settings(*old(config)).trust is Authority),
    ensures
        config_settings(*final(config)) == (Settings {
            trust: Trust::All,
            ..config_settings(*old(config))
        }),
{
    config.trust_cert()
}

/// The address of the server, with `Config::get_addr`.
///
/// What is claimed is that it is the host, a colon and the port, with what tiberius
/// takes for those that are not set.
#[verifier::external_body]
fn config_addr(config: &Config) -> (addr: String)
    ensures
        addr@ == config_settings(*config).address(),
{
    config.get_addr()
}

/// Makes a query with `Query::new`.
///
/// What is claimed is that its statement is the one given and that no parameters are
/// bound.
#[verifier::external_body]
fn query_new(sql: String) -> (query: Query<'static>)
    ensures
        query_statement(query) == sql@,
        query_parameters(query) == 0,
{
    Query::new(sql)
}

/// A configuration that authenticates as the user who is logged in.
pub fn get_config_integrated_auth(host: String, port: u16, database: String, trust: bool) -> (config:
    ConnectionConfig)
    ensures
        config.host == host,
        config.port == port,
        config.database == database,
        config.auth == AuthMethod::Integrated,
        config.trust_cert == trust,
{
    ConnectionConfig { host, port, database, auth: AuthMethod::Integrated, trust_cert: trust }
}

/// A query of a statement, without parameters.
pub fn get_select_query(query: String) -> (result: Query<'static>)
    ensures
        query_statement(result) == query@,
        query_parameters(result) == 0,
{
    query_new(query)
}

impl ConnectionConfig {
    /// The tiberius configuration with these settings, and otherwise that of
    /// `Config::new`. This holds of the authentication too: tiberius has the integrated
    /// one only on some platforms, so it is left to be set where it is there.
    pub fn to_config(&self) -> (config: Config)
        ensures
            config_settings(config) == (Settings {
                host: Some(self.host@),
                port: Some(self.port),
                database: Some(self.database@),
                trust: if self.trust_cert {
                    Trust::All
                } else {
                    Trust::System
                },
                ..Settings::initial()
            }),
    {
        let mut config = config_new();
        config_host(&mut config, self.host.as_str());
        config_port(&mut config, self.port);
        config_database(&mut config, self.database.as_str());
        if self.trust_cert {
            config_trust_cert(&mut config);
        }
        config
    }
}

/// The address of the server to connect to.
pub fn server_address(config: &Config) -> (addr: String)
    ensures
        addr@ == config_settings(*config).address(),
{
    config_addr(config)
}

} // verus!
