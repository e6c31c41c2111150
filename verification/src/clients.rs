//! How the clients of the storage and token services are set up.
use vstd::prelude::*;
use vstd::string::*;

use crate::config::Config;

verus! {

/// When a client works out or checks the checksums of bodies.
#[derive(Debug, Clone, Copy, PartialEq, Eq)]
pub enum Checksums {
    /// Where the operation cannot do without.
    WhenRequired,
    /// As the client does by itself.
    Default,
}

/// How a client is set up.
#[derive(Debug, PartialEq, Eq)]
pub struct ClientSettings {
    pub endpoint: String,
    pub region: String,
    pub access_key: String,
    pub secret_key: String,
    /// The token that temporary credentials come with.
    pub session_token: Option<String>,
    /// When the credentials expire, in seconds since the Unix epoch.
    pub expires_at: Option<u64>,
    /// What the client calls the source of its credentials.
    pub credentials_source: &'static str,
    /// Buckets are named in the path of an address, not in its host name.
    pub path_style: bool,
    pub checksums: Checksums,
}

/// The settings carry the endpoint, the region and the credentials of the configuration. The
/// credentials are lasting ones: they have no session token and do not expire.
pub open spec fn follows(settings: ClientSettings, config: Config) -> bool {
    &&& settings.endpoint@ == config.endpoint@
    &&& settings.region@ == config.region@
    &&& settings.access_key@ == config.access_key@
    &&& settings.secret_key@ == config.secret_key@
    &&& settings.session_token is None
    &&& settings.expires_at is None
    &&& settings.credentials_source@ == "rustfs-agent-mcp-minter"@
}

fn settings(config: &Config, path_style: bool, checksums: Checksums) -> (settings: ClientSettings)
    ensures
        follows(settings, *config),
        settings.path_style == path_style,
        settings.checksums == checksums,
{
    ClientSettings {
        endpoint: config.endpoint.clone(),
        region: config.region.clone(),
        access_key: config.access_key.clone(),
        secret_key: config.secret_key.clone(),
        session_token: None,
        expires_at: None,
        credentials_source: "rustfs-agent-mcp-minter",
        path_style,
        checksums,
    }
}

/// S3 client wired to the RustFS endpoint. Path-style addressing is mandatory:
/// the public certificate covers only the endpoint hostname, not
/// `<bucket>.<endpoint>` virtual-host names.
pub fn s3_settings(config: &Config) -> (settings: ClientSettings)
    ensures
        follows(settings, *config),
        settings.path_style,
        settings.checksums == Checksums::WhenRequired,
        settings.endpoint@ == config.endpoint@ && settings.region@ == config.region@,
        settings.access_key@ == config.access_key@ && settings.secret_key@ == config.secret_key@,
        settings.session_token is None && settings.expires_at is None,
{
    settings(config, true, Checksums::WhenRequired)
}

/// STS client against the same endpoint; `assume_role` with an inline session
/// policy is how scoped, auto-expiring credentials are minted.
pub fn sts_settings(config: &Config) -> (settings: ClientSettings)
    ensures
        follows(settings, *config),
        !settings.path_style,
        settings.checksums == Checksums::Default,
        settings.endpoint@ == config.endpoint@ && settings.region@ == config.region@,
        settings.access_key@ == config.access_key@ && settings.secret_key@ == config.secret_key@,
        settings.session_token is None && settings.expires_at is None,
{
    settings(config, false, Checksums::Default)
}

} // verus!
