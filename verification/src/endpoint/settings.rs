//! The settings of the endpoints.

use vstd::prelude::*;

verus! {

/// The congestion control algorithm of an endpoint.
#[derive(Clone, Copy, Debug, PartialEq, Eq, Structural)]
pub enum Algorithm {
    /// The one that the transport takes by itself.
    Preset,
    /// `SQP`.
    Sqp,
}

/// The files that hold a server's certificate and its private key.
#[derive(Clone, Copy, Debug)]
pub struct Identity {
    pub certificate_file: &'static str,
    pub private_key_file: &'static str,
}

/// The settings of an endpoint.
#[derive(Clone, Copy, Debug)]
pub struct EndpointSettings {
    /// Whether the endpoint is a server.
    pub is_server: bool,
    /// How long a connection may be idle, in milliseconds.
    pub max_idle_timeout: u64,
    /// How many streams the peer may open in each direction, where that is set.
    pub max_streams: Option<u64>,
    /// The application protocol.
    pub application_protocol: &'static str,
    /// Whether a session may be resumed with early data.
    pub enable_early_data: bool,
    /// The congestion control algorithm.
    pub algorithm: Algorithm,
    /// The certificate and its key, of a server.
    pub identity: Option<Identity>,
    /// The name of the server that a client asks for.
    pub server_name: Option<&'static str>,
}

impl EndpointSettings {
    /// The settings of a client.
    pub fn client() -> (settings: Self)
        ensures
            !settings.is_server,
            settings.max_idle_timeout == 60_000,
            settings.max_streams == Some(20_000u64),
            settings.application_protocol@ == "http/0.9"@,
            settings.enable_early_data,
            settings.algorithm == Algorithm::Sqp,
            settings.identity is None,
            settings.server_name matches Some(name) && name@ == "Test"@,
    {
        EndpointSettings {
            is_server: false,
            max_idle_timeout: 60_000,
            max_streams: Some(20_000),
            application_protocol: "http/0.9",
            enable_early_data: true,
            algorithm: Algorithm::Sqp,
            identity: None,
            server_name: Some("Test"),
        }
    }

    /// The settings of a server.
    pub fn server() -> (settings: Self)
        ensures
            settings.is_server,
            settings.max_idle_timeout == 60_000,
            settings.max_streams == Some(20_000u64),
            settings.application_protocol@ == "http/0.9"@,
            settings.enable_early_data,
            settings.algorithm == Algorithm::Preset,
            settings.identity matches Some(identity) && {
                &&& identity.certificate_file@ == "./cert.crt"@
                &&& identity.private_key_file@ == "./cert.key"@
            },
            settings.server_name is None,
    {
        EndpointSettings {
            is_server: true,
            max_idle_timeout: 60_000,
            max_streams: Some(20_000),
            application_protocol: "http/0.9",
            enable_early_data: true,
            algorithm: Algorithm::Preset,
            identity: Some(
                Identity { certificate_file: "./cert.crt", private_key_file: "./cert.key" },
            ),
            server_name: None,
        }
    }

    /// The settings of the client that asks for one resource.
    pub fn resource_client() -> (settings: Self)
        ensures
            !settings.is_server,
            settings.max_idle_timeout == 5_000,
            settings.max_streams is None,
            settings.application_protocol@ == "http/0.9"@,
            settings.enable_early_data,
            settings.algorithm == Algorithm::Preset,
            settings.identity is None,
            settings.server_name is None,
    {
        EndpointSettings {
            is_server: false,
            max_idle_timeout: 5_000,
            max_streams: None,
            application_protocol: "http/0.9",
            enable_early_data: true,
            algorithm: Algorithm::Preset,
            identity: None,
            server_name: None,
        }
    }
}

/// A client and a server are set up to talk to each other: they speak the same protocol, let a
/// connection be idle for a minute, let each other open as many streams, and both take early data.
/// The client that asks for one resource speaks that protocol too, with early data. Only the
/// server is a server, and only it has an identity; only the client names the server, and only it
/// takes `SQP`.
pub proof fn endpoints_fit_together(
    client: EndpointSettings,
    server: EndpointSettings,
    resource_client: EndpointSettings,
)
    requires
        call_ensures(EndpointSettings::client, (), client),
        call_ensures(EndpointSettings::server, (), server),
        call_ensures(EndpointSettings::resource_client, (), resource_client),
    ensures
        client.application_protocol@ == server.application_protocol@,
        resource_client.application_protocol@ == server.application_protocol@,
        server.application_protocol@ == "http/0.9"@,
        client.max_idle_timeout == server.max_idle_timeout == 60_000,
        resource_client.max_idle_timeout == 5_000,
        client.max_streams == server.max_streams,
        server.max_streams == Some(20_000u64),
        resource_client.max_streams is None,
        client.enable_early_data && server.enable_early_data && resource_client.enable_early_data,
        server.is_server && !client.is_server && !resource_client.is_server,
        server.identity is Some && client.identity is None && resource_client.identity is None,
        client.server_name is Some && server.server_name is None && resource_client.server_name
            is None,
        client.algorithm == Algorithm::Sqp,
        server.algorithm == Algorithm::Preset && resource_client.algorithm == Algorithm::Preset,
{
}

} // verus!
