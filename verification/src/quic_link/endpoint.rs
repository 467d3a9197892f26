//! What the two ends of a connection are made from.
use vstd::prelude::*;

use crate::config::SocketAddr;
use crate::net::Ipv4Addr;

verus! {

/// What an end cannot do without.
#[derive(Debug, Clone, Copy, PartialEq, Eq, Structural)]
pub enum EndpointError {
    MissingCert,
    MissingKey,
    MissingCa,
    MissingServerName,
}

impl EndpointError {
    /// The text of the error.
    pub open spec fn text(self) -> Seq<char> {
        match self {
            EndpointError::MissingCert =>
                "server builder requires cert path (call tls_from_files)"@,
            EndpointError::MissingKey => "server builder requires key path (call tls_from_files)"@,
            EndpointError::MissingCa => "client builder requires CA path (call trust_ca)"@,
            EndpointError::MissingServerName =>
                "client builder requires server_name (call server_name)"@,
        }
    }

    /// The error in words.
    pub fn message(&self) -> (r: String)
        ensures
            r@ == self.text(),
    {
        match self {
            EndpointError::MissingCert =>
                "server builder requires cert path (call tls_from_files)".to_string(),
            EndpointError::MissingKey =>
                "server builder requires key path (call tls_from_files)".to_string(),
            EndpointError::MissingCa =>
                "client builder requires CA path (call trust_ca)".to_string(),
            EndpointError::MissingServerName =>
                "client builder requires server_name (call server_name)".to_string(),
        }
    }
}

/// What a server is made from: the paths of its certificate and of its key.
#[derive(Debug)]
pub struct ServerBuilder {
    pub cert: Option<String>,
    pub key: Option<String>,
}

impl Default for ServerBuilder {
    fn default() -> (b: ServerBuilder)
        ensures
            b.cert is None,
            b.key is None,
    {
        ServerBuilder { cert: None, key: None }
    }
}

impl ServerBuilder {
    /// Takes the certificate and the key from files.
    pub fn tls_from_files(self, cert: String, key: String) -> (b: ServerBuilder)
        ensures
            b == (ServerBuilder { cert: Some(cert), key: Some(key) }),
    {
        ServerBuilder { cert: Some(cert), key: Some(key) }
    }

    /// The paths of the certificate and of the key.
    pub fn files(self) -> (r: Result<(String, String), EndpointError>)
        ensures
            r == match (self.cert, self.key) {
                (None, _) => Err::<(String, String), EndpointError>(EndpointError::MissingCert),
                (Some(_), None) => Err(EndpointError::MissingKey),
                (Some(cert), Some(key)) => Ok((cert, key)),
            },
    {
        let cert = match self.cert {
            Some(cert) => cert,
            None => {
                return Err(EndpointError::MissingCert);
            },
        };
        match self.key {
            Some(key) => Ok((cert, key)),
            None => Err(EndpointError::MissingKey),
        }
    }
}

/// What a client is made from: the path of the certificate that it trusts, and the name of the
/// server.
#[derive(Debug)]
pub struct ClientBuilder {
    pub ca: Option<String>,
    pub server_name: Option<String>,
}

/// What a client connects with.
#[derive(Debug)]
pub struct ClientSettings {
    pub ca: String,
    pub server_name: String,
    pub bind: SocketAddr,
}

impl Default for ClientBuilder {
    fn default() -> (b: ClientBuilder)
        ensures
            b.ca is None,
            b.server_name is None,
    {
        ClientBuilder { ca: None, server_name: None }
    }
}

/// Any address and any port of this machine.
pub open spec fn any_v4() -> SocketAddr {
    SocketAddr::V4 { addr: Ipv4Addr { bits: 0 }, port: 0 }
}

impl ClientBuilder {
    /// Trusts the certificate in a file.
    pub fn trust_ca(self, ca: String) -> (b: ClientBuilder)
        ensures
            b == (ClientBuilder { ca: Some(ca), server_name: self.server_name }),
    {
        ClientBuilder { ca: Some(ca), server_name: self.server_name }
    }

    /// Talks to a server of this name.
    pub fn server_name(self, name: String) -> (b: ClientBuilder)
        ensures
            b == (ClientBuilder { ca: self.ca, server_name: Some(name) }),
    {
        ClientBuilder { ca: self.ca, server_name: Some(name) }
    }

    /// What the client connects with, from any address of this machine.
    pub fn settings(self) -> (r: Result<ClientSettings, EndpointError>)
        ensures
            r == match (self.ca, self.server_name) {
                (None, _) => Err::<ClientSettings, EndpointError>(EndpointError::MissingCa),
                (Some(_), None) => Err(EndpointError::MissingServerName),
                (Some(ca), Some(server_name)) => Ok(
                    (ClientSettings { ca, server_name, bind: any_v4() }),
                ),
            },
    {
        let ca = match self.ca {
            Some(ca) => ca,
            None => {
                return Err(EndpointError::MissingCa);
            },
        };
        match self.server_name {
            Some(server_name) => Ok(
                ClientSettings {
                    ca,
                    server_name,
                    bind: SocketAddr::V4 { addr: Ipv4Addr { bits: 0 }, port: 0 },
                },
            ),
            None => Err(EndpointError::MissingServerName),
        }
    }
}

/// A client talks from any address and any port of its machine, and an end that misses something
/// says what.
pub proof fn law_client_is_bound_to_no_address()
    ensures
        any_v4() == (SocketAddr::V4 { addr: Ipv4Addr { bits: 0 }, port: 0 }),
        EndpointError::MissingCert.text()
            == "server builder requires cert path (call tls_from_files)"@,
        EndpointError::MissingKey.text()
            == "server builder requires key path (call tls_from_files)"@,
        EndpointError::MissingCa.text() == "client builder requires CA path (call trust_ca)"@,
        EndpointError::MissingServerName.text()
            == "client builder requires server_name (call server_name)"@,
{
}

} // verus!
