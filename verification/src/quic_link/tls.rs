//! The certificates with which the two ends of a connection know each other.
use quinn::ClientConfig as QuinnClientConfig;
use quinn::crypto::rustls::{QuicClientConfig, QuicServerConfig};
use quinn::ServerConfig as QuinnServerConfig;
use rustls::crypto::aws_lc_rs::default_provider;
use rustls_pki_types::pem::{Error as PemError, PemObject};
use rustls_pki_types::{CertificateDer, PrivateKeyDer};
use std::sync::Arc;
use vstd::prelude::*;

use crate::text;

verus! {

/// How a private key is written.
#[derive(Debug, Clone, Copy, PartialEq, Eq, Structural)]
pub enum KeyFormat {
    Pkcs1,
    Sec1,
    Pkcs8,
}

/// At which step a configuration cannot be made.
#[derive(Debug, Clone, Copy, PartialEq, Eq, Structural)]
pub enum TlsStage {
    Versions,
    Identity,
    Quic,
}

/// Why a configuration cannot be made.
#[derive(Debug, Clone, PartialEq, Eq)]
pub enum TlsError {
    OpenCert { path: String, what: String },
    ParseCerts(String),
    NoCerts(String),
    LoadKey { path: String, what: String },
    OpenCa { path: String, what: String },
    ParseCaCerts(String),
    NoCaCerts(String),
    ServerName { name: String, what: String },
    Versions(String),
    ServerConfig(String),
    QuicServer(String),
    QuicClient(String),
}

/// What `format!` makes of a text for one who wants to see what is in it: the text in quotes,
/// with escapes.
pub uninterp spec fn debug_text(s: Seq<char>) -> Seq<char>;

/// `format!` with the placeholder for debugging: a text in quotes. Which characters are escaped
/// is not stated.
#[verifier::external_body]
fn quoted(s: &str) -> (r: String)
    ensures
        r@ == debug_text(s@),
{
    format!("{s:?}")
}

impl TlsError {
    /// The text of the error.
    pub open spec fn text(self) -> Seq<char> {
        match self {
            TlsError::OpenCert { path, what } => "failed to open cert file "@ + path@ + ": "@
                + what@,
            TlsError::ParseCerts(what) => "failed to parse certificates: "@ + what@,
            TlsError::NoCerts(path) => "no certificates found in "@ + path@,
            TlsError::LoadKey { path, .. } => "failed to load key from "@ + path@,
            TlsError::OpenCa { path, what } => "failed to open CA file "@ + path@ + ": "@ + what@,
            TlsError::ParseCaCerts(what) => "failed to parse CA certificates: "@ + what@,
            TlsError::NoCaCerts(path) => "no CA certificates found in "@ + path@,
            TlsError::ServerName { name, what } => "invalid server_name "@ + debug_text(name@)
                + ": "@ + what@,
            TlsError::Versions(what) => "failed to select TLS protocol versions: "@ + what@,
            TlsError::ServerConfig(what) => "failed to build rustls ServerConfig: "@ + what@,
            TlsError::QuicServer(what) => "failed to build QuicServerConfig: "@ + what@,
            TlsError::QuicClient(what) => "failed to build QuicClientConfig: "@ + what@,
        }
    }

    /// The error in words.
    pub fn message(&self) -> (r: String)
        ensures
            r@ == self.text(),
    {
        match self {
            TlsError::OpenCert { path, what } => {
                let r = text::join3("failed to open cert file ", path.as_str(), ": ");
                text::join2(r.as_str(), what.as_str())
            },
            TlsError::ParseCerts(what) => text::join2(
                "failed to parse certificates: ",
                what.as_str(),
            ),
            TlsError::NoCerts(path) => text::join2("no certificates found in ", path.as_str()),
            TlsError::LoadKey { path, .. } => text::join2(
                "failed to load key from ",
                path.as_str(),
            ),
            TlsError::OpenCa { path, what } => {
                let r = text::join3("failed to open CA file ", path.as_str(), ": ");
                text::join2(r.as_str(), what.as_str())
            },
            TlsError::ParseCaCerts(what) => text::join2(
                "failed to parse CA certificates: ",
                what.as_str(),
            ),
            TlsError::NoCaCerts(path) => text::join2("no CA certificates found in ", path.as_str()),
            TlsError::ServerName { name, what } => {
                let name = quoted(name.as_str());
                let r = text::join3("invalid server_name ", name.as_str(), ": ");
                text::join2(r.as_str(), what.as_str())
            },
            TlsError::Versions(what) => text::join2(
                "failed to select TLS protocol versions: ",
                what.as_str(),
            ),
            TlsError::ServerConfig(what) => text::join2(
                "failed to build rustls ServerConfig: ",
                what.as_str(),
            ),
            TlsError::QuicServer(what) => text::join2(
                "failed to build QuicServerConfig: ",
                what.as_str(),
            ),
            TlsError::QuicClient(what) => text::join2(
                "failed to build QuicClientConfig: ",
                what.as_str(),
            ),
        }
    }
}

/// The views of certificates.
pub open spec fn cert_bytes(certs: Seq<Vec<u8>>) -> Seq<Seq<u8>> {
    certs.map_values(|c: Vec<u8>| c@)
}

/// Whether a file has a dash in it: without one it has no sections.
pub open spec fn has_dash(pem: Seq<u8>) -> bool {
    pem.contains(0x2du8)
}

/// What is wrong with a file, in words, and whether it is only that the file ends too early:
/// before anything was found in it, or in the middle of a section.
#[derive(Debug, Clone, PartialEq, Eq)]
pub struct PemFault {
    pub at_end: bool,
    pub what: String,
}

impl PemFault {
    /// What the fault tells.
    pub open spec fn told(self) -> (bool, Seq<char>) {
        (self.at_end, self.what@)
    }
}

/// What `CertificateDer::pem_reader_iter` finds in a file that may have sections: the
/// certificates, or what is wrong, and whether that is only where the file ends.
pub uninterp spec fn pem_certificates(pem: Seq<u8>) -> Result<Seq<Seq<u8>>, (bool, Seq<char>)>;

/// The certificates in a file, or what is wrong.
pub open spec fn certificates(pem: Seq<u8>) -> Result<Seq<Seq<u8>>, (bool, Seq<char>)> {
    if has_dash(pem) {
        pem_certificates(pem)
    } else {
        Ok(Seq::empty())
    }
}

/// `rustls_pki_types::CertificateDer::pem_reader_iter`, all of it collected: the certificates in
/// a file, in order, or the first error: its text, and whether it is one of the two that only
/// the end of the file gives, that nothing was found or that a section has no end. It depends on
/// nothing but the file. A file without dashes has no certificates; what others have is not
/// stated.
#[verifier::external_body]
fn pem_certs(pem: &[u8]) -> (r: Result<Vec<Vec<u8>>, PemFault>)
    ensures
        has_dash(pem@) ==> match r {
            Ok(certs) => pem_certificates(pem@) == Ok::<Seq<Seq<u8>>, (bool, Seq<char>)>(
                cert_bytes(certs@),
            ),
            Err(e) => pem_certificates(pem@) == Err::<Seq<Seq<u8>>, (bool, Seq<char>)>(e.told()),
        },
        !has_dash(pem@) ==> match r {
            Ok(certs) => certs@.len() == 0,
            Err(_) => false,
        },
{
    let found: Result<Vec<CertificateDer<'static>>, _> = CertificateDer::pem_reader_iter(
        pem,
    ).collect();
    match found {
        Ok(certs) => Ok(certs.iter().map(|c| c.to_vec()).collect()),
        Err(e) => {
            let what = format!("{e}");
            match e {
                PemError::NoItemsFound => Err(PemFault { at_end: true, what }),
                PemError::MissingSectionEnd { .. } => Err(PemFault { at_end: true, what }),
                _ => Err(PemFault { at_end: false, what }),
            }
        },
    }
}

/// What `PrivateKeyDer::from_pem_reader` finds in a file that may have sections: a key, or what
/// is wrong, and whether that is only where the file ends.
pub uninterp spec fn pem_private_key(pem: Seq<u8>) -> Result<
    (KeyFormat, Seq<u8>),
    (bool, Seq<char>),
>;

/// The private key in a file, or what is wrong.
pub open spec fn private_key(pem: Seq<u8>) -> Result<(KeyFormat, Seq<u8>), (bool, Seq<char>)> {
    if has_dash(pem) {
        pem_private_key(pem)
    } else {
        Err((true, "no items found"@))
    }
}

/// `rustls_pki_types::PrivateKeyDer::from_pem_reader`: the first private key in a file, or the
/// error: its text, and whether it is one of the two that only the end of the file gives, that
/// nothing was found or that a section has no end. It depends on nothing but the file. A file
/// without dashes has no key; what others have is not stated.
#[verifier::external_body]
fn pem_key(pem: &[u8]) -> (r: Result<(KeyFormat, Vec<u8>), PemFault>)
    ensures
        has_dash(pem@) ==> match r {
            Ok((format, key)) => pem_private_key(pem@) == Ok::<
                (KeyFormat, Seq<u8>),
                (bool, Seq<char>),
            >((format, key@)),
            Err(e) => pem_private_key(pem@) == Err::<(KeyFormat, Seq<u8>), (bool, Seq<char>)>(
                e.told(),
            ),
        },
        !has_dash(pem@) ==> match r {
            Ok(_) => false,
            Err(e) => e.at_end && e.what@ == "no items found"@,
        },
{
    match PrivateKeyDer::from_pem_reader(pem) {
        Ok(PrivateKeyDer::Pkcs1(key)) => Ok((KeyFormat::Pkcs1, key.secret_pkcs1_der().to_vec())),
        Ok(PrivateKeyDer::Sec1(key)) => Ok((KeyFormat::Sec1, key.secret_sec1_der().to_vec())),
        Ok(key) => Ok((KeyFormat::Pkcs8, key.secret_der().to_vec())),
        Err(e) => {
            let what = format!("{e}");
            match e {
                PemError::NoItemsFound => Err(PemFault { at_end: true, what }),
                PemError::MissingSectionEnd { .. } => Err(PemFault { at_end: true, what }),
                _ => Err(PemFault { at_end: false, what }),
            }
        },
    }
}

/// What a server is configured with.
#[verifier::external_type_specification]
#[verifier::external_body]
pub struct ExQuinnServerConfig(QuinnServerConfig);

/// What a client is configured with.
#[verifier::external_type_specification]
#[verifier::external_body]
pub struct ExQuinnClientConfig(QuinnClientConfig);

/// With what a server shows who it is: its certificates, and behind them its key.
pub uninterp spec fn server_identity(cfg: QuinnServerConfig) -> Seq<Seq<u8>>;

/// The certificates that a client was given to trust. It trusts those among them that can be
/// read as certificates; the others are passed over.
pub uninterp spec fn client_roots(cfg: QuinnClientConfig) -> Seq<Seq<u8>>;

/// At which step a server's configuration cannot be made from certificates and a key, and why.
pub uninterp spec fn server_fault(
    certs: Seq<Seq<u8>>,
    format: KeyFormat,
    key: Seq<u8>,
) -> Option<(TlsStage, Seq<char>)>;

/// At which step a client's configuration cannot be made from certificates, and why.
pub uninterp spec fn client_fault(certs: Seq<Seq<u8>>) -> Option<(TlsStage, Seq<char>)>;

/// `rustls::ServerConfig::builder_with_provider` with the provider of `aws_lc_rs`, its default
/// versions, no client certificates and `with_single_cert`; then
/// `quinn::crypto::rustls::QuicServerConfig::try_from` and `quinn::ServerConfig::with_crypto`.
/// Whether it fails, at which step, and with what text depends on nothing but the arguments.
/// When it does is not stated.
#[verifier::external_body]
fn make_server_config(certs: Vec<Vec<u8>>, format: KeyFormat, key: Vec<u8>) -> (r: Result<
    QuinnServerConfig,
    (TlsStage, String),
>)
    ensures
        match r {
            Ok(cfg) => {
                &&& server_fault(cert_bytes(certs@), format, key@) is None
                &&& server_identity(cfg) == cert_bytes(certs@).push(key@)
            },
            Err((stage, what)) => server_fault(cert_bytes(certs@), format, key@) == Some(
                (stage, what@),
            ),
        },
{
    let key = match format {
        KeyFormat::Pkcs1 => PrivateKeyDer::Pkcs1(key.into()),
        KeyFormat::Sec1 => PrivateKeyDer::Sec1(key.into()),
        KeyFormat::Pkcs8 => PrivateKeyDer::Pkcs8(key.into()),
    };
    let certs = certs.into_iter().map(|c| c.into()).collect();
    let tls = rustls::ServerConfig::builder_with_provider(Arc::new(default_provider()))
        .with_safe_default_protocol_versions().map_err(|e| (TlsStage::Versions, format!("{e}")))?
        .with_no_client_auth()
        .with_single_cert(certs, key).map_err(|e| (TlsStage::Identity, format!("{e}")))?;
    let quic = QuicServerConfig::try_from(Arc::new(tls)).map_err(
        |e| (TlsStage::Quic, format!("{e}")),
    )?;
    Ok(QuinnServerConfig::with_crypto(Arc::new(quic)))
}

/// `rustls::RootCertStore::add_parsable_certificates`, which passes over what is no
/// certificate; `rustls::ClientConfig::builder_with_provider` with the provider of `aws_lc_rs`,
/// its default versions, those roots and no client certificate; then
/// `quinn::crypto::rustls::QuicClientConfig::try_from` and `quinn::ClientConfig::new`. Whether
/// it fails, at which step, and with what text depends on nothing but the arguments. When it
/// does is not stated.
#[verifier::external_body]
fn make_client_config(certs: Vec<Vec<u8>>) -> (r: Result<QuinnClientConfig, (TlsStage, String)>)
    ensures
        match r {
            Ok(cfg) => {
                &&& client_fault(cert_bytes(certs@)) is None
                &&& client_roots(cfg) == cert_bytes(certs@)
            },
            Err((stage, what)) => client_fault(cert_bytes(certs@)) == Some((stage, what@)),
        },
{
    let mut roots = rustls::RootCertStore::empty();
    roots.add_parsable_certificates(certs.into_iter().map(|c| c.into()));
    let tls = rustls::ClientConfig::builder_with_provider(Arc::new(default_provider()))
        .with_safe_default_protocol_versions().map_err(|e| (TlsStage::Versions, format!("{e}")))?
        .with_root_certificates(roots)
        .with_no_client_auth();
    let quic = QuicClientConfig::try_from(Arc::new(tls)).map_err(
        |e| (TlsStage::Quic, format!("{e}")),
    )?;
    Ok(QuinnClientConfig::new(Arc::new(quic)))
}

/// Whether `ServerName::try_from` takes a text that is not empty for the name of a server.
pub uninterp spec fn names_server(name: Seq<char>) -> bool;

/// Whether a text can be the name of a server.
pub open spec fn is_server_name(name: Seq<char>) -> bool {
    name.len() > 0 && names_server(name)
}

/// `rustls_pki_types::ServerName::try_from`: whether a text is the name of a server or an
/// address, which depends on nothing but the text. The result is the text of its error, which is
/// always the same. An empty name is refused; which others are is not stated.
#[verifier::external_body]
fn server_name_error(name: &str) -> (r: Option<String>)
    ensures
        match r {
            Some(what) => what@ == "invalid dns name"@,
            None => true,
        },
        name@.len() == 0 ==> r is Some,
        name@.len() > 0 ==> (r is None <==> names_server(name@)),
{
    match rustls_pki_types::ServerName::try_from(name) {
        Ok(_) => None,
        Err(e) => Some(format!("{e}")),
    }
}

/// A file, as far as it could be read.
#[derive(Debug, Clone, PartialEq, Eq)]
pub enum FileContent {
    /// It could not be opened.
    Unopened(String),
    /// It was opened and read up to some point, where reading failed.
    Unread { read: Vec<u8>, what: String },
    /// What is in it.
    Bytes(Vec<u8>),
}

/// Whether a byte ends a line.
pub open spec fn ends_line(b: u8) -> bool {
    b == 0x0a || b == 0x0d
}

/// The whole lines of what was read of a file: everything up to the last end of a line.
pub open spec fn whole_lines(bytes: Seq<u8>) -> Seq<u8>
    decreases bytes.len(),
{
    if bytes.len() == 0 || ends_line(bytes.last()) {
        bytes
    } else {
        whole_lines(bytes.drop_last())
    }
}

/// The whole lines of what was read of a file.
fn cut_to_lines(bytes: Vec<u8>) -> (r: Vec<u8>)
    ensures
        r@ == whole_lines(bytes@),
{
    let mut r = bytes;
    while r.len() > 0 && !(r[r.len() - 1] == 0x0a || r[r.len() - 1] == 0x0d)
        invariant
            whole_lines(r@) == whole_lines(bytes@),
        ensures
            r@ == whole_lines(bytes@),
        decreases r@.len(),
    {
        let _ = r.pop();
    }
    r
}

/// What there is to read in a file that was opened: its whole lines where reading it failed, and
/// otherwise all of it.
pub open spec fn readable(file: FileContent) -> Seq<u8> {
    match file {
        FileContent::Unopened(_) => Seq::empty(),
        FileContent::Unread { read, .. } => whole_lines(read@),
        FileContent::Bytes(pem) => pem@,
    }
}

/// What is said of a fault in a file: one that is only there because the file ends is, where
/// reading it failed, that failure.
pub open spec fn fault_text(file: FileContent, fault: (bool, Seq<char>)) -> Seq<char> {
    match file {
        FileContent::Unread { what, .. } => if fault.0 {
            what@
        } else {
            fault.1
        },
        _ => fault.1,
    }
}

/// The certificates in a file that was opened, or what went wrong. All of the file has to be
/// read for them.
pub open spec fn certs_read(file: FileContent) -> Result<Seq<Seq<u8>>, Seq<char>> {
    match certificates(readable(file)) {
        Ok(certs) => match file {
            FileContent::Unread { what, .. } => Err(what@),
            _ => Ok(certs),
        },
        Err(fault) => Err(fault_text(file, fault)),
    }
}

/// The certificates in a file that holds at least one.
pub open spec fn certs_in(file: FileContent) -> Option<Seq<Seq<u8>>> {
    match (file, certs_read(file)) {
        (FileContent::Unopened(_), _) => None,
        (_, Ok(certs)) => if certs.len() > 0 {
            Some(certs)
        } else {
            None
        },
        (_, Err(_)) => None,
    }
}

/// What went wrong where a file of certificates was opened, but could not be read to its end.
pub open spec fn reading_fault(file: FileContent) -> Option<Seq<char>> {
    match (file, certs_read(file)) {
        (FileContent::Unopened(_), _) => None,
        (_, Ok(_)) => None,
        (_, Err(what)) => Some(what),
    }
}

/// The key in a file, or what went wrong. No more of the file has to be read than up to the
/// end of the key.
pub open spec fn key_in(file: FileContent) -> Result<(KeyFormat, Seq<u8>), Seq<char>> {
    match file {
        FileContent::Unopened(what) => Err(what@),
        _ => match private_key(readable(file)) {
            Ok(found) => Ok(found),
            Err(fault) => Err(fault_text(file, fault)),
        },
    }
}

/// Whether an error says what is wrong with a file of certificates: that it cannot be opened,
/// that it cannot be read, or that there is none in it.
pub open spec fn tells_of_certs(e: TlsError, path: Seq<char>, file: FileContent, ca: bool) -> bool {
    match e {
        TlsError::OpenCert { path: p, what } => {
            &&& !ca
            &&& p@ == path
            &&& file matches FileContent::Unopened(w)
            &&& what@ == w@
        },
        TlsError::OpenCa { path: p, what } => {
            &&& ca
            &&& p@ == path
            &&& file matches FileContent::Unopened(w)
            &&& what@ == w@
        },
        TlsError::ParseCerts(what) => {
            &&& !ca
            &&& reading_fault(file) == Some(what@)
        },
        TlsError::ParseCaCerts(what) => {
            &&& ca
            &&& reading_fault(file) == Some(what@)
        },
        TlsError::NoCerts(p) => {
            &&& !ca
            &&& p@ == path
            &&& !(file is Unopened)
            &&& certs_read(file) == Ok::<Seq<Seq<u8>>, Seq<char>>(Seq::empty())
        },
        TlsError::NoCaCerts(p) => {
            &&& ca
            &&& p@ == path
            &&& !(file is Unopened)
            &&& certs_read(file) == Ok::<Seq<Seq<u8>>, Seq<char>>(Seq::empty())
        },
        _ => false,
    }
}

/// The certificates in a file that was opened, or what went wrong.
fn read_certs(file: FileContent) -> (r: Result<Vec<Vec<u8>>, String>)
    requires
        !(file is Unopened),
    ensures
        match r {
            Ok(certs) => certs_read(file) == Ok::<Seq<Seq<u8>>, Seq<char>>(cert_bytes(certs@)),
            Err(what) => certs_read(file) == Err::<Seq<Seq<u8>>, Seq<char>>(what@),
        },
{
    match file {
        FileContent::Unread { read, what } => {
            let lines = cut_to_lines(read);
            match pem_certs(lines.as_slice()) {
                Err(fault) => Err(
                    if fault.at_end {
                        what
                    } else {
                        fault.what
                    },
                ),
                Ok(_) => Err(what),
            }
        },
        FileContent::Bytes(pem) => match pem_certs(pem.as_slice()) {
            Ok(certs) => {
                if certs.len() == 0 {
                    assert(cert_bytes(certs@) =~= Seq::<Seq<u8>>::empty());
                }
                Ok(certs)
            },
            Err(fault) => Err(fault.what),
        },
        FileContent::Unopened(what) => Err(what),
    }
}

/// The key in a file, or what went wrong.
fn read_key(file: FileContent) -> (r: Result<(KeyFormat, Vec<u8>), String>)
    ensures
        match r {
            Ok((format, key)) => key_in(file) == Ok::<(KeyFormat, Seq<u8>), Seq<char>>(
                (format, key@),
            ),
            Err(what) => key_in(file) == Err::<(KeyFormat, Seq<u8>), Seq<char>>(what@),
        },
{
    match file {
        FileContent::Unopened(what) => Err(what),
        FileContent::Unread { read, what } => {
            let lines = cut_to_lines(read);
            match pem_key(lines.as_slice()) {
                Ok(found) => Ok(found),
                Err(fault) => Err(
                    if fault.at_end {
                        what
                    } else {
                        fault.what
                    },
                ),
            }
        },
        FileContent::Bytes(pem) => match pem_key(pem.as_slice()) {
            Ok(found) => Ok(found),
            Err(fault) => Err(fault.what),
        },
    }
}

/// The certificates in a file, of which there must be at least one.
fn load_certs(path: &str, file: FileContent, ca: bool) -> (r: Result<Vec<Vec<u8>>, TlsError>)
    ensures
        match r {
            Ok(certs) => certs_in(file) == Some(cert_bytes(certs@)),
            Err(e) => certs_in(file) is None && tells_of_certs(e, path@, file, ca),
        },
{
    if let FileContent::Unopened(what) = file {
        let path = path.to_string();
        return Err(
            if ca {
                TlsError::OpenCa { path, what }
            } else {
                TlsError::OpenCert { path, what }
            },
        );
    }
    let found = read_certs(file);
    let certs = match found {
        Ok(certs) => certs,
        Err(what) => {
            return Err(
                if ca {
                    TlsError::ParseCaCerts(what)
                } else {
                    TlsError::ParseCerts(what)
                },
            );
        },
    };
    if certs.len() == 0 {
        assert(cert_bytes(certs@) =~= Seq::<Seq<u8>>::empty());
        let path = path.to_string();
        return Err(
            if ca {
                TlsError::NoCaCerts(path)
            } else {
                TlsError::NoCerts(path)
            },
        );
    }
    Ok(certs)
}

/// Whether an error says at which step a server's configuration cannot be made, and why.
pub open spec fn tells_of_server_step(e: TlsError, fault: Option<(TlsStage, Seq<char>)>) -> bool {
    match e {
        TlsError::Versions(what) => fault == Some((TlsStage::Versions, what@)),
        TlsError::ServerConfig(what) => fault == Some((TlsStage::Identity, what@)),
        TlsError::QuicServer(what) => fault == Some((TlsStage::Quic, what@)),
        _ => false,
    }
}

/// Whether an error says at which step a client's configuration cannot be made, and why.
pub open spec fn tells_of_client_step(e: TlsError, fault: Option<(TlsStage, Seq<char>)>) -> bool {
    match e {
        TlsError::Versions(what) => fault == Some((TlsStage::Versions, what@)),
        TlsError::QuicClient(what) => match fault {
            Some((TlsStage::Versions, _)) => false,
            Some((_, w)) => what@ == w,
            None => false,
        },
        _ => false,
    }
}

/// The error of a step at which a server's configuration cannot be made.
pub fn server_step_error(stage: TlsStage, what: String) -> (e: TlsError)
    ensures
        tells_of_server_step(e, Some((stage, what@))),
{
    match stage {
        TlsStage::Versions => TlsError::Versions(what),
        TlsStage::Identity => TlsError::ServerConfig(what),
        TlsStage::Quic => TlsError::QuicServer(what),
    }
}

/// The error of a step at which a client's configuration cannot be made.
pub fn client_step_error(stage: TlsStage, what: String) -> (e: TlsError)
    ensures
        tells_of_client_step(e, Some((stage, what@))),
{
    match stage {
        TlsStage::Versions => TlsError::Versions(what),
        TlsStage::Identity => TlsError::QuicClient(what),
        TlsStage::Quic => TlsError::QuicClient(what),
    }
}

/// A server's configuration, from the files with its certificates and its key: first the
/// certificates are looked at, then the key, then whether they go together.
pub fn build_quinn_server_config(
    cert_path: &str,
    cert_file: FileContent,
    key_path: &str,
    key_file: FileContent,
) -> (r: Result<QuinnServerConfig, TlsError>)
    ensures
        match (certs_in(cert_file), key_in(key_file)) {
            (None, _) => r matches Err(e) && tells_of_certs(e, cert_path@, cert_file, false),
            (Some(_), Err(w)) => r matches Err(TlsError::LoadKey { path, what }) && path@
                == key_path@ && what@ == w,
            (Some(certs), Ok((format, key))) => match r {
                Ok(cfg) => {
                    &&& server_fault(certs, format, key) is None
                    &&& server_identity(cfg) == certs.push(key)
                },
                Err(e) => tells_of_server_step(e, server_fault(certs, format, key)),
            },
        },
{
    let certs = match load_certs(cert_path, cert_file, false) {
        Ok(certs) => certs,
        Err(e) => {
            return Err(e);
        },
    };
    let (format, key) = match read_key(key_file) {
        Ok(found) => found,
        Err(what) => {
            return Err(TlsError::LoadKey { path: key_path.to_string(), what });
        },
    };
    match make_server_config(certs, format, key) {
        Ok(cfg) => Ok(cfg),
        Err((stage, what)) => Err(server_step_error(stage, what)),
    }
}

/// A client's configuration, from the file with the certificates that it trusts and the name of
/// the server: first the certificates are looked at, then the name.
pub fn build_quinn_client_config(ca_path: &str, ca_file: FileContent, server_name: &str) -> (r:
    Result<QuinnClientConfig, TlsError>)
    ensures
        match (certs_in(ca_file), is_server_name(server_name@)) {
            (None, _) => r matches Err(e) && tells_of_certs(e, ca_path@, ca_file, true),
            (Some(_), false) => r matches Err(TlsError::ServerName { name, what }) && name@
                == server_name@ && what@ == "invalid dns name"@,
            (Some(certs), true) => match r {
                Ok(cfg) => client_fault(certs) is None && client_roots(cfg) == certs,
                Err(e) => tells_of_client_step(e, client_fault(certs)),
            },
        },
{
    let certs = match load_certs(ca_path, ca_file, true) {
        Ok(certs) => certs,
        Err(e) => {
            return Err(e);
        },
    };
    if let Some(what) = server_name_error(server_name) {
        return Err(TlsError::ServerName { name: server_name.to_string(), what });
    }
    match make_client_config(certs) {
        Ok(cfg) => Ok(cfg),
        Err((stage, what)) => Err(client_step_error(stage, what)),
    }
}

/// Of what was read of a file everything up to the last end of a line counts, and nothing behind
/// it.
pub proof fn law_last_line_must_end(a: Seq<u8>, end: u8, rest: Seq<u8>)
    requires
        end == 0x0a || end == 0x0d,
        forall|i: int| 0 <= i < rest.len() ==> (#[trigger] rest[i]) != 0x0a && rest[i] != 0x0d,
    ensures
        whole_lines(a.push(end) + rest) == a.push(end),
        whole_lines(rest) == Seq::<u8>::empty(),
    decreases rest.len(),
{
    let s = a.push(end) + rest;
    if rest.len() == 0 {
        assert(s =~= a.push(end));
        assert(rest =~= Seq::<u8>::empty());
    } else {
        let less = rest.drop_last();
        assert forall|i: int| 0 <= i < less.len() implies (#[trigger] less[i]) != 0x0a && less[i]
            != 0x0d by {
            assert(less[i] == rest[i]);
        }
        law_last_line_must_end(a, end, less);
        assert(s.drop_last() =~= a.push(end) + less);
        assert(s.last() == rest[rest.len() - 1]);
    }
}

/// Of a file that was read all of it is looked at; of one that could not be read to its end, the
/// whole lines; of one that could not be opened, nothing.
pub proof fn law_all_that_was_read_is_looked_at(bytes: Vec<u8>, what: String)
    ensures
        readable(FileContent::Bytes(bytes)) == bytes@,
        readable(FileContent::Unread { read: bytes, what }) == whole_lines(bytes@),
        readable(FileContent::Unopened(what)) == Seq::<u8>::empty(),
{
}

/// What is in a file is what the reader of certificates and keys finds in it. A file without a
/// single dash is not handed to it: there is nothing in such a file.
pub proof fn law_sections_begin_with_dashes(pem: Seq<u8>)
    ensures
        pem.contains(0x2du8) ==> certificates(pem) == pem_certificates(pem) && private_key(pem)
            == pem_private_key(pem),
        !pem.contains(0x2du8) ==> certificates(pem) == Ok::<Seq<Seq<u8>>, (bool, Seq<char>)>(
            Seq::empty(),
        ) && private_key(pem) == Err::<(KeyFormat, Seq<u8>), (bool, Seq<char>)>(
            (true, "no items found"@),
        ),
{
}

/// The certificates of a file are all that are in it, or the fault that was found. Where reading
/// failed there are none: a fault in what was read is told, unless it is only that it ends too
/// early, and otherwise the failure is.
pub proof fn law_certificates_need_the_whole_file(bytes: Vec<u8>, what: String)
    ensures
        match certificates(bytes@) {
            Ok(certs) => certs_read(FileContent::Bytes(bytes)) == Ok::<Seq<Seq<u8>>, Seq<char>>(
                certs,
            ),
            Err((_, fault)) => certs_read(FileContent::Bytes(bytes)) == Err::<
                Seq<Seq<u8>>,
                Seq<char>,
            >(fault),
        },
        certs_read(FileContent::Unread { read: bytes, what }) == Err::<Seq<Seq<u8>>, Seq<char>>(
            match certificates(whole_lines(bytes@)) {
                Err((false, fault)) => fault,
                _ => what@,
            },
        ),
{
}

/// The key of a file is the one in it, or the fault that was found. Where reading failed a key in
/// what was read is one all the same; without one, a fault is told, unless it is only that what
/// was read ends too early, and otherwise the failure is.
pub proof fn law_key_needs_no_more_than_itself(bytes: Vec<u8>, what: String)
    ensures
        match private_key(bytes@) {
            Ok(key) => key_in(FileContent::Bytes(bytes)) == Ok::<
                (KeyFormat, Seq<u8>),
                Seq<char>,
            >(key),
            Err((_, fault)) => key_in(FileContent::Bytes(bytes)) == Err::<
                (KeyFormat, Seq<u8>),
                Seq<char>,
            >(fault),
        },
        match private_key(whole_lines(bytes@)) {
            Ok(key) => key_in(FileContent::Unread { read: bytes, what }) == Ok::<
                (KeyFormat, Seq<u8>),
                Seq<char>,
            >(key),
            Err((at_end, fault)) => key_in(FileContent::Unread { read: bytes, what }) == Err::<
                (KeyFormat, Seq<u8>),
                Seq<char>,
            >(
                if at_end {
                    what@
                } else {
                    fault
                },
            ),
        },
        key_in(FileContent::Unopened(what)) == Err::<(KeyFormat, Seq<u8>), Seq<char>>(what@),
{
}

/// A file gives certificates if and only if it was opened, could be read, and has at least one;
/// and then it gives all of them.
pub proof fn law_one_certificate_is_enough(file: FileContent, certs: Seq<Seq<u8>>)
    ensures
        certs_in(file) == Some(certs) <==> !(file is Unopened) && certs.len() > 0 && certs_read(
            file,
        ) == Ok::<Seq<Seq<u8>>, Seq<char>>(certs),
        certs_in(file) is None <==> file is Unopened || certs_read(file) is Err || certs_read(
            file,
        )->Ok_0.len() == 0,
        reading_fault(file) is Some <==> !(file is Unopened) && certs_read(file) is Err,
        reading_fault(file) matches Some(fault) ==> certs_read(file) == Err::<
            Seq<Seq<u8>>,
            Seq<char>,
        >(fault),
{
}

/// The error of a file without certificates tells what kept it from having any: that it could not
/// be opened, with its path and why; what went wrong as it was read; or that there are none in
/// it, with its path. It says whether they were to be trusted or to be shown.
pub proof fn law_missing_certificates_are_explained(
    e: TlsError,
    path: Seq<char>,
    file: FileContent,
    ca: bool,
)
    requires
        tells_of_certs(e, path, file, ca),
    ensures
        match file {
            FileContent::Unopened(why) => match e {
                TlsError::OpenCa { path: p, what } => ca && p@ == path && what@ == why@,
                TlsError::OpenCert { path: p, what } => !ca && p@ == path && what@ == why@,
                _ => false,
            },
            _ => match certs_read(file) {
                Err(fault) => match e {
                    TlsError::ParseCaCerts(what) => ca && what@ == fault,
                    TlsError::ParseCerts(what) => !ca && what@ == fault,
                    _ => false,
                },
                Ok(certs) => match e {
                    TlsError::NoCaCerts(p) => ca && p@ == path && certs.len() == 0,
                    TlsError::NoCerts(p) => !ca && p@ == path && certs.len() == 0,
                    _ => false,
                },
            },
        },
{
}

/// The error of a step at which a configuration cannot be made names the step, and carries what
/// went wrong.
pub proof fn law_each_step_has_its_error(e: TlsError, stage: TlsStage, why: Seq<char>)
    ensures
        tells_of_server_step(e, Some((stage, why))) <==> match (stage, e) {
            (TlsStage::Versions, TlsError::Versions(what)) => what@ == why,
            (TlsStage::Identity, TlsError::ServerConfig(what)) => what@ == why,
            (TlsStage::Quic, TlsError::QuicServer(what)) => what@ == why,
            _ => false,
        },
        tells_of_client_step(e, Some((stage, why))) <==> match (stage, e) {
            (TlsStage::Versions, TlsError::Versions(what)) => what@ == why,
            (TlsStage::Identity, TlsError::QuicClient(what)) => what@ == why,
            (TlsStage::Quic, TlsError::QuicClient(what)) => what@ == why,
            _ => false,
        },
        !tells_of_server_step(e, None),
        !tells_of_client_step(e, None),
{
}

/// The name of a server is one that is not empty and that is taken for one.
pub proof fn law_server_must_have_a_name(name: Seq<char>)
    ensures
        name.len() == 0 ==> !is_server_name(name),
        name.len() > 0 ==> is_server_name(name) == names_server(name),
{
}

/// What the errors of a configuration say.
pub proof fn law_tls_errors_have_their_words(path: String, what: String)
    ensures
        (TlsError::OpenCert { path, what }).text() == "failed to open cert file "@ + path@ + ": "@
            + what@,
        TlsError::ParseCerts(what).text() == "failed to parse certificates: "@ + what@,
        TlsError::NoCerts(path).text() == "no certificates found in "@ + path@,
        (TlsError::LoadKey { path, what }).text() == "failed to load key from "@ + path@,
        (TlsError::OpenCa { path, what }).text() == "failed to open CA file "@ + path@ + ": "@
            + what@,
        TlsError::ParseCaCerts(what).text() == "failed to parse CA certificates: "@ + what@,
        TlsError::NoCaCerts(path).text() == "no CA certificates found in "@ + path@,
        (TlsError::ServerName { name: path, what }).text() == "invalid server_name "@ + debug_text(
            path@,
        ) + ": "@ + what@,
        TlsError::Versions(what).text() == "failed to select TLS protocol versions: "@ + what@,
        TlsError::ServerConfig(what).text() == "failed to build rustls ServerConfig: "@ + what@,
        TlsError::QuicServer(what).text() == "failed to build QuicServerConfig: "@ + what@,
        TlsError::QuicClient(what).text() == "failed to build QuicClientConfig: "@ + what@,
{
}

/// The views of certificates are as many as the certificates, and each is that of its
/// certificate; a fault tells what it says.
pub proof fn law_certificates_are_seen_one_by_one(certs: Seq<Vec<u8>>, i: int, fault: PemFault)
    requires
        0 <= i < certs.len(),
    ensures
        cert_bytes(certs).len() == certs.len(),
        cert_bytes(certs)[i] == certs[i]@,
        fault.told() == (fault.at_end, fault.what@),
{
}

} // verus!
