use vpn::config::SocketAddr;
use vpn::net::Ipv4Addr;
use vpn::quic_link::endpoint::{ClientBuilder, EndpointError, ServerBuilder};
use vpn::quic_link::tls::{
    build_quinn_client_config, build_quinn_server_config, client_step_error, server_step_error,
    FileContent, TlsError, TlsStage,
};

const CERT: &str = "-----BEGIN CERTIFICATE-----\nMIIBlTCCATugAwIBAgIUdXT0RfV36/PBYUxuK3+CTjKp6qowCgYIKoZIzj0EAwIw\nFDESMBAGA1UEAwwJbG9jYWxob3N0MCAXDTI2MTExNjE0NTQxNloYDzIxMjYxMDIz\nMTQ1NDE2WjAUMRIwEAYDVQQDDAlsb2NhbGhvc3QwWTATBgcqhkjOPQIBBggqhkjO\nPQMBBwNCAAT+9Ogk+CTMqwMbRxx9vyefIAWfs1aTdxkQNZScXKHM8uH7IYw4F2Ht\nQS1flCegYPSjoCYYyfMKw4IE4u74juZqo2kwZzAdBgNVHQ4EFgQUdnaFH6ebwGRM\nR2iYHrOLuOVp6xwwHwYDVR0jBBgwFoAUdnaFH6ebwGRMR2iYHrOLuOVp6xwwDwYD\nVR0TAQH/BAUwAwEB/zAUBgNVHREEDTALgglsb2NhbGhvc3QwCgYIKoZIzj0EAwID\nSAAwRQIhANcrHEioQd/sEKtCrk1+PbnzCl8I7bRNGygz3hGhXAwXAiBIP3kXjA0+\n6rU079LorUCVQF49o/WU8D8tIClrRnq69A==\n-----END CERTIFICATE-----\n";

const KEY_BODY: &str = "MIGHAgEAMBMGByqGSM49AgEGCCqGSM49AwEHBG0wawIBAQQgtc39NVtuac9LZ285ihsmAn0Ei/D6hrj+87cVP1GktOWhRANCAAT+9Ogk+CTMqwMbRxx9vyefIAWfs1aTdxkQNZScXKHM8uH7IYw4F2HtQS1flCegYPSjoCYYyfMKw4IE4u74juZq";

const OTHER_KEY_BODY: &str = "MIGHAgEAMBMGByqGSM49AgEGCCqGSM49AwEHBG0wawIBAQQg/5KsBUso7sYL0osfAC3dsw0MgFNHQYOyZzmI14fvUxqhRANCAATIgI73/5hpViPn2Fdah/Cctppx6QUOEc4fKF3skcnF2sKkG+n40mKsIpxa6KizFEzr0cU9l0UXvh/ADRjleJAe";

fn key_pem(body: &str) -> FileContent {
    let what = "PRIVATE KEY";
    let pem = format!("-----BEGIN {what}-----\n{body}\n-----END {what}-----\n");
    FileContent::Bytes(pem.into_bytes())
}

fn cert() -> FileContent {
    FileContent::Bytes(CERT.as_bytes().to_vec())
}

fn missing() -> FileContent {
    FileContent::Unopened("I/O error: no such file".to_string())
}

#[test]
fn test_build_quinn_server_config_loads_self_signed_repo_certs() {
    let cfg = build_quinn_server_config("cert.pem", cert(), "key.pem", key_pem(KEY_BODY));
    assert!(cfg.is_ok(), "{:?}", cfg.err());
}

#[test]
fn test_build_quinn_server_config_missing_cert_returns_err() {
    let err = build_quinn_server_config(
        "nonexistent-cert.pem",
        missing(),
        "key.pem",
        key_pem(KEY_BODY),
    )
    .err()
    .unwrap();
    assert_eq!(err.message(), "failed to open cert file nonexistent-cert.pem: I/O error: no such file");
}

#[test]
fn test_build_quinn_server_config_missing_key_returns_err() {
    let err = build_quinn_server_config("cert.pem", cert(), "nonexistent-key.pem", missing())
        .err()
        .unwrap();
    assert!(matches!(err, TlsError::LoadKey { .. }));
    assert_eq!(err.message(), "failed to load key from nonexistent-key.pem");
}

#[test]
fn test_build_quinn_server_config_empty_cert_list_returns_err() {
    let err = build_quinn_server_config("empty.pem", FileContent::Bytes(vec![]), "key.pem", key_pem(KEY_BODY))
        .err()
        .unwrap();
    assert_eq!(err, TlsError::NoCerts("empty.pem".to_string()));
    assert_eq!(err.message(), "no certificates found in empty.pem");
}

#[test]
fn server_config_with_a_key_that_does_not_belong_returns_err() {
    let err =
        build_quinn_server_config("cert.pem", cert(), "key.pem", key_pem(OTHER_KEY_BODY))
            .err()
            .unwrap();
    assert!(matches!(err, TlsError::ServerConfig(_)));
}

#[test]
fn server_config_with_a_file_without_a_key_returns_err() {
    let err = build_quinn_server_config("cert.pem", cert(), "key.pem", cert()).err().unwrap();
    assert_eq!(
        err,
        TlsError::LoadKey { path: "key.pem".to_string(), what: "no items found".to_string() }
    );
}

#[test]
fn certificates_that_cannot_be_read_are_an_error() {
    let cut = FileContent::Bytes(CERT.as_bytes()[..200].to_vec());
    let err = build_quinn_server_config("c", cut.clone(), "k", key_pem(KEY_BODY))
        .err()
        .unwrap();
    assert!(matches!(err, TlsError::ParseCerts(_)));
    let err = build_quinn_client_config("c", cut, "localhost").err().unwrap();
    assert!(matches!(err, TlsError::ParseCaCerts(_)));
}

fn broken_after(read: &[u8]) -> FileContent {
    FileContent::Unread { read: read.to_vec(), what: "I/O error: broken".to_string() }
}

#[test]
fn file_that_breaks_off_is_an_error() {
    for read in [&b""[..], CERT.as_bytes(), &CERT.as_bytes()[..200]] {
        let broken = || broken_after(read);
        let err = build_quinn_server_config("c", broken(), "k", key_pem(KEY_BODY)).err().unwrap();
        assert_eq!(err.message(), "failed to parse certificates: I/O error: broken");
        let err = build_quinn_client_config("c", broken(), "localhost").err().unwrap();
        assert_eq!(err.message(), "failed to parse CA certificates: I/O error: broken");
    }
}

#[test]
fn fault_before_the_file_breaks_off_comes_first() {
    let err = build_quinn_client_config("c", broken_after(b"-----BEGIN X--\n"), "localhost");
    let TlsError::ParseCaCerts(what) = err.err().unwrap() else {
        panic!("a fault in the file was due");
    };
    assert!(what.starts_with("illegal section start: "));
}

#[test]
fn key_is_found_before_its_file_breaks_off() {
    let FileContent::Bytes(pem) = key_pem(KEY_BODY) else {
        panic!("the key is whole");
    };
    let loaded = |read: &[u8]| build_quinn_server_config("c", cert(), "k", broken_after(read));
    assert!(loaded(&pem).is_ok());
    // The line that ends the section has not ended.
    for read in [&pem[..pem.len() - 1], &pem[..50], &b""[..]] {
        let what = "I/O error: broken".to_string();
        let want = TlsError::LoadKey { path: "k".to_string(), what };
        assert_eq!(loaded(read).err(), Some(want));
    }
    let err = loaded(b"-----BEGIN X--\n").err().unwrap();
    assert!(matches!(err, TlsError::LoadKey { what, .. } if what.starts_with("illegal section start: ")));
}

#[test]
fn fault_in_a_line_tells_the_line_and_its_end() {
    let bad = || FileContent::Bytes(b"-----BEGIN X--\nabc\n".to_vec());
    let want = "illegal section start: [45, 45, 45, 45, 45, 66, 69, 71, 73, 78, 32, 88, 45, 45, 10]";
    let err = build_quinn_server_config("c", bad(), "k", key_pem(KEY_BODY)).err();
    assert_eq!(err, Some(TlsError::ParseCerts(want.to_string())));
    let err = build_quinn_server_config("c", cert(), "k", bad()).err();
    let path = "k".to_string();
    assert_eq!(err, Some(TlsError::LoadKey { path, what: want.to_string() }));
}

#[test]
fn test_build_quinn_client_config_ca_exists_returns_ok() {
    let cfg = build_quinn_client_config("cert.pem", cert(), "localhost");
    assert!(cfg.is_ok(), "{:?}", cfg.err());
}

#[test]
fn test_build_quinn_client_config_missing_ca_returns_err() {
    let err = build_quinn_client_config("nonexistent-ca.pem", missing(), "localhost").err().unwrap();
    assert_eq!(err.message(), "failed to open CA file nonexistent-ca.pem: I/O error: no such file");
}

#[test]
fn client_config_without_certificates_returns_err() {
    let err = build_quinn_client_config("ca.pem", FileContent::Bytes(vec![]), "localhost").err().unwrap();
    assert_eq!(err.message(), "no CA certificates found in ca.pem");
}

#[test]
fn test_build_quinn_client_config_invalid_server_name_returns_err() {
    let err = build_quinn_client_config("cert.pem", cert(), "").err().unwrap();
    assert!(matches!(&err, TlsError::ServerName { .. }));
    assert!(err.message().starts_with("invalid server_name \"\": "));
}

#[test]
fn tls_step_errors() {
    let e = server_step_error(TlsStage::Versions, "x".to_string());
    assert_eq!(e.message(), "failed to select TLS protocol versions: x");
    let e = server_step_error(TlsStage::Identity, "x".to_string());
    assert_eq!(e.message(), "failed to build rustls ServerConfig: x");
    let e = server_step_error(TlsStage::Quic, "x".to_string());
    assert_eq!(e.message(), "failed to build QuicServerConfig: x");
    let e = client_step_error(TlsStage::Quic, "x".to_string());
    assert_eq!(e.message(), "failed to build QuicClientConfig: x");
    let e = client_step_error(TlsStage::Versions, "x".to_string());
    assert_eq!(e.message(), "failed to select TLS protocol versions: x");
}

#[test]
fn server_builder_needs_both_files() {
    assert_eq!(ServerBuilder::default().files().err(), Some(EndpointError::MissingCert));
    let b = ServerBuilder { cert: Some("c".to_string()), key: None };
    assert_eq!(b.files().err(), Some(EndpointError::MissingKey));
    let b = ServerBuilder::default().tls_from_files("c".to_string(), "k".to_string());
    assert_eq!(b.files().unwrap(), ("c".to_string(), "k".to_string()));
}

#[test]
fn client_builder_needs_ca_and_name() {
    assert_eq!(ClientBuilder::default().settings().err(), Some(EndpointError::MissingCa));
    let b = ClientBuilder::default().trust_ca("ca".to_string());
    assert_eq!(b.settings().err(), Some(EndpointError::MissingServerName));
    let b = ClientBuilder::default().server_name("n".to_string()).trust_ca("ca".to_string());
    let s = b.settings().unwrap();
    assert_eq!(s.ca, "ca");
    assert_eq!(s.server_name, "n");
    assert_eq!(s.bind, SocketAddr::V4 { addr: Ipv4Addr::new(0, 0, 0, 0), port: 0 });
}

#[test]
fn endpoint_error_messages() {
    assert_eq!(
        EndpointError::MissingCert.message(),
        "server builder requires cert path (call tls_from_files)"
    );
    assert_eq!(
        EndpointError::MissingKey.message(),
        "server builder requires key path (call tls_from_files)"
    );
    assert_eq!(
        EndpointError::MissingCa.message(),
        "client builder requires CA path (call trust_ca)"
    );
    assert_eq!(
        EndpointError::MissingServerName.message(),
        "client builder requires server_name (call server_name)"
    );
}
