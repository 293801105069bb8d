//! The certificate and key of the TLS fallback, from PEM text to a TLS
//! configuration.

use tokio_rustls::rustls;
use vstd::prelude::*;

use crate::error::{io_error_text, ErrorKind, RelayError};

verus! {

/// A TLS configuration of the rustls crate.
#[verifier::external_type_specification]
#[verifier::external_body]
pub struct ExServerConfig(rustls::ServerConfig);

/// An error of the rustls crate.
#[verifier::external_type_specification]
#[verifier::external_body]
pub struct ExRustlsError(rustls::Error);

/// How a private key is encoded.
#[derive(Clone, Copy, Debug, PartialEq, Eq, Structural)]
pub enum KeyKind {
    Pkcs1,
    Sec1,
    Pkcs8,
}

/// A private key in DER.
pub struct PrivateKey {
    pub kind: KeyKind,
    pub der: Vec<u8>,
}

/// Certificates in DER, over views.
pub open spec fn ders(certificates: Seq<Vec<u8>>) -> Seq<Seq<u8>> {
    certificates.map_values(|der: Vec<u8>| der@)
}

/// The certificates in a PEM text, in order, or none if it cannot be read.
pub uninterp spec fn pem_certificates(pem: Seq<u8>) -> Option<Seq<Seq<u8>>>;

/// `rustls_pemfile::certs` reads the certificates of a PEM text. Nothing is
/// claimed of them but that they depend on the text alone.
#[verifier::external_body]
pub(crate) fn read_certificates(pem: &[u8]) -> (certificates: Result<Vec<Vec<u8>>, std::io::Error>)
    ensures
        pem_certificates(pem@) == match certificates {
            Ok(list) => Some(ders(list@)),
            Err(_) => None,
        },
{
    let mut reader: &[u8] = pem;
    rustls_pemfile::certs(&mut reader).map(|der| der.map(|der| der.to_vec())).collect()
}

/// The first private key in a PEM text, if there is one, or nothing if the text
/// cannot be read.
pub uninterp spec fn pem_private_key(pem: Seq<u8>) -> Option<Option<(KeyKind, Seq<u8>)>>;

/// `rustls_pemfile::private_key` reads the first private key of a PEM text.
/// Nothing is claimed of it but that it depends on the text alone.
#[verifier::external_body]
fn read_private_key(pem: &[u8]) -> (key: Result<Option<PrivateKey>, std::io::Error>)
    ensures
        pem_private_key(pem@) == match key {
            Ok(Some(k)) => Some(Some((k.kind, k.der@))),
            Ok(None) => Some(None),
            Err(_) => None,
        },
{
    let mut reader: &[u8] = pem;
    Ok(rustls_pemfile::private_key(&mut reader)?.map(|key| PrivateKey {
        kind: match key {
            rustls::pki_types::PrivateKeyDer::Pkcs1(_) => KeyKind::Pkcs1,
            rustls::pki_types::PrivateKeyDer::Sec1(_) => KeyKind::Sec1,
            _ => KeyKind::Pkcs8,
        },
        der: key.secret_der().to_vec(),
    }))
}

/// The certificates that a TLS configuration was made with.
pub uninterp spec fn config_certificates(config: rustls::ServerConfig) -> Seq<Seq<u8>>;

/// The private key that a TLS configuration was made with.
pub uninterp spec fn config_key(config: rustls::ServerConfig) -> (KeyKind, Seq<u8>);

/// `rustls::ServerConfig::builder` and `with_single_cert` make a TLS
/// configuration that serves one certificate chain with its key and asks
/// clients for none. Whether the key fits the chain is for the crypto provider
/// of the process to say, so success is not stated.
#[verifier::external_body]
fn build_config(certificates: Vec<Vec<u8>>, key: PrivateKey) -> (config: Result<
    rustls::ServerConfig,
    rustls::Error,
>)
    ensures
        config matches Ok(c) ==> config_certificates(c) == ders(certificates@) && config_key(c) == (
            key.kind,
            key.der@,
        ),
{
    let chain = certificates.into_iter().map(rustls::pki_types::CertificateDer::from).collect();
    let key = match key.kind {
        KeyKind::Pkcs1 => rustls::pki_types::PrivatePkcs1KeyDer::from(key.der).into(),
        KeyKind::Sec1 => rustls::pki_types::PrivateSec1KeyDer::from(key.der).into(),
        KeyKind::Pkcs8 => rustls::pki_types::PrivatePkcs8KeyDer::from(key.der).into(),
    };
    rustls::ServerConfig::builder().with_no_client_auth().with_single_cert(chain, key)
}

/// The `Display` formatting of `rustls::Error`, through `format!`. The text is
/// not stated: such an error can hold any other, which has a text of its own.
#[verifier::external_body]
fn tls_error_text(error: &rustls::Error) -> (text: String) {
    format!("{error}")
}

/// What reading certificates came to: at least one, or a refusal.
pub fn check_certificates(parsed: Result<Vec<Vec<u8>>, std::io::Error>) -> (certificates: Result<
    Vec<Vec<u8>>,
    RelayError,
>)
    ensures
        match parsed {
            Ok(list) => if list@.len() == 0 {
                certificates matches Err(error) && error.is(
                    ErrorKind::InvalidData,
                    "certificate file contains no certificates"@,
                )
            } else {
                certificates == Ok::<Vec<Vec<u8>>, RelayError>(list)
            },
            Err(_) => certificates matches Err(error) && error.kind == ErrorKind::InvalidData,
        },
{
    match parsed {
        Ok(list) => {
            if list.len() == 0 {
                Err(
                    RelayError::new(
                        ErrorKind::InvalidData,
                        "certificate file contains no certificates",
                    ),
                )
            } else {
                Ok(list)
            }
        },
        Err(error) => Err(
            RelayError { kind: ErrorKind::InvalidData, message: io_error_text(&error) },
        ),
    }
}

/// What reading a private key came to: a key, or a refusal.
pub fn check_private_key(parsed: Result<Option<PrivateKey>, std::io::Error>) -> (key: Result<
    PrivateKey,
    RelayError,
>)
    ensures
        match parsed {
            Ok(Some(k)) => key == Ok::<PrivateKey, RelayError>(k),
            Ok(None) => key matches Err(error) && error.is(
                ErrorKind::InvalidData,
                "key file contains no key"@,
            ),
            Err(_) => key matches Err(error) && error.kind == ErrorKind::InvalidData,
        },
{
    match parsed {
        Ok(Some(key)) => Ok(key),
        Ok(None) => Err(RelayError::new(ErrorKind::InvalidData, "key file contains no key")),
        Err(error) => Err(
            RelayError { kind: ErrorKind::InvalidData, message: io_error_text(&error) },
        ),
    }
}

/// The certificates in a PEM text, at least one.
pub fn parse_certificates(pem: &[u8]) -> (certificates: Result<Vec<Vec<u8>>, RelayError>)
    ensures
        match certificates {
            Ok(list) => list@.len() > 0 && pem_certificates(pem@) == Some(ders(list@)),
            Err(error) => {
                &&& error.kind == ErrorKind::InvalidData
                &&& pem_certificates(pem@) matches Some(list) ==> list.len() == 0
                    && error.message@ == "certificate file contains no certificates"@
            },
        },
{
    check_certificates(read_certificates(pem))
}

/// The first private key in a PEM text.
pub fn parse_private_key(pem: &[u8]) -> (key: Result<PrivateKey, RelayError>)
    ensures
        match key {
            Ok(k) => pem_private_key(pem@) == Some(Some((k.kind, k.der@))),
            Err(error) => {
                &&& error.kind == ErrorKind::InvalidData
                &&& pem_private_key(pem@) matches Some(found) ==> found is None && error.message@
                    == "key file contains no key"@
            },
        },
{
    check_private_key(read_private_key(pem))
}

/// What making a TLS configuration came to: a configuration, or a refusal in the
/// words of its error.
pub fn check_config(built: Result<rustls::ServerConfig, rustls::Error>) -> (config: Result<
    rustls::ServerConfig,
    RelayError,
>)
    ensures
        match built {
            Ok(c) => config == Ok::<rustls::ServerConfig, RelayError>(c),
            Err(_) => config matches Err(error) && error.kind == ErrorKind::InvalidData,
        },
{
    match built {
        Ok(config) => Ok(config),
        Err(error) => Err(
            RelayError { kind: ErrorKind::InvalidData, message: tls_error_text(&error) },
        ),
    }
}

/// A TLS configuration that serves a certificate chain with its key.
pub fn server_config(certificates: Vec<Vec<u8>>, key: PrivateKey) -> (config: Result<
    rustls::ServerConfig,
    RelayError,
>)
    ensures
        match config {
            Ok(c) => config_certificates(c) == ders(certificates@) && config_key(c) == (
                key.kind,
                key.der@,
            ),
            Err(error) => error.kind == ErrorKind::InvalidData,
        },
{
    check_config(build_config(certificates, key))
}

/// Certificates are kept in their order, each byte for byte.
pub proof fn law_chains_are_kept(certificates: Seq<Vec<u8>>, i: int)
    ensures
        ders(certificates).len() == certificates.len(),
        0 <= i < certificates.len() ==> ders(certificates)[i] == certificates[i]@,
{
}

} // verus!
