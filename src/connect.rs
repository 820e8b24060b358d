use vstd::prelude::*;

verus! {

/// The raw subject public key of a DER-encoded X.509 certificate, or `None` when the
/// bytes are not such a certificate or the key is not a whole number of bytes.
pub uninterp spec fn certificate_public_key(der: Seq<u8>) -> Option<Seq<u8>>;

/// Relies on `x509_cert::Certificate::from_der` to parse the certificate and on
/// `BitString::as_bytes` of its subject public key, which is `None` when the bit string
/// has unused bits.
#[verifier::external_body]
fn parse_certificate_public_key(der: &[u8]) -> (r: Option<Vec<u8>>)
    ensures
        match r {
            Some(k) => certificate_public_key(der@) == Some(k@),
            None => certificate_public_key(der@) is None,
        },
{
    <x509_cert::Certificate as x509_cert::der::Decode>::from_der(der).ok().and_then(
        |cert| cert.tbs_certificate().subject_public_key_info().subject_public_key.as_bytes().map(|b| b.to_vec()),
    )
}

/// The steps of opening a session, in the order they happen.
#[derive(Debug, Clone, Copy, PartialEq, Eq, Structural)]
pub enum ConnectPhase {
    TcpConnecting,
    PreTlsHandshake,
    TlsUpgrading,
    CertificateKeyExtraction,
    NetworkAuthFinalize,
    Active,
}

/// Why opening a session failed, by the kind of step that failed.
#[derive(Debug, Clone, PartialEq, Eq)]
pub enum ConnectError {
    /// The network could not be reached, or the first exchange failed.
    Transport(String),
    /// The encrypted channel or the server's certificate failed.
    Tls(String),
    /// The server refused the credentials.
    Authentication(String),
}

/// The step after `p`; the last step has none.
pub open spec fn spec_next_phase(p: ConnectPhase) -> Option<ConnectPhase> {
    match p {
        ConnectPhase::TcpConnecting => Some(ConnectPhase::PreTlsHandshake),
        ConnectPhase::PreTlsHandshake => Some(ConnectPhase::TlsUpgrading),
        ConnectPhase::TlsUpgrading => Some(ConnectPhase::CertificateKeyExtraction),
        ConnectPhase::CertificateKeyExtraction => Some(ConnectPhase::NetworkAuthFinalize),
        ConnectPhase::NetworkAuthFinalize => Some(ConnectPhase::Active),
        ConnectPhase::Active => None,
    }
}

/// The error that a failure during `p` is reported as.
pub open spec fn spec_phase_error(p: ConnectPhase, detail: String) -> ConnectError {
    match p {
        ConnectPhase::TcpConnecting | ConnectPhase::PreTlsHandshake | ConnectPhase::Active => ConnectError::Transport(
            detail,
        ),
        ConnectPhase::TlsUpgrading | ConnectPhase::CertificateKeyExtraction => ConnectError::Tls(detail),
        ConnectPhase::NetworkAuthFinalize => ConnectError::Authentication(detail),
    }
}

impl ConnectPhase {
    /// The step that follows this one once it succeeds; `None` once active.
    pub fn next(self) -> (r: Option<ConnectPhase>)
        ensures
            r == spec_next_phase(self),
    {
        match self {
            ConnectPhase::TcpConnecting => Some(ConnectPhase::PreTlsHandshake),
            ConnectPhase::PreTlsHandshake => Some(ConnectPhase::TlsUpgrading),
            ConnectPhase::TlsUpgrading => Some(ConnectPhase::CertificateKeyExtraction),
            ConnectPhase::CertificateKeyExtraction => Some(ConnectPhase::NetworkAuthFinalize),
            ConnectPhase::NetworkAuthFinalize => Some(ConnectPhase::Active),
            ConnectPhase::Active => None,
        }
    }

    /// The error that a failure during this step is reported as, with `detail`.
    pub fn failure(self, detail: String) -> (r: ConnectError)
        ensures
            r == spec_phase_error(self, detail),
    {
        match self {
            ConnectPhase::TcpConnecting | ConnectPhase::PreTlsHandshake | ConnectPhase::Active => ConnectError::Transport(
                detail,
            ),
            ConnectPhase::TlsUpgrading | ConnectPhase::CertificateKeyExtraction => ConnectError::Tls(detail),
            ConnectPhase::NetworkAuthFinalize => ConnectError::Authentication(detail),
        }
    }
}

/// The server's raw public key from its DER-encoded certificate, needed to bind the
/// authentication exchange to the encrypted channel. Failing to get it is a certificate
/// error.
pub fn extract_server_public_key(der: &[u8]) -> (r: Result<Vec<u8>, ConnectError>)
    ensures
        match certificate_public_key(der@) {
            Some(k) => r is Ok && r->Ok_0@ == k,
            None => r is Err && r->Err_0 is Tls,
        },
{
    match parse_certificate_public_key(der) {
        Some(key) => Ok(key),
        None => Err(ConnectError::Tls(String::from_str("failed to extract the certificate's public key"))),
    }
}

} // verus!
