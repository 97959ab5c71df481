//! How a client checks the peer of a TLS connection.

use vstd::prelude::*;

verus! {

/// Where the certificate authority comes from that a server is checked
/// against.
#[derive(Debug, PartialEq, Eq)]
pub enum CaCert {
    /// The certificate authorities that the web trusts.
    WebPki,
    /// The certificate authority that the named secret class provides.
    SecretClass(String),
}

/// What of the peer is verified.
#[derive(Debug, PartialEq, Eq)]
pub enum TlsVerification {
    /// TLS is used, and no certificate is checked.
    Unverified,
    /// The certificate of the server is checked.
    Server { ca_cert: CaCert },
}

/// The TLS settings of a connection.
#[derive(Debug, PartialEq, Eq)]
pub struct Tls {
    pub verification: TlsVerification,
}

/// The mathematical value of a [`CaCert`].
pub enum CaCertModel {
    WebPki,
    SecretClass(Seq<char>),
}

/// The mathematical value of a [`TlsVerification`].
pub enum TlsVerificationModel {
    Unverified,
    Server { ca_cert: CaCertModel },
}

/// The mathematical value of a [`Tls`].
pub struct TlsModel {
    pub verification: TlsVerificationModel,
}

impl View for CaCert {
    type V = CaCertModel;

    open spec fn view(&self) -> CaCertModel {
        match self {
            CaCert::WebPki => CaCertModel::WebPki,
            CaCert::SecretClass(class) => CaCertModel::SecretClass(class@),
        }
    }
}

impl View for TlsVerification {
    type V = TlsVerificationModel;

    open spec fn view(&self) -> TlsVerificationModel {
        match self {
            TlsVerification::Unverified => TlsVerificationModel::Unverified,
            TlsVerification::Server { ca_cert } => TlsVerificationModel::Server {
                ca_cert: ca_cert@,
            },
        }
    }
}

impl View for Tls {
    type V = TlsModel;

    open spec fn view(&self) -> TlsModel {
        TlsModel { verification: self.verification@ }
    }
}

impl Clone for CaCert {
    fn clone(&self) -> (copy: CaCert)
        ensures
            copy@ == self@,
    {
        match self {
            CaCert::WebPki => CaCert::WebPki,
            CaCert::SecretClass(class) => CaCert::SecretClass(class.clone()),
        }
    }
}

impl Clone for TlsVerification {
    fn clone(&self) -> (copy: TlsVerification)
        ensures
            copy@ == self@,
    {
        match self {
            TlsVerification::Unverified => TlsVerification::Unverified,
            TlsVerification::Server { ca_cert } => TlsVerification::Server {
                ca_cert: ca_cert.clone(),
            },
        }
    }
}

impl Clone for Tls {
    fn clone(&self) -> (copy: Tls)
        ensures
            copy@ == self@,
    {
        Tls { verification: self.verification.clone() }
    }
}

} // verus!
