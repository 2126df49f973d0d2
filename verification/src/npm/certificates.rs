//! Let's Encrypt certificate orders.
use vstd::prelude::*;
use crate::npm::types::{CertificateMeta, CertificateRequest, texts};

verus! {

/// A DNS-01 certificate order for one domain.
#[derive(Debug, PartialEq, Eq)]
pub struct LetsEncryptRequest {
    pub domain: String,
    pub letsencrypt_email: String,
    /// Full `dns_cloudflare_api_token = ...` INI snippet passed to certbot.
    pub dns_provider_credentials: String,
}

/// A failed certificate order: the transport failed (with its message), or
/// NPM answered with a non-success status.
#[derive(Debug, PartialEq, Eq)]
pub enum CertError {
    Http(String),
    Status(u16),
}

/// How long certbot is told to wait for the DNS challenge record to
/// propagate, in seconds.
pub const DNS_PROPAGATION_SECONDS: u64 = 30;

/// The certificate order NPM is sent for `req`: a Let's Encrypt certificate
/// for the request's one domain, terms agreed, obtained by DNS challenge
/// through Cloudflare with the request's credentials.
pub fn certificate_request(req: &LetsEncryptRequest) -> (r: CertificateRequest)
    ensures
        r.provider@ == "letsencrypt"@,
        texts(r.domain_names@) == seq![req.domain@],
        r.meta.letsencrypt_email@ == req.letsencrypt_email@,
        r.meta.letsencrypt_agree,
        r.meta.dns_challenge,
        r.meta.dns_provider@ == "cloudflare"@,
        r.meta.dns_provider_credentials@ == req.dns_provider_credentials@,
        r.meta.propagation_seconds == DNS_PROPAGATION_SECONDS,
{
    let mut domain_names: Vec<String> = Vec::new();
    domain_names.push(req.domain.clone());
    proof {
        assert(texts(domain_names@) =~= seq![req.domain@]);
    }
    CertificateRequest {
        domain_names,
        meta: CertificateMeta {
            letsencrypt_email: req.letsencrypt_email.clone(),
            letsencrypt_agree: true,
            dns_challenge: true,
            dns_provider: String::from_str("cloudflare"),
            dns_provider_credentials: req.dns_provider_credentials.clone(),
            propagation_seconds: DNS_PROPAGATION_SECONDS,
        },
        provider: String::from_str("letsencrypt"),
    }
}

} // verus!
