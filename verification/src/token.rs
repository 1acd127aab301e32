//! Bearer-token derivation: from federated cloud credentials and a
//! cluster identity to the self-contained token the cluster API
//! verifies, and the decoding of the cluster's connection data.
//!
//! The request signing, the base64 codings and the PEM parsing are
//! outside calls; each stands behind a trusted wrapper whose contract
//! names its result, and everything around them is verified.

use vstd::prelude::*;
use vstd::utf8::encode_utf8;

use aws_credential_types::Credentials;
use aws_sigv4::http_request::SignatureLocation::QueryParams;
use aws_sigv4::http_request::SigningParams::V4;
use aws_sigv4::http_request::{sign, SignableBody, SignableRequest, SigningSettings};
use aws_sigv4::sign::v4::SigningParams as V4Params;
use aws_smithy_runtime_api::client::identity::Identity;
use base64::Engine;
use http::Request;
use std::time::{Duration, UNIX_EPOCH};

use crate::state::AwsSession;

verus! {

// ---------------------------------------------------------------------
// Trusted wrappers around the outside coders and the request signer.
// ---------------------------------------------------------------------
/// The URL-safe, unpadded base64 text of a byte sequence.
pub uninterp spec fn base64url_nopad_of(bytes: Seq<u8>) -> Seq<char>;

/// Relies on base64's URL-safe engine without padding: the encoding of
/// a byte sequence depends on the bytes alone, and an empty input
/// encodes to an empty string.
#[verifier::external_body]
fn base64url_nopad_encode(bytes: &[u8]) -> (r: String)
    ensures
        r@ == base64url_nopad_of(bytes@),
        bytes@.len() == 0 ==> r@.len() == 0,
{
    base64::engine::general_purpose::URL_SAFE_NO_PAD.encode(bytes)
}

/// The bytes a standard-alphabet base64 text decodes to, when it is
/// well-formed.
pub uninterp spec fn base64_standard_decode_of(text: Seq<char>) -> Option<Seq<u8>>;

/// Relies on base64's standard engine: decoding succeeds exactly on
/// well-formed base64 text, and its result depends on the text alone.
#[verifier::external_body]
fn base64_standard_decode(text: &str) -> (r: Result<Vec<u8>, String>)
    ensures
        match r {
            Ok(v) => base64_standard_decode_of(text@) == Some(v@),
            Err(_) => base64_standard_decode_of(text@) is None,
        },
{
    base64::engine::general_purpose::STANDARD.decode(text).map_err(|e| e.to_string())
}

/// The decoded contents of the first PEM section of a byte sequence,
/// when the bytes hold one.
pub uninterp spec fn pem_contents_of(bytes: Seq<u8>) -> Option<Seq<u8>>;

/// Relies on pem::parse: whether bytes hold a well-formed PEM section,
/// and the decoded contents of that section, depend on the bytes
/// alone.
#[verifier::external_body]
fn pem_parse_contents(bytes: &[u8]) -> (r: Result<Vec<u8>, String>)
    ensures
        match r {
            Ok(v) => pem_contents_of(bytes@) == Some(v@),
            Err(_) => pem_contents_of(bytes@) is None,
        },
{
    pem::parse(bytes).map(|p| p.into_contents()).map_err(|e| e.to_string())
}

/// The outcome of version-4 request signing for a GET of `url` with
/// one signed header, under these credentials, for this service and
/// region, at this signing time, with the signature in query
/// parameters valid for `expires_secs`: the presigned URL, or nothing
/// when the signer refuses these inputs.  Version-4 signing is
/// deterministic, so whether it succeeds, and what it renders, depend
/// on these arguments alone.
pub uninterp spec fn presigned_url_of(
    access_key_id: Seq<char>,
    secret_access_key: Seq<char>,
    session_token: Seq<char>,
    region: Seq<char>,
    service: Seq<char>,
    url: Seq<char>,
    header_name: Seq<char>,
    header_value: Seq<char>,
    expires_secs: u64,
    time_ms: u64,
) -> Option<Seq<char>>;

/// Relies on aws_sigv4's request signing: it builds the signable GET
/// request for `url` with the one header, signs it with the given
/// credentials for `service` in `region` at time `time_ms`, with the
/// signature carried in query parameters valid for `expires_secs`
/// seconds, and renders the signed URL.  It yields nothing exactly
/// when the signer or the URL parser refuses its input, which depends
/// on the arguments alone.
#[verifier::external_body]
fn sigv4_presign_get(
    key: &str,
    secret: &str,
    token: String,
    region: &str,
    service: &str,
    url: &str,
    header: &str,
    value: &str,
    expires_secs: u64,
    time_ms: u64,
) -> (r: Option<String>)
    ensures
        match r {
            Some(u) => presigned_url_of(
                key@,
                secret@,
                token@,
                region@,
                service@,
                url@,
                header@,
                value@,
                expires_secs,
                time_ms,
            ) == Some(u@),
            None => presigned_url_of(
                key@,
                secret@,
                token@,
                region@,
                service@,
                url@,
                header@,
                value@,
                expires_secs,
                time_ms,
            ) is None,
        },
{
    let i = Identity::from(Credentials::new(key, secret, Some(token), None, "s"));
    let mut g = SigningSettings::default();
    g.expires_in = Some(Duration::from_secs(expires_secs));
    g.signature_location = QueryParams;
    let p = V4Params::builder().identity(&i).region(region).name(service).time(UNIX_EPOCH + Duration::from_millis(time_ms)).settings(g).build().ok()?;
    let mut r = Request::get(url).body(()).ok()?;
    sign(SignableRequest::new("GET", url, [(header, value)].into_iter(), SignableBody::empty()).ok()?, &V4(p)).ok()?.into_parts().0.apply_to_request_http1x(&mut r);
    Some(r.uri().to_string())
}

// ---------------------------------------------------------------------
// The verified pipeline around them.
// ---------------------------------------------------------------------
/// The identity-check URL the token presigns, for a region.
pub open spec fn spec_sts_url(region: Seq<char>) -> Seq<char> {
    "https://sts."@ + region + ".amazonaws.com/?Action=GetCallerIdentity&Version=2011-06-15"@
}

/// Builds the identity-check URL for a region.
pub fn sts_url(region: &str) -> (r: String)
    ensures
        r@ == spec_sts_url(region@),
{
    String::from_str("https://sts.").concat(region).concat(
        ".amazonaws.com/?Action=GetCallerIdentity&Version=2011-06-15",
    )
}

/// The region a session signs in: its own, or "us-east-1" when it
/// names none.
pub open spec fn spec_session_region(region: Option<Seq<char>>) -> Seq<char> {
    match region {
        Some(r) => r,
        None => "us-east-1"@,
    }
}

/// The bearer token carrying a presigned URL: a fixed prefix, then the
/// URL-safe unpadded base64 of the URL's UTF-8 bytes.
pub open spec fn spec_token_of(presigned: Seq<char>) -> Seq<char> {
    "k8s-aws-v1."@ + base64url_nopad_of(encode_utf8(presigned))
}

/// Renders a presigned URL as the bearer token the cluster API
/// accepts.
pub fn render_token(presigned: &str) -> (r: String)
    ensures
        r@ == spec_token_of(presigned@),
{
    let encoded = base64url_nopad_encode(presigned.as_bytes());
    String::from_str("k8s-aws-v1.").concat(encoded.as_str())
}

/// The signing outcome for a session, a cluster identity and a
/// signing time: the presigned identity-check URL, or nothing when the
/// signer refuses.
pub open spec fn spec_signing_outcome(
    session: crate::state::AwsSessionV,
    cluster_name: Seq<char>,
    time_ms: u64,
) -> Option<Seq<char>> {
    presigned_url_of(
        session.access_key_id,
        session.secret_access_key,
        session.session_token,
        spec_session_region(session.region),
        "sts"@,
        spec_sts_url(spec_session_region(session.region)),
        "x-k8s-aws-id"@,
        cluster_name,
        60,
        time_ms,
    )
}

/// The token a session derives for a cluster at a signing time, when
/// the signing outcome is a URL.
pub open spec fn spec_cluster_token(
    session: crate::state::AwsSessionV,
    cluster_name: Seq<char>,
    time_ms: u64,
) -> Seq<char> {
    spec_token_of(spec_signing_outcome(session, cluster_name, time_ms)->0)
}

/// Derives the cluster-scoped bearer token from a stored session: a
/// presigned identity-check GET for the session's region, with the
/// cluster identity in the fixed signed header and a sixty-second
/// signature window, rendered as `k8s-aws-v1.` plus the URL in
/// unpadded URL-safe base64.  It succeeds exactly when the signer
/// yields a URL for these inputs, and fails with one fixed message
/// when it does not; nothing is retried.
pub fn create_cluster_token(session: &AwsSession, cluster_name: &str, time_ms: u64) -> (r: Result<
    String,
    String,
>)
    ensures
        match r {
            Ok(t) => {
                &&& spec_signing_outcome(session@, cluster_name@, time_ms) is Some
                &&& t@ == spec_cluster_token(session@, cluster_name@, time_ms)
            },
            Err(m) => {
                &&& spec_signing_outcome(session@, cluster_name@, time_ms) is None
                &&& m@ == "Unable to sign the identity-check request"@
            },
        },
{
    let region: String = match &session.region {
        Some(r) => r.clone(),
        None => String::from_str("us-east-1"),
    };
    let url = sts_url(region.as_str());
    let presigned = match sigv4_presign_get(
        session.access_key_id.as_str(),
        session.secret_access_key.as_str(),
        session.session_token.clone(),
        region.as_str(),
        "sts",
        url.as_str(),
        "x-k8s-aws-id",
        cluster_name,
        60,
        time_ms,
    ) {
        Some(u) => u,
        None => {
            return Err(String::from_str("Unable to sign the identity-check request"));
        },
    };
    Ok(render_token(presigned.as_str()))
}

// ---------------------------------------------------------------------
// The cluster's connection data, decoded from the control plane's
// description.
// ---------------------------------------------------------------------
/// The certificate-authority part of a cluster description.
#[derive(Debug, PartialEq, Eq)]
pub struct CertificateAuthority {
    pub data: Option<String>,
}

/// A cluster description, reduced to the fields the attach pipeline
/// reads.
#[derive(Debug, PartialEq, Eq)]
pub struct ClusterDescription {
    pub endpoint: Option<String>,
    pub certificate_authority: Option<CertificateAuthority>,
}

/// The connection data of one cluster: its API endpoint and its CA
/// certificate, decoded to DER bytes.
#[derive(Debug, PartialEq, Eq)]
pub struct ClusterConnectionInfo {
    pub endpoint: String,
    pub ca_certificate: Vec<u8>,
}

/// Validates a cluster description and decodes its certificate: the
/// base64 of the certificate-authority data must hold one PEM section,
/// whose contents become the certificate.  Each missing field is its
/// own error; a malformed certificate reports the decoder's message.
pub fn cluster_connection_info(description: Option<ClusterDescription>) -> (r: Result<
    ClusterConnectionInfo,
    String,
>)
    ensures
        description is None ==> (r matches Err(m) && m@ == "Unable to find cluster"@),
        description matches Some(d) ==> match d.certificate_authority {
            None => r matches Err(m) && m@ == "Unable to find certificate authority"@,
            Some(ca) => match ca.data {
                None => r matches Err(m) && m@ == "Unable to find certificate data"@,
                Some(b64) => match base64_standard_decode_of(b64@) {
                    None => r is Err,
                    Some(pem_bytes) => match pem_contents_of(pem_bytes) {
                        None => r is Err,
                        Some(cert) => match d.endpoint {
                            None => r matches Err(m) && m@ == "Unable to find endpoint"@,
                            Some(endpoint) => r matches Ok(info) && info.endpoint@ == endpoint@
                                && info.ca_certificate@ == cert,
                        },
                    },
                },
            },
        },
{
    let d = match description {
        Some(d) => d,
        None => {
            return Err(String::from_str("Unable to find cluster"));
        },
    };
    let ca = match &d.certificate_authority {
        Some(ca) => ca,
        None => {
            return Err(String::from_str("Unable to find certificate authority"));
        },
    };
    let b64 = match &ca.data {
        Some(b64) => b64,
        None => {
            return Err(String::from_str("Unable to find certificate data"));
        },
    };
    let pem_bytes = match base64_standard_decode(b64.as_str()) {
        Ok(v) => v,
        Err(e) => {
            return Err(e);
        },
    };
    let cert = match pem_parse_contents(pem_bytes.as_slice()) {
        Ok(v) => v,
        Err(e) => {
            return Err(e);
        },
    };
    let endpoint = match &d.endpoint {
        Some(e) => e.clone(),
        None => {
            return Err(String::from_str("Unable to find endpoint"));
        },
    };
    Ok(ClusterConnectionInfo { endpoint, ca_certificate: cert })
}

} // verus!
