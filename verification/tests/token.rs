use base64::Engine;
use kops::state::AwsSession;
use kops::token::{
    cluster_connection_info, create_cluster_token, render_token, sts_url, CertificateAuthority,
    ClusterDescription,
};

fn session(region: Option<&str>) -> AwsSession {
    AwsSession {
        account_id: "123456789012".to_string(),
        role_name: "Admin".to_string(),
        region: region.map(|r| r.to_string()),
        access_key_id: "AKIDEXAMPLE".to_string(),
        secret_access_key: "SECRET-REDACTED".to_string(),
        session_token: "the-session-token".to_string(),
        expires_at_epoch_ms: 1_700_000_000_000,
    }
}

#[test]
fn sts_url_names_the_region() {
    assert_eq!(
        sts_url("eu-west-1"),
        "https://sts.eu-west-1.amazonaws.com/?Action=GetCallerIdentity&Version=2011-06-15"
    );
}

#[test]
fn render_token_prefixes_unpadded_urlsafe_base64() {
    // "x" is 0x78: its unpadded URL-safe base64 is "eA"
    assert_eq!(render_token("x"), "k8s-aws-v1.eA");
    // empty input encodes to the bare prefix
    assert_eq!(render_token(""), "k8s-aws-v1.");
}

#[test]
fn cluster_token_carries_the_signed_sts_url() {
    let token = create_cluster_token(&session(Some("us-west-2")), "my-cluster", 1_700_000_000_000)
        .expect("signing must succeed");
    assert!(token.starts_with("k8s-aws-v1."));
    let encoded = &token["k8s-aws-v1.".len()..];
    let url_bytes = base64::engine::general_purpose::URL_SAFE_NO_PAD
        .decode(encoded)
        .expect("token body must be unpadded url-safe base64");
    let url = String::from_utf8(url_bytes).expect("token body must be a UTF-8 URL");
    assert!(url.starts_with("https://sts.us-west-2.amazonaws.com/?Action=GetCallerIdentity"));
    assert!(url.contains("X-Amz-Signature="));
    assert!(url.contains("X-Amz-Credential=AKIDEXAMPLE"));
    assert!(url.contains("X-Amz-Security-Token="));
    assert!(url.contains("X-Amz-SignedHeaders=host%3Bx-k8s-aws-id"));
    assert!(url.contains("X-Amz-Expires=60"));
}

#[test]
fn cluster_token_is_deterministic_in_its_inputs() {
    let a = create_cluster_token(&session(Some("us-east-1")), "c", 1_700_000_000_000).unwrap();
    let b = create_cluster_token(&session(Some("us-east-1")), "c", 1_700_000_000_000).unwrap();
    let c = create_cluster_token(&session(Some("us-east-1")), "c", 1_700_000_060_000).unwrap();
    assert_eq!(a, b);
    assert_ne!(a, c);
}

#[test]
fn cluster_token_defaults_to_us_east_1() {
    let token = create_cluster_token(&session(None), "c", 1_700_000_000_000).unwrap();
    let encoded = &token["k8s-aws-v1.".len()..];
    let url_bytes =
        base64::engine::general_purpose::URL_SAFE_NO_PAD.decode(encoded).unwrap();
    let url = String::from_utf8(url_bytes).unwrap();
    assert!(url.starts_with("https://sts.us-east-1.amazonaws.com/"));
}

const TINY_DER: &[u8] = &[0x30, 0x03, 0x02, 0x01, 0x07];

fn pem_text() -> String {
    let body = base64::engine::general_purpose::STANDARD.encode(TINY_DER);
    format!("-----BEGIN CERTIFICATE-----\n{body}\n-----END CERTIFICATE-----\n")
}

fn full_description() -> ClusterDescription {
    let b64_pem = base64::engine::general_purpose::STANDARD.encode(pem_text());
    ClusterDescription {
        endpoint: Some("https://ABCDEF.gr7.us-east-1.eks.amazonaws.com".to_string()),
        certificate_authority: Some(CertificateAuthority { data: Some(b64_pem) }),
    }
}

#[test]
fn connection_info_decodes_endpoint_and_certificate() {
    let info = cluster_connection_info(Some(full_description())).unwrap();
    assert_eq!(info.endpoint, "https://ABCDEF.gr7.us-east-1.eks.amazonaws.com");
    assert_eq!(info.ca_certificate, TINY_DER);
}

#[test]
fn connection_info_names_each_missing_field() {
    assert_eq!(
        cluster_connection_info(None),
        Err("Unable to find cluster".to_string())
    );
    let mut d = full_description();
    d.certificate_authority = None;
    assert_eq!(
        cluster_connection_info(Some(d)),
        Err("Unable to find certificate authority".to_string())
    );
    let mut d = full_description();
    d.certificate_authority = Some(CertificateAuthority { data: None });
    assert_eq!(
        cluster_connection_info(Some(d)),
        Err("Unable to find certificate data".to_string())
    );
    let mut d = full_description();
    d.endpoint = None;
    assert_eq!(
        cluster_connection_info(Some(d)),
        Err("Unable to find endpoint".to_string())
    );
}

#[test]
fn connection_info_rejects_malformed_certificates() {
    let mut d = full_description();
    d.certificate_authority =
        Some(CertificateAuthority { data: Some("!!!not base64!!!".to_string()) });
    assert!(cluster_connection_info(Some(d)).is_err());

    // valid base64 that does not hold a PEM section
    let mut d = full_description();
    let not_pem = base64::engine::general_purpose::STANDARD.encode("no pem here");
    d.certificate_authority = Some(CertificateAuthority { data: Some(not_pem) });
    assert!(cluster_connection_info(Some(d)).is_err());
}
