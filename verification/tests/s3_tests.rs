use master::s3::{derive_signing_key, endpoint_host, prepare_put, sign_put, S3Config};

fn hex(b: &[u8]) -> String {
    b.iter().map(|x| format!("{x:02x}")).collect()
}

#[test]
fn endpoint_host_drops_scheme_and_trailing_slashes() {
    assert_eq!(endpoint_host("https://s3.example.com/"), "s3.example.com");
    assert_eq!(endpoint_host("http://minio:9000//"), "minio:9000");
    assert_eq!(endpoint_host("r2.example"), "r2.example");
}

#[test]
fn the_signing_key_chains_date_region_and_service() {
    let key = derive_signing_key("secret", "20240101", "eu-central-1");
    assert_eq!(hex(&key), "95c2b90148f0913be4b28c7608cb6e2c87b54f66b05b26bd30aca13096cd7c8a");
    assert_eq!(key.len(), 32);
    assert_eq!(derive_signing_key("", "", "").len(), 32);
}

fn config() -> S3Config {
    S3Config {
        endpoint: "https://s3.example.com/".into(),
        region: "eu-central-1".into(),
        access_key: "AKID".into(),
        secret_key: "secret".into(),
        public_url: "https://cdn.example.com".into(),
    }
}

#[test]
fn a_put_is_signed_with_signature_v4() {
    let sha1 = "aaf4c61ddcc5e8a2dabede0f3b482cd9aea9434d";
    let r = sign_put(&config(), sha1, b"hello", "20240101", "20240101T120000Z");
    assert_eq!(r.url, format!("https://s3.example.com/{sha1}"));
    assert_eq!(r.host, "s3.example.com");
    assert_eq!(r.content_type, "application/octet-stream");
    assert_eq!(r.content_sha256, "2cf24dba5fb0a30e26e83b2ac5b9e29e1b161e5c1fa7425e73043362938b9824");
    assert_eq!(r.amz_date, "20240101T120000Z");
    assert_eq!(
        r.authorization,
        "AWS4-HMAC-SHA256 Credential=AKID/20240101/eu-central-1/s3/aws4_request,SignedHeaders=content-type;host;x-amz-content-sha256;x-amz-date,Signature=c93a4f7f46af22a85ff9f0f8efd8d6b861b331b843b76a4545c99d9f130c1a09"
    );
    assert_eq!(r.public_url, format!("https://cdn.example.com/{sha1}"));
}

#[test]
fn a_put_prepared_now_carries_todays_stamps() {
    let r = prepare_put(&config(), "abc", b"x");
    assert_eq!(r.amz_date.len(), 16);
    assert_eq!(&r.amz_date[8..9], "T");
    assert!(r.amz_date.ends_with('Z'));
    let date = &r.amz_date[..8];
    assert!(r.authorization.contains(&format!("Credential=AKID/{date}/eu-central-1/s3/aws4_request")));
    assert_eq!(r.url, "https://s3.example.com/abc");
}
