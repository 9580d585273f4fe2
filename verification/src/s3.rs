//! Uploads to S3-compatible storage (AWS S3, Cloudflare R2, MinIO): the
//! AWS Signature Version 4 of a `PUT`, computed here; the request itself is
//! sent by the caller.

use crate::digest::{hex_chars, hex_spec, hmac_sha256_spec, sha256_digest, sha256_of};
use crate::text::{
    chars_of, push_chars, push_str, strip_leading, strip_leading_exec, strip_trailing,
    strip_trailing_exec, string_from_chars,
};
use crate::accounts::{decimal_spec, digit_char};
use crate::time::{civil_from_days, utc_now, UtcTime};
use hmac::Mac;
use vstd::prelude::*;
use vstd::utf8::encode_utf8;

verus! {

/// Where uploads go and with which credentials.
#[derive(Clone, Debug)]
pub struct S3Config {
    pub endpoint: String,
    pub region: String,
    pub access_key: String,
    pub secret_key: String,
    pub public_url: String,
}

/// The host part of an endpoint URL: the scheme prefixes and trailing
/// slashes taken off.
pub open spec fn endpoint_host_spec(e: Seq<char>) -> Seq<char> {
    strip_trailing(strip_leading(strip_leading(e, "https://"@), "http://"@), '/')
}

/// The host of an endpoint URL.
pub fn endpoint_host(endpoint: &str) -> (r: String)
    ensures
        r@ == endpoint_host_spec(endpoint@),
{
    let e = chars_of(endpoint);
    let https = chars_of("https://");
    let http = chars_of("http://");
    let a = strip_leading_exec(e, https.as_slice());
    let b = strip_leading_exec(a, http.as_slice());
    let c = strip_trailing_exec(b.as_slice(), '/');
    string_from_chars(c.as_slice())
}

/// `Hmac::<Sha256>::new_from_slice(key)`, fed `data`, finalised: claims the
/// result is the RFC 2104 construction over the `sha2` SHA-256. HMAC takes
/// keys of any length, so the constructor does not fail; the tag is as long
/// as a SHA-256 output, 32 bytes.
#[verifier::external_body]
pub(crate) fn hmac_sha256(key: &[u8], data: &[u8]) -> (r: Vec<u8>)
    ensures
        r@ == hmac_sha256_spec(key@, data@),
        r@.len() == 32,
{
    let mut mac = hmac::Hmac::<sha2::Sha256>::new_from_slice(key).unwrap();
    mac.update(data);
    mac.finalize().into_bytes().to_vec()
}

/// The signing key of a day and region:
/// `HMAC(HMAC(HMAC(HMAC("AWS4" + secret, date), region), "s3"), "aws4_request")`.
pub open spec fn signing_key_spec(secret: Seq<char>, date: Seq<char>, region: Seq<char>) -> Seq<u8> {
    let k_date = hmac_sha256_spec(encode_utf8("AWS4"@ + secret), encode_utf8(date));
    let k_region = hmac_sha256_spec(k_date, encode_utf8(region));
    let k_service = hmac_sha256_spec(k_region, encode_utf8("s3"@));
    hmac_sha256_spec(k_service, encode_utf8("aws4_request"@))
}

/// Derives the signing key of a day and region.
pub fn derive_signing_key(secret: &str, date: &str, region: &str) -> (r: Vec<u8>)
    ensures
        r@ == signing_key_spec(secret@, date@, region@),
        r@.len() == 32,
{
    let mut key: Vec<char> = Vec::new();
    push_str(&mut key, "AWS4");
    push_str(&mut key, secret);
    let key_s = string_from_chars(key.as_slice());
    let k_date = hmac_sha256(key_s.as_str().as_bytes(), date.as_bytes());
    let k_region = hmac_sha256(k_date.as_slice(), region.as_bytes());
    let k_service = hmac_sha256(k_region.as_slice(), "s3".as_bytes());
    hmac_sha256(k_service.as_slice(), "aws4_request".as_bytes())
}

/// The headers of a signed `PUT`, in their canonical form and order.
pub open spec fn canonical_headers_spec(
    content_type: Seq<char>,
    host: Seq<char>,
    content_sha256: Seq<char>,
    datetime: Seq<char>,
) -> Seq<char> {
    "content-type:"@ + content_type + "\nhost:"@ + host + "\nx-amz-content-sha256:"@
        + content_sha256 + "\nx-amz-date:"@ + datetime + "\n"@
}

/// The names of the signed headers.
pub open spec fn signed_headers_spec() -> Seq<char> {
    "content-type;host;x-amz-content-sha256;x-amz-date"@
}

/// The canonical request of a `PUT` of object `key`.
pub open spec fn canonical_request_spec(key: Seq<char>, headers: Seq<char>, content_sha256: Seq<char>) -> Seq<char> {
    "PUT\n/"@ + key + "\n\n"@ + headers + "\n"@ + signed_headers_spec() + "\n"@ + content_sha256
}

/// What is signed: the algorithm, the time, the credential scope and the
/// SHA-256 of the canonical request.
pub open spec fn string_to_sign_spec(
    datetime: Seq<char>,
    date: Seq<char>,
    region: Seq<char>,
    canonical_request: Seq<char>,
) -> Seq<char> {
    "AWS4-HMAC-SHA256\n"@ + datetime + "\n"@ + date + "/"@ + region + "/s3/aws4_request\n"@
        + hex_spec(sha256_digest(encode_utf8(canonical_request)))
}

/// The `authorization` header.
pub open spec fn authorization_spec(
    access_key: Seq<char>,
    date: Seq<char>,
    region: Seq<char>,
    signature: Seq<char>,
) -> Seq<char> {
    "AWS4-HMAC-SHA256 Credential="@ + access_key + "/"@ + date + "/"@ + region
        + "/s3/aws4_request,SignedHeaders="@ + signed_headers_spec() + ",Signature="@ + signature
}

/// A signed `PUT`, ready to send.
#[derive(Clone, Debug)]
pub struct S3PutRequest {
    /// Where to send it.
    pub url: String,
    pub host: String,
    pub content_type: String,
    pub content_sha256: String,
    pub amz_date: String,
    pub authorization: String,
    /// Where the object can be read once stored.
    pub public_url: String,
}

/// The content type uploads are sent with.
pub open spec fn octet_stream() -> Seq<char> {
    "application/octet-stream"@
}

/// `r` is the upload of `data` under the key `sha1`, signed for the day
/// `date` (`YYYYMMDD`) and the instant `datetime` (`YYYYMMDDTHHMMSSZ`).
pub open spec fn put_signed(
    r: S3PutRequest,
    cfg: S3Config,
    sha1: Seq<char>,
    data: Seq<u8>,
    date: Seq<char>,
    datetime: Seq<char>,
) -> bool {
    let host = endpoint_host_spec(cfg.endpoint@);
    let content_sha256 = hex_spec(sha256_digest(data));
    let headers = canonical_headers_spec(octet_stream(), host, content_sha256, datetime);
    let request = canonical_request_spec(sha1, headers, content_sha256);
    let to_sign = string_to_sign_spec(datetime, date, cfg.region@, request);
    let key = signing_key_spec(cfg.secret_key@, date, cfg.region@);
    let signature = hex_spec(hmac_sha256_spec(key, encode_utf8(to_sign)));
    &&& r.url@ == strip_trailing(cfg.endpoint@, '/') + "/"@ + sha1
    &&& r.host@ == host
    &&& r.content_type@ == octet_stream()
    &&& r.content_sha256@ == content_sha256
    &&& r.amz_date@ == datetime
    &&& r.authorization@ == authorization_spec(cfg.access_key@, date, cfg.region@, signature)
    &&& r.public_url@ == cfg.public_url@ + "/"@ + sha1
}

/// Signs the upload of `data` under the key `sha1`.
pub fn sign_put(cfg: &S3Config, sha1: &str, data: &[u8], date: &str, datetime: &str) -> (r:
    S3PutRequest)
    ensures
        put_signed(r, *cfg, sha1@, data@, date@, datetime@),
{
    let host = endpoint_host(cfg.endpoint.as_str());
    let digest = sha256_of(data);
    let content_sha256 = hex_chars(digest.as_slice());
    let content_type = "application/octet-stream";

    let mut headers: Vec<char> = Vec::new();
    push_str(&mut headers, "content-type:");
    push_str(&mut headers, content_type);
    push_str(&mut headers, "\nhost:");
    push_str(&mut headers, host.as_str());
    push_str(&mut headers, "\nx-amz-content-sha256:");
    push_chars(&mut headers, content_sha256.as_slice());
    push_str(&mut headers, "\nx-amz-date:");
    push_str(&mut headers, datetime);
    push_str(&mut headers, "\n");
    assert(headers@ =~= canonical_headers_spec(octet_stream(), host@, content_sha256@, datetime@));

    let signed_headers = "content-type;host;x-amz-content-sha256;x-amz-date";
    let mut request: Vec<char> = Vec::new();
    push_str(&mut request, "PUT\n/");
    push_str(&mut request, sha1);
    push_str(&mut request, "\n\n");
    push_chars(&mut request, headers.as_slice());
    push_str(&mut request, "\n");
    push_str(&mut request, signed_headers);
    push_str(&mut request, "\n");
    push_chars(&mut request, content_sha256.as_slice());
    assert(request@ =~= canonical_request_spec(sha1@, headers@, content_sha256@));

    let request_s = string_from_chars(request.as_slice());
    let request_digest = sha256_of(request_s.as_str().as_bytes());
    let request_hex = hex_chars(request_digest.as_slice());
    let mut to_sign: Vec<char> = Vec::new();
    push_str(&mut to_sign, "AWS4-HMAC-SHA256\n");
    push_str(&mut to_sign, datetime);
    push_str(&mut to_sign, "\n");
    push_str(&mut to_sign, date);
    push_str(&mut to_sign, "/");
    push_str(&mut to_sign, cfg.region.as_str());
    push_str(&mut to_sign, "/s3/aws4_request\n");
    push_chars(&mut to_sign, request_hex.as_slice());
    assert(to_sign@ =~= string_to_sign_spec(datetime@, date@, cfg.region@, request@));

    let key = derive_signing_key(cfg.secret_key.as_str(), date, cfg.region.as_str());
    let to_sign_s = string_from_chars(to_sign.as_slice());
    let mac = hmac_sha256(key.as_slice(), to_sign_s.as_str().as_bytes());
    let signature = hex_chars(mac.as_slice());

    let mut auth: Vec<char> = Vec::new();
    push_str(&mut auth, "AWS4-HMAC-SHA256 Credential=");
    push_str(&mut auth, cfg.access_key.as_str());
    push_str(&mut auth, "/");
    push_str(&mut auth, date);
    push_str(&mut auth, "/");
    push_str(&mut auth, cfg.region.as_str());
    push_str(&mut auth, "/s3/aws4_request,SignedHeaders=");
    push_str(&mut auth, signed_headers);
    push_str(&mut auth, ",Signature=");
    push_chars(&mut auth, signature.as_slice());
    assert(auth@ =~= authorization_spec(cfg.access_key@, date@, cfg.region@, signature@));

    let endpoint = chars_of(cfg.endpoint.as_str());
    let mut url = strip_trailing_exec(endpoint.as_slice(), '/');
    push_str(&mut url, "/");
    push_str(&mut url, sha1);

    let mut public: Vec<char> = Vec::new();
    push_str(&mut public, cfg.public_url.as_str());
    push_str(&mut public, "/");
    push_str(&mut public, sha1);

    S3PutRequest {
        url: string_from_chars(url.as_slice()),
        host,
        content_type: string_from_chars(chars_of(content_type).as_slice()),
        content_sha256: string_from_chars(content_sha256.as_slice()),
        amz_date: string_from_chars(chars_of(datetime).as_slice()),
        authorization: string_from_chars(auth.as_slice()),
        public_url: string_from_chars(public.as_slice()),
    }
}

/// `n` below a hundred as two digits, as `%m`, `%d`, `%H`, `%M` and `%S`
/// write a field.
pub open spec fn two_digits(n: int) -> Seq<char> {
    seq![digit_char((n / 10) as nat), digit_char((n % 10) as nat)]
}

/// A year after 1970 as `%Y` writes it: four digits up to 9999, and past it
/// a plus sign and all the digits.
pub open spec fn year_digits(y: int) -> Seq<char> {
    if y <= 9999 {
        two_digits(y / 100) + two_digits(y % 100)
    } else {
        seq!['+'] + decimal_spec(y as nat)
    }
}

/// The day (`%Y%m%d`) and the instant (`%Y%m%dT%H%M%SZ`) of the UTC instant
/// `secs`, on or after 1970, on the proleptic Gregorian calendar.
pub open spec fn amz_stamps_spec(secs: i64) -> (Seq<char>, Seq<char>) {
    let c = civil_from_days(secs / 86400);
    let date = year_digits(c.0) + two_digits(c.1) + two_digits(c.2);
    let sod: int = (secs as int) % 86400;
    (
        date,
        date + seq!['T'] + two_digits(sod / 3600) + two_digits((sod / 60) % 60) + two_digits(sod % 60)
            + seq!['Z'],
    )
}

/// Formats an instant with `chrono`'s `format("%Y%m%d")` and
/// `format("%Y%m%dT%H%M%SZ")`.
///
/// The contract claims that the two strings are those of
/// `amz_stamps_spec`: UTC without leap seconds, the proleptic Gregorian
/// date, each field zero-padded to two digits and the year to four, with a
/// sign once it passes 9999. The instant lies in the range where
/// `DateTime::from_timestamp` succeeds.
#[verifier::external_body]
fn amz_stamps(now: UtcTime) -> (r: (String, String))
    requires
        0 <= now.secs <= 8_210_266_876_799,
        now.nanos < 1_000_000_000,
    ensures
        (r.0@, r.1@) == amz_stamps_spec(now.secs),
{
    let t = chrono::DateTime::from_timestamp(now.secs, now.nanos).unwrap();
    (t.format("%Y%m%d").to_string(), t.format("%Y%m%dT%H%M%SZ").to_string())
}

/// Signs the upload of `data` under the key `sha1` at the current instant.
/// Which instant that is comes from the clock; the request is signed for it.
pub fn prepare_put(cfg: &S3Config, sha1: &str, data: &[u8]) -> (r: S3PutRequest)
    ensures
        exists|secs: i64|
            #![trigger amz_stamps_spec(secs)]
            put_signed(r, *cfg, sha1@, data@, amz_stamps_spec(secs).0, amz_stamps_spec(secs).1),
{
    let now = utc_now();
    let (date, datetime) = amz_stamps(now);
    let r = sign_put(cfg, sha1, data, date.as_str(), datetime.as_str());
    assert(put_signed(
        r,
        *cfg,
        sha1@,
        data@,
        amz_stamps_spec(now.secs).0,
        amz_stamps_spec(now.secs).1,
    ));
    r
}

} // verus!
