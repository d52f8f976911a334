//! Request signing: an authorized URL from credentials and an endpoint.
//!
//! The signer canonicalizes the request parameters, signs the canonical
//! base string with HMAC-SHA1 keyed by the two secrets, and appends the
//! base64 of the resulting authorization header to the URL as the
//! `authorization` query parameter.  Nonce and timestamp are inputs, so the
//! result is a fixed byte string once they are fixed.

use vstd::prelude::*;

use crate::bytes_util::{append_bytes, append_lit, spec_lit_bytes};

verus! {

/// The four opaque credential byte strings, immutable for the process
/// lifetime.
#[derive(Debug)]
pub struct Credentials {
    pub consumer_key: Vec<u8>,
    pub consumer_secret: Vec<u8>,
    pub access_token: Vec<u8>,
    pub token_secret: Vec<u8>,
}

/// The unreserved bytes of RFC 3986: letters, digits, `-`, `.`, `_`, `~`.
/// Every other byte is percent-encoded.
pub open spec fn is_unreserved(b: u8) -> bool {
    (48 <= b <= 57) || (65 <= b <= 90) || (97 <= b <= 122) || b == 45 || b == 46 || b == 95
        || b == 126
}

/// The upper-case hexadecimal digit of a value below sixteen.
pub open spec fn hex_digit(d: u8) -> u8 {
    if d < 10 {
        (48 + d) as u8
    } else {
        (55 + d) as u8
    }
}

/// The percent-encoding of one byte.
pub open spec fn pct_byte(b: u8) -> Seq<u8> {
    if is_unreserved(b) {
        seq![b]
    } else {
        seq![37u8, hex_digit(b / 16), hex_digit(b % 16)]
    }
}

/// The percent-encoding of a byte string.
pub open spec fn pct(bs: Seq<u8>) -> Seq<u8>
    decreases bs.len(),
{
    if bs.len() == 0 {
        Seq::<u8>::empty()
    } else {
        pct(bs.drop_last()) + pct_byte(bs.last())
    }
}

/// The decimal digits of a number, most significant first.
pub open spec fn dec_digits(n: nat) -> Seq<u8>
    decreases n,
{
    if n < 10 {
        seq![(48 + n) as u8]
    } else {
        dec_digits(n / 10).push((48 + n % 10) as u8)
    }
}

/// The upper-case hexadecimal digit of a value below sixteen.
fn hex_char(d: u8) -> (r: u8)
    requires
        d < 16,
    ensures
        r == hex_digit(d),
{
    if d < 10 {
        48 + d
    } else {
        55 + d
    }
}

/// Appends the percent-encoding of `src` to `out`.
fn pct_encode_into(out: &mut Vec<u8>, src: &[u8])
    ensures
        final(out)@ == old(out)@ + pct(src@),
{
    let mut i: usize = 0;
    while i < src.len()
        invariant
            i <= src.len(),
            out@ == old(out)@ + pct(src@.take(i as int)),
        decreases src.len() - i,
    {
        let b = src[i];
        if (48 <= b && b <= 57) || (65 <= b && b <= 90) || (97 <= b && b <= 122) || b == 45 || b
            == 46 || b == 95 || b == 126 {
            out.push(b);
        } else {
            out.push(37);
            out.push(hex_char(b / 16));
            out.push(hex_char(b % 16));
        }
        proof {
            assert(src@.take(i + 1).drop_last() =~= src@.take(i as int));
            assert(src@.take(i + 1).last() == src@[i as int]);
            assert(pct(src@.take(i + 1)) == pct(src@.take(i as int)) + pct_byte(src@[i as int]));
            assert(out@ =~= old(out)@ + pct(src@.take(i + 1)));
        }
        i = i + 1;
    }
    proof {
        assert(src@.take(src@.len() as int) =~= src@);
    }
}

/// Appends the decimal digits of `n` to `out`.
fn push_dec_bytes(out: &mut Vec<u8>, n: u64)
    ensures
        final(out)@ == old(out)@ + dec_digits(n as nat),
    decreases n,
{
    if n >= 10 {
        push_dec_bytes(out, n / 10);
    }
    out.push(48 + (n % 10) as u8);
    proof {
        if n >= 10 {
            assert(old(out)@ + dec_digits((n / 10) as nat).push((48 + n as nat % 10) as u8)
                =~= old(out)@ + dec_digits(n as nat));
        } else {
            assert(old(out)@ + Seq::<u8>::empty().push((48 + n as nat) as u8) =~= old(out)@
                + dec_digits(n as nat));
        }
    }
}

/// Names the HMAC-SHA1 tag of `data` under `key`: a function of the two
/// byte strings alone.
pub uninterp spec fn hmac_sha1_of(key: Seq<u8>, data: Seq<u8>) -> Seq<u8>;

/// Relies on `ring::hmac::sign` with `HMAC_SHA1_FOR_LEGACY_USE_ONLY`: the
/// tag depends on the key and the data alone.
#[verifier::external_body]
fn hmac_sha1(key: &[u8], data: &[u8]) -> (r: Vec<u8>)
    ensures
        r@ == hmac_sha1_of(key@, data@),
{
    let k = ring::hmac::Key::new(ring::hmac::HMAC_SHA1_FOR_LEGACY_USE_ONLY, key);
    ring::hmac::sign(&k, data).as_ref().to_vec()
}

/// Names the base64 encoding (standard alphabet, padded) of a byte
/// string: a function of the input alone.
pub uninterp spec fn base64_of(data: Seq<u8>) -> Seq<u8>;

/// Relies on `base64::encode`: the standard-alphabet padded encoding of
/// the input bytes, a function of the input alone.
#[verifier::external_body]
fn base64_bytes(data: &[u8]) -> (r: Vec<u8>)
    ensures
        r@ == base64_of(data@),
{
    base64::encode(data).into_bytes()
}

/// The canonical parameter string: the six protocol parameters, each
/// percent-encoded, joined in their sorted order.
pub open spec fn spec_canonical_query(
    ck: Seq<u8>,
    at: Seq<u8>,
    nonce: Seq<u8>,
    timestamp: u64,
) -> Seq<u8> {
    spec_lit_bytes("oauth_consumer_key=") + pct(ck) + spec_lit_bytes("&oauth_nonce=") + pct(nonce)
        + spec_lit_bytes("&oauth_signature_method=HMAC-SHA1&oauth_timestamp=") + pct(
        dec_digits(timestamp as nat),
    ) + spec_lit_bytes("&oauth_token=") + pct(at) + spec_lit_bytes("&oauth_version=1.0")
}

/// The signature base string: method, URL and canonical query, each
/// percent-encoded, joined with `&`.
pub open spec fn spec_base_string(
    method: Seq<u8>,
    url: Seq<u8>,
    ck: Seq<u8>,
    at: Seq<u8>,
    nonce: Seq<u8>,
    timestamp: u64,
) -> Seq<u8> {
    pct(method) + spec_lit_bytes("&") + pct(url) + spec_lit_bytes("&") + pct(
        spec_canonical_query(ck, at, nonce, timestamp),
    )
}

/// The signing key: the percent-encoded consumer secret and token secret
/// joined with `&`.
pub open spec fn spec_signing_key(cs: Seq<u8>, ts: Seq<u8>) -> Seq<u8> {
    pct(cs) + spec_lit_bytes("&") + pct(ts)
}

/// The authorization header: the protocol parameters and the base64 HMAC
/// signature, quoted and percent-encoded, in their sorted order.
pub open spec fn spec_authorization_header(
    method: Seq<u8>,
    url: Seq<u8>,
    ck: Seq<u8>,
    cs: Seq<u8>,
    at: Seq<u8>,
    ts: Seq<u8>,
    nonce: Seq<u8>,
    timestamp: u64,
) -> Seq<u8> {
    let signature = base64_of(
        hmac_sha1_of(
            spec_signing_key(cs, ts),
            spec_base_string(method, url, ck, at, nonce, timestamp),
        ),
    );
    spec_lit_bytes("OAuth oauth_consumer_key=\"") + pct(ck) + spec_lit_bytes(
        "\", oauth_nonce=\"",
    ) + pct(nonce) + spec_lit_bytes("\", oauth_signature=\"") + pct(signature) + spec_lit_bytes(
        "\", oauth_signature_method=\"HMAC-SHA1\", oauth_timestamp=\"",
    ) + pct(dec_digits(timestamp as nat)) + spec_lit_bytes("\", oauth_token=\"") + pct(at)
        + spec_lit_bytes("\", oauth_version=\"1.0\"")
}

/// The signed endpoint: the URL with the base64 of the authorization
/// header appended as the `authorization` query parameter.
pub open spec fn spec_signed_url(
    method: Seq<u8>,
    url: Seq<u8>,
    ck: Seq<u8>,
    cs: Seq<u8>,
    at: Seq<u8>,
    ts: Seq<u8>,
    nonce: Seq<u8>,
    timestamp: u64,
) -> Seq<u8> {
    url + spec_lit_bytes("?authorization=") + base64_of(
        spec_authorization_header(method, url, ck, cs, at, ts, nonce, timestamp),
    )
}

/// Signs one request: produces the URL with its `authorization` query
/// parameter, exactly [`spec_signed_url`] of the inputs.  Nonce and
/// timestamp are arguments, so fixed inputs give a fixed result.
pub fn sign_request(
    creds: &Credentials,
    method: &[u8],
    url: &[u8],
    nonce: &[u8],
    timestamp: u64,
) -> (r: Vec<u8>)
    ensures
        r@ == spec_signed_url(
            method@,
            url@,
            creds.consumer_key@,
            creds.consumer_secret@,
            creds.access_token@,
            creds.token_secret@,
            nonce@,
            timestamp,
        ),
{
    let mut ts_digits: Vec<u8> = Vec::new();
    push_dec_bytes(&mut ts_digits, timestamp);

    let mut query: Vec<u8> = Vec::new();
    append_lit(&mut query, "oauth_consumer_key=");
    pct_encode_into(&mut query, creds.consumer_key.as_slice());
    append_lit(&mut query, "&oauth_nonce=");
    pct_encode_into(&mut query, nonce);
    append_lit(&mut query, "&oauth_signature_method=HMAC-SHA1&oauth_timestamp=");
    pct_encode_into(&mut query, ts_digits.as_slice());
    append_lit(&mut query, "&oauth_token=");
    pct_encode_into(&mut query, creds.access_token.as_slice());
    append_lit(&mut query, "&oauth_version=1.0");

    let mut base: Vec<u8> = Vec::new();
    pct_encode_into(&mut base, method);
    append_lit(&mut base, "&");
    pct_encode_into(&mut base, url);
    append_lit(&mut base, "&");
    pct_encode_into(&mut base, query.as_slice());

    let mut key: Vec<u8> = Vec::new();
    pct_encode_into(&mut key, creds.consumer_secret.as_slice());
    append_lit(&mut key, "&");
    pct_encode_into(&mut key, creds.token_secret.as_slice());

    let tag = hmac_sha1(key.as_slice(), base.as_slice());
    let signature = base64_bytes(tag.as_slice());

    let mut header: Vec<u8> = Vec::new();
    append_lit(&mut header, "OAuth oauth_consumer_key=\"");
    pct_encode_into(&mut header, creds.consumer_key.as_slice());
    append_lit(&mut header, "\", oauth_nonce=\"");
    pct_encode_into(&mut header, nonce);
    append_lit(&mut header, "\", oauth_signature=\"");
    pct_encode_into(&mut header, signature.as_slice());
    append_lit(&mut header, "\", oauth_signature_method=\"HMAC-SHA1\", oauth_timestamp=\"");
    pct_encode_into(&mut header, ts_digits.as_slice());
    append_lit(&mut header, "\", oauth_token=\"");
    pct_encode_into(&mut header, creds.access_token.as_slice());
    append_lit(&mut header, "\", oauth_version=\"1.0\"");

    let header64 = base64_bytes(header.as_slice());

    let mut signed: Vec<u8> = Vec::new();
    append_bytes(&mut signed, url);
    append_lit(&mut signed, "?authorization=");
    append_bytes(&mut signed, header64.as_slice());
    signed
}

/// The endpoint that streams the logs of one application.
pub fn logs_endpoint(app_id: &[u8]) -> (r: Vec<u8>)
    ensures
        r@ == spec_lit_bytes("https://api.clever-cloud.com/v2/logs/") + app_id@ + spec_lit_bytes(
            "/sse",
        ),
{
    let mut r: Vec<u8> = Vec::new();
    append_lit(&mut r, "https://api.clever-cloud.com/v2/logs/");
    append_bytes(&mut r, app_id);
    append_lit(&mut r, "/sse");
    r
}

/// Signature determinism: with method, URL, credentials, nonce and
/// timestamp all fixed, any two signed URLs meeting [`sign_request`]'s
/// contract are byte-identical.
pub proof fn lemma_signature_determinism(
    r1: Seq<u8>,
    r2: Seq<u8>,
    method: Seq<u8>,
    url: Seq<u8>,
    ck: Seq<u8>,
    cs: Seq<u8>,
    at: Seq<u8>,
    ts: Seq<u8>,
    nonce: Seq<u8>,
    timestamp: u64,
)
    requires
        r1 == spec_signed_url(method, url, ck, cs, at, ts, nonce, timestamp),
        r2 == spec_signed_url(method, url, ck, cs, at, ts, nonce, timestamp),
    ensures
        r1 == r2,
{
}

} // verus!
