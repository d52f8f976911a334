use clever_logs::signer::{logs_endpoint, sign_request, Credentials};

fn fixture_credentials() -> Credentials {
    Credentials {
        consumer_key: b"ck".to_vec(),
        consumer_secret: b"cs".to_vec(),
        access_token: b"tok".to_vec(),
        token_secret: b"ts".to_vec(),
    }
}

#[test]
fn logs_endpoint_embeds_the_app_id() {
    let url = logs_endpoint(b"app_1234");
    assert_eq!(
        String::from_utf8(url).unwrap(),
        "https://api.clever-cloud.com/v2/logs/app_1234/sse"
    );
}

#[test]
fn repeated_signing_with_fixed_inputs_is_byte_identical() {
    let creds = fixture_credentials();
    let url = logs_endpoint(b"app_1234");
    let first = sign_request(&creds, b"GET", &url, b"abc123", 1000000000);
    let second = sign_request(&creds, b"GET", &url, b"abc123", 1000000000);
    assert_eq!(first, second);
}

#[test]
fn signed_url_matches_the_precomputed_fixture() {
    let creds = fixture_credentials();
    let url = logs_endpoint(b"app_1234");
    let signed = sign_request(&creds, b"GET", &url, b"abc123", 1000000000);
    let expected = "https://api.clever-cloud.com/v2/logs/app_1234/sse?authorization=T0F1dGggb2F1dGhfY29uc3VtZXJfa2V5PSJjayIsIG9hdXRoX25vbmNlPSJhYmMxMjMiLCBvYXV0aF9zaWduYXR1cmU9IkdFaTNJMk8zdCUyRmFmRWhkeDBjZGxOdHY5YWhBJTNEIiwgb2F1dGhfc2lnbmF0dXJlX21ldGhvZD0iSE1BQy1TSEExIiwgb2F1dGhfdGltZXN0YW1wPSIxMDAwMDAwMDAwIiwgb2F1dGhfdG9rZW49InRvayIsIG9hdXRoX3ZlcnNpb249IjEuMCI=";
    assert_eq!(String::from_utf8(signed).unwrap(), expected);
}

#[test]
fn changing_the_nonce_changes_the_signature() {
    let creds = fixture_credentials();
    let url = logs_endpoint(b"app_1234");
    let a = sign_request(&creds, b"GET", &url, b"abc123", 1000000000);
    let b = sign_request(&creds, b"GET", &url, b"abc124", 1000000000);
    assert_ne!(a, b);
}

#[test]
fn reserved_bytes_are_percent_encoded_in_the_header() {
    let creds = Credentials {
        consumer_key: b"k e/y".to_vec(),
        consumer_secret: b"s&s".to_vec(),
        access_token: b"t+t".to_vec(),
        token_secret: b"q=q".to_vec(),
    };
    let signed = sign_request(&creds, b"GET", b"https://example.com/x", b"n once", 7);
    let url = String::from_utf8(signed).unwrap();
    let (_, b64) = url.split_once("?authorization=").unwrap();
    let header = String::from_utf8(base64::decode(b64).unwrap()).unwrap();
    assert!(header.starts_with("OAuth oauth_consumer_key=\"k%20e%2Fy\", oauth_nonce=\"n%20once\""));
    assert!(header.contains("oauth_token=\"t%2Bt\""));
    assert!(header.contains("oauth_timestamp=\"7\""));
}
