use registrar::OauthParam;
use registrar::signature_base_string;
use registrar::signed_digest;
use registrar::signing_key;

fn protocol_params() -> Vec<OauthParam> {
    vec![
        OauthParam::new("oauth_consumer_key".to_string(), "ck".to_string()),
        OauthParam::new("oauth_nonce".to_string(), "n1".to_string()),
        OauthParam::new("oauth_signature_method".to_string(), "HMAC-SHA1".to_string()),
        OauthParam::new("oauth_timestamp".to_string(), "1000".to_string()),
        OauthParam::new("oauth_token".to_string(), "tok".to_string()),
        OauthParam::new("oauth_version".to_string(), "1.0".to_string()),
    ]
}

#[test]
fn base_string_is_bit_exact_for_fixed_parameters() {
    let base = signature_base_string("GET", "https://api.example.com/x", &protocol_params());
    assert_eq!(
        base,
        "GET&https%3A%2F%2Fapi.example.com%2Fx&oauth_consumer_key%3Dck%26oauth_nonce%3Dn1%26oauth_signature_method%3DHMAC-SHA1%26oauth_timestamp%3D1000%26oauth_token%3Dtok%26oauth_version%3D1.0".to_string()
    );
}

#[test]
fn base_string_is_deterministic_under_parameter_order() {
    let mut shuffled = protocol_params();
    shuffled.reverse();
    let a = signature_base_string("GET", "https://api.example.com/x", &protocol_params());
    let b = signature_base_string("GET", "https://api.example.com/x", &shuffled);
    assert_eq!(a, b);
}

#[test]
fn base_string_encodes_reserved_characters_in_values() {
    let params = vec![OauthParam::new("q".to_string(), "a b&c".to_string())];
    let base = signature_base_string("POST", "http://e.com/r", &params);
    // q=a%20b%26c, encoded once more inside the base string.
    assert_eq!(
        base,
        "POST&http%3A%2F%2Fe.com%2Fr&q%3Da%2520b%2526c".to_string()
    );
}

#[test]
fn signing_key_joins_encoded_secrets() {
    assert_eq!(signing_key("se cret", "tk"), "se%20cret&tk".to_string());
    assert_eq!(signing_key("s", ""), "s&".to_string());
}

#[test]
fn signed_digest_matches_known_hmac_sha1_vector() {
    let sig = signed_digest(
        b"key",
        b"The quick brown fox jumps over the lazy dog",
    );
    // base64 of hmac-sha1 digest de7c9b85b8b78aa6bc8a7a36f70a90701c9db4d9
    assert_eq!(sig, "3nybhbi3iqa8ino29wqQcBydtNk=".to_string());
    assert_eq!(sig.len(), 28);
}

#[test]
fn authorization_header_carries_sorted_quoted_parameters() {
    let header = registrar::authorization_header(
        "ck",
        "cs",
        "HMAC-SHA1",
        "tok",
        "ts",
        "1.0",
        "n1",
        "1000",
        "GET",
        "https://api.example.com/x",
        &Vec::new(),
    );
    assert!(header.starts_with("OAuth "));
    assert!(header.contains("oauth_consumer_key=\"ck\""));
    assert!(header.contains("oauth_signature=\""));
    assert!(header.contains("oauth_nonce=\"n1\""));
    assert!(header.contains("oauth_timestamp=\"1000\""));
    // Parameters sorted by key: the consumer key comes first.
    assert!(header.starts_with("OAuth oauth_consumer_key="));
    // No trailing separator.
    assert!(header.ends_with('"'));
}

#[test]
fn authorization_header_is_deterministic() {
    let make = || {
        registrar::authorization_header(
            "ck", "cs", "HMAC-SHA1", "tok", "ts", "1.0", "n1", "1000", "GET",
            "https://api.example.com/x", &Vec::new(),
        )
    };
    assert_eq!(make(), make());
}
