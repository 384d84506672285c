use ulgate::encoding::{base64_decode, base64_encode, base64url_decode, base64url_encode};
use ulgate::hashing::{constant_time_eq, hmac_sha256};
use ulgate::keyed::KeyedMap;
use ulgate::oauth::{
    build_test_jwt, build_test_jwt_at, parse_claims, parse_json_str_map, verify_signature,
    JwtAlgorithm, JwtClaims, JwtError,
    OAuthIdentity, OAuthProvider, OAuthValidator,
};

const SECRET: &[u8] = b"test-secret-key-for-ulmen-oauth";
const ISSUER: &str = "https://auth.ulmen.dev";

fn make_validator() -> OAuthValidator {
    let mut v = OAuthValidator::new();
    v.add_provider(OAuthProvider::hs256("test", ISSUER, SECRET));
    v
}

fn valid_token() -> String {
    build_test_jwt("user_1", ISSUER, SECRET, 3600, None)
}

#[test]
fn build_and_validate_token() {
    let v = make_validator();
    let token = valid_token();
    let claims = v.validate(&token).unwrap();
    assert_eq!(claims.sub, "user_1");
    assert_eq!(claims.iss.as_deref(), Some(ISSUER));
}

#[test]
fn expired_token_rejected() {
    let v = make_validator();
    let token = build_test_jwt("user_1", ISSUER, SECRET, -100, None);
    let result = v.validate(&token);
    assert_eq!(result, Err(JwtError::TokenExpired));
}

#[test]
fn wrong_signature_rejected() {
    let v = make_validator();
    let token = valid_token();
    let parts: Vec<&str> = token.splitn(3, '.').collect();
    let bad_token = format!("{}.{}.invalidsignature", parts[0], parts[1]);
    let result = v.validate(&bad_token);
    assert_eq!(result, Err(JwtError::SignatureInvalid));
}

#[test]
fn malformed_token_rejected() {
    let v = make_validator();
    assert!(v.validate("not.a.token.at.all").is_err());
    assert_eq!(v.validate("onlyone"), Err(JwtError::MalformedToken));
    assert_eq!(v.validate("two.parts"), Err(JwtError::MalformedToken));
}

#[test]
fn wrong_issuer_rejected() {
    let v = make_validator();
    let token = build_test_jwt("user_1", "https://evil.example.com", SECRET, 3600, None);
    let result = v.validate(&token);
    assert!(result.is_err());
}

#[test]
fn audience_validation() {
    let mut v = OAuthValidator::new();
    v.add_provider(OAuthProvider::hs256("test", ISSUER, SECRET).with_audience("api.ulmen.dev"));
    let token =
        build_test_jwt("user_1", ISSUER, SECRET, 3600, Some(&[("aud", "api.ulmen.dev")]));
    let claims = v.validate(&token).unwrap();
    assert_eq!(claims.sub, "user_1");
}

#[test]
fn audience_mismatch_rejected() {
    let mut v = OAuthValidator::new();
    v.add_provider(OAuthProvider::hs256("test", ISSUER, SECRET).with_audience("api.ulmen.dev"));
    let token =
        build_test_jwt("user_1", ISSUER, SECRET, 3600, Some(&[("aud", "wrong.audience.com")]));
    assert_eq!(v.validate(&token), Err(JwtError::InvalidAudience));
}

#[test]
fn email_extracted() {
    let v = make_validator();
    let token =
        build_test_jwt("user_1", ISSUER, SECRET, 3600, Some(&[("email", "user@example.com")]));
    let claims = v.validate(&token).unwrap();
    assert_eq!(claims.email.as_deref(), Some("user@example.com"));
}

#[test]
fn claims_not_expired() {
    let v = make_validator();
    let token = valid_token();
    let claims = v.validate(&token).unwrap();
    assert!(!claims.is_expired());
}

#[test]
fn base64url_roundtrip() {
    let data = b"hello world! this is a test string.";
    let encoded = base64url_encode(data);
    let decoded = base64url_decode(&encoded).unwrap();
    assert_eq!(decoded, data);
}

#[test]
fn base64url_no_padding() {
    let encoded = base64url_encode(b"test");
    assert!(!encoded.contains('='));
}

#[test]
fn base64url_url_safe_chars() {
    for _ in 0..100 {
        let data: Vec<u8> = (0..32).map(|i| i as u8).collect();
        let encoded = base64url_encode(&data);
        assert!(!encoded.contains('+'));
        assert!(!encoded.contains('/'));
    }
}

#[test]
fn hmac_deterministic() {
    let m1 = hmac_sha256(b"key", b"message");
    let m2 = hmac_sha256(b"key", b"message");
    assert_eq!(m1, m2);
}

#[test]
fn hmac_different_keys() {
    let m1 = hmac_sha256(b"key1", b"message");
    let m2 = hmac_sha256(b"key2", b"message");
    assert_ne!(m1, m2);
}

#[test]
fn constant_time_eq_equal() {
    assert!(constant_time_eq(b"hello", b"hello"));
    assert!(constant_time_eq(b"", b""));
}

#[test]
fn constant_time_eq_different() {
    assert!(!constant_time_eq(b"hello", b"world"));
    assert!(!constant_time_eq(b"hello", b"hell"));
}

#[test]
fn oauth_identity_groups() {
    let claims = JwtClaims {
        sub: "u1".into(),
        iss: None,
        aud: None,
        email: None,
        groups: vec!["admin".into(), "ops".into()],
        exp: None,
        iat: None,
        raw: KeyedMap::new(),
    };
    let identity = OAuthIdentity::from_claims("google", claims);
    assert!(identity.has_group("admin"));
    assert!(!identity.has_group("viewer"));
}

#[test]
fn rs256_provider_config() {
    let p = OAuthProvider::rs256("google", "https://accounts.google.com")
        .with_audience("my-app.example.com")
        .trust_issuer("https://accounts.google.com");
    assert_eq!(p.algorithm, JwtAlgorithm::RS256);
    assert_eq!(p.trusted_issuers.len(), 1);
}

#[test]
fn jwt_error_display() {
    assert!(JwtError::TokenExpired.text().contains("expired"));
    assert!(JwtError::SignatureInvalid.text().contains("signature"));
    assert!(JwtError::MissingClaim("sub".into()).text().contains("sub"));
}

#[test]
fn jwt_error_messages() {
    assert_eq!(JwtError::MalformedToken.text(), "malformed JWT token");
    assert_eq!(JwtError::InvalidBase64.text(), "invalid base64 encoding");
    assert_eq!(JwtError::InvalidJson.text(), "invalid JSON in JWT");
    assert_eq!(JwtError::SignatureInvalid.text(), "JWT signature invalid");
    assert_eq!(JwtError::TokenExpired.text(), "JWT token expired");
    assert_eq!(JwtError::InvalidIssuer.text(), "JWT issuer not trusted");
    assert_eq!(JwtError::InvalidAudience.text(), "JWT audience mismatch");
    assert_eq!(JwtError::MissingClaim("sub".into()).text(), "missing JWT claim: sub");
    assert_eq!(
        JwtError::UnsupportedAlgorithm("none".into()).text(),
        "unsupported JWT algorithm: none"
    );
}

#[test]
fn hmac_known_values() {
    let hex = |b: &[u8]| b.iter().map(|x| format!("{:02x}", x)).collect::<String>();
    assert_eq!(
        hex(&hmac_sha256(b"key", b"message")),
        "6e9ef29b75fffc5b7abae527d58fdadb2fe42e7219011976917343065f58ed4a"
    );
    assert_eq!(
        hex(&hmac_sha256(&[b'k'; 70], b"message")),
        "61e2482b2699d34fbba68008f6be824717a8b1e68f4c9ccfd60254c607007e15"
    );
}

#[test]
fn base64_known_values() {
    assert_eq!(base64_encode(b""), "");
    assert_eq!(base64_encode(b"f"), "Zg==");
    assert_eq!(base64_encode(b"fo"), "Zm8=");
    assert_eq!(base64_encode(b"foo"), "Zm9v");
    assert_eq!(base64_encode(&[0xfb, 0xff, 0xbf]), "+/+/");
    assert_eq!(base64url_encode(&[0xfb, 0xff, 0xbf]), "-_-_");
    assert_eq!(base64url_encode(b"fo"), "Zm8");
    assert_eq!(base64_decode("Zm9v\r\nZg==\n").unwrap(), b"foof");
    assert!(base64_decode("Zm9*").is_err());
    assert!(base64url_decode("Zm9v\u{e9}").is_err());
}

#[test]
fn base64_single_character_gives_one_byte() {
    assert_eq!(base64_decode("Z").unwrap(), vec![0x64]);
    assert_eq!(base64url_decode("").unwrap(), Vec::<u8>::new());
}

#[test]
fn base64url_round_trip_all_lengths() {
    for n in 0..70usize {
        let data: Vec<u8> = (0..n).map(|i| (i * 37 + n * 11) as u8).collect();
        assert_eq!(base64url_decode(&base64url_encode(&data)).unwrap(), data);
    }
}

#[test]
fn known_token() {
    let token = build_test_jwt_at("user_1", ISSUER, SECRET, 1000, 4600, None);
    let parts: Vec<&str> = token.split('.').collect();
    assert_eq!(parts[0], "eyJhbGciOiJIUzI1NiIsInR5cCI6IkpXVCJ9");
    assert_eq!(
        String::from_utf8(base64url_decode(parts[1]).unwrap()).unwrap(),
        "{\"sub\":\"user_1\",\"iss\":\"https://auth.ulmen.dev\",\"iat\":1000,\"exp\":4600}"
    );
    assert_eq!(parts.len(), 3);
}

#[test]
fn expiry_is_inclusive() {
    let v = make_validator();
    let token = build_test_jwt_at("user_1", ISSUER, SECRET, 1000, 4600, None);
    let claims = v.validate_at(&token, 4600).unwrap();
    assert_eq!(claims.exp, Some(4600));
    assert_eq!(claims.iat, Some(1000));
    assert_eq!(v.validate_at(&token, 4601), Err(JwtError::TokenExpired));
}

#[test]
fn negative_times_are_read_back() {
    let v = make_validator();
    let token = build_test_jwt_at("user_1", ISSUER, SECRET, i64::MIN, i64::MAX, None);
    let claims = v.validate_at(&token, 0).unwrap();
    assert_eq!(claims.iat, Some(i64::MIN));
    assert_eq!(claims.exp, Some(i64::MAX));
}

#[test]
fn missing_subject_rejected() {
    let v = make_validator();
    let token = build_test_jwt_at("", ISSUER, SECRET, 0, 10, None);
    assert_eq!(v.validate_at(&token, 5), Err(JwtError::MissingClaim("sub".into())));
}

#[test]
fn missing_audience_rejected() {
    let mut v = OAuthValidator::new();
    v.add_provider(OAuthProvider::hs256("test", ISSUER, SECRET).with_audience("api"));
    let token = build_test_jwt_at("u", ISSUER, SECRET, 0, 10, None);
    assert_eq!(v.validate_at(&token, 5), Err(JwtError::InvalidAudience));
}

fn token_with(header: &str, payload: &str, signature: &str) -> String {
    format!(
        "{}.{}.{}",
        base64url_encode(header.as_bytes()),
        base64url_encode(payload.as_bytes()),
        signature
    )
}

#[test]
fn unsigned_token_rejected() {
    let v = make_validator();
    let payload = "{\"sub\":\"a\",\"iss\":\"https://auth.ulmen.dev\"}";
    let none = Err(JwtError::UnsupportedAlgorithm("none".into()));
    assert_eq!(v.validate_at(&token_with("{\"alg\":\"none\"}", payload, ""), 0), none);
    assert_eq!(v.validate_at(&token_with("{}", payload, "x"), 0), none);
    assert_eq!(v.validate_at(&token_with("{\"alg\":\"ES256\"}", payload, "x"), 0), none);
}

#[test]
fn bad_encodings_rejected() {
    let v = make_validator();
    assert_eq!(v.validate_at("a!.b.c", 0), Err(JwtError::InvalidBase64));
    let not_text = base64url_encode(&[0xff, 0xfe]);
    let header = base64url_encode(b"{\"alg\":\"HS256\"}");
    assert_eq!(
        v.validate_at(&format!("{}.{}.x", header, not_text), 0),
        Err(JwtError::InvalidJson)
    );
    assert_eq!(
        v.validate_at(&format!("{}.{}.x", not_text, header), 0),
        Err(JwtError::InvalidJson)
    );
}

#[test]
fn rs256_checks_form_of_signature() {
    let mut v = OAuthValidator::new();
    v.add_provider(OAuthProvider::rs256("google", "https://accounts.google.com"));
    let payload = "{\"sub\":\"a\",\"iss\":\"https://accounts.google.com\"}";
    let header = "{\"alg\":\"RS256\"}";
    assert!(v.validate_at(&token_with(header, payload, "c2ln"), 0).is_ok());
    assert_eq!(
        v.validate_at(&token_with(header, payload, ""), 0),
        Err(JwtError::SignatureInvalid)
    );
    assert_eq!(
        v.validate_at(&token_with(header, payload, "!"), 0),
        Err(JwtError::InvalidBase64)
    );
}

#[test]
fn provider_is_chosen_by_issuer_and_algorithm() {
    let mut v = OAuthValidator::new();
    assert!(!v.has_providers());
    let token = build_test_jwt_at("u", "b", b"secret-b", 0, 10, None);
    assert_eq!(v.validate_at(&token, 5), Err(JwtError::InvalidIssuer));
    v.add_provider(OAuthProvider::hs256("a", "a", b"secret-a"));
    v.add_provider(OAuthProvider::rs256("b", "b"));
    v.add_provider(OAuthProvider::hs256("c", "c", b"secret-b").trust_issuer("b"));
    assert!(v.has_providers());
    assert_eq!(v.validate_at(&token, 5).unwrap().iss.as_deref(), Some("b"));
    let stranger = build_test_jwt_at("u", "d", b"secret-a", 0, 10, None);
    assert_eq!(v.validate_at(&stranger, 5), Err(JwtError::InvalidIssuer));
}

#[test]
fn extra_claims_go_before_the_first_brace() {
    let token = build_test_jwt_at("a}b", "i", SECRET, 1, 2, Some(&[("k", "v")]));
    let parts: Vec<&str> = token.split('.').collect();
    assert_eq!(
        String::from_utf8(base64url_decode(parts[1]).unwrap()).unwrap(),
        "{\"sub\":\"a,\"k\":\"v\"}b\",\"iss\":\"i\",\"iat\":1,\"exp\":2}"
    );
}

#[test]
fn objects_are_read_as_json() {
    let m = parse_json_str_map(
        b" { \"a\" : \"x:y,z\" , \"b\":2, \"c\":[1, 2], \"d\":null, \"a\":\"w\\u0041\\\"\" } ",
    )
    .unwrap();
    let get = |k: &str| m.get(k).map(|s| s.as_str());
    assert_eq!(get("a"), Some("wA\""));
    assert_eq!(get("b"), Some("2"));
    assert_eq!(get("c"), Some("[1,2]"));
    assert_eq!(get("d"), Some("null"));
    assert_eq!(m.len(), 4);
    assert!(parse_json_str_map(&[0xff]).is_err());
    assert_eq!(parse_json_str_map(b"[1]").unwrap().len(), 0);
    assert_eq!(parse_json_str_map(b"{\"\":\"x\"}").unwrap().len(), 0);
    assert!(parse_json_str_map(b"{\"a\":}").is_err());
}

#[test]
fn groups_are_extracted() {
    let c = parse_claims(br#"{"sub":"u1","groups":["admin","ops"]}"#).unwrap();
    assert_eq!(c.sub, "u1");
    assert_eq!(c.groups, vec!["admin", "ops"]);
    let c = parse_claims(br#"{"sub":"u1, the first","groups":"a, \"b\"","exp":-5}"#).unwrap();
    assert_eq!(c.sub, "u1, the first");
    assert_eq!(c.groups, vec!["a", "b"]);
    assert_eq!(c.exp, Some(-5));
    let c = parse_claims(br#"{"sub":"u1","groups":5,"iat":18446744073709551615}"#).unwrap();
    assert_eq!(c.groups, vec!["5"]);
    assert_eq!(parse_claims(br#"{"groups":true}"#).unwrap().groups, vec!["true"]);
    assert_eq!(parse_claims(br#"{"groups":null}"#).unwrap().groups, vec!["null"]);
    assert!(parse_claims(b"5").unwrap().groups.is_empty());
    assert_eq!(c.iat, None);
    assert_eq!(c.raw.get("iat").map(|s| s.as_str()), Some("18446744073709551615"));
    assert_eq!(parse_claims(b"not json"), Err(JwtError::InvalidJson));
    let c = parse_claims(br#"{"groups":[]}"#).unwrap();
    assert!(c.groups.is_empty() && c.sub.is_empty());
}

#[test]
fn values_that_are_no_objects_have_no_members() {
    let v = make_validator();
    let header = base64url_encode(b"{\"alg\":\"HS256\",\"typ\":\"JWT\"}");
    let input = format!("{}.{}", header, base64url_encode(b"5"));
    let signature = base64url_encode(&hmac_sha256(SECRET, input.as_bytes()));
    assert_eq!(
        v.validate_at(&format!("{}.{}", input, signature), 0),
        Err(JwtError::MissingClaim("sub".into()))
    );
    assert_eq!(
        v.validate_at(&token_with("[]", "{\"sub\":\"a\"}", "x"), 0),
        Err(JwtError::UnsupportedAlgorithm("none".into()))
    );
}

#[test]
fn signatures_are_checked_by_the_algorithm_of_the_header() {
    let (rs, hs) = (JwtAlgorithm::RS256, JwtAlgorithm::HS256);
    let provider = OAuthProvider::hs256("p", "iss", b"s");
    assert_eq!(verify_signature("h", "p", "!", &provider, rs), Err(JwtError::InvalidBase64));
    assert_eq!(verify_signature("h", "p", "", &provider, rs), Err(JwtError::SignatureInvalid));
    let mut mixed = OAuthProvider::rs256("p", "iss");
    assert_eq!(verify_signature("h", "p", "x", &mixed, hs), Err(JwtError::SignatureInvalid));
    mixed.hs256_secret = Some(b"s".to_vec());
    let right = base64url_encode(&hmac_sha256(b"s", b"h.p"));
    assert_eq!(verify_signature("h", "p", &right, &mixed, hs), Ok(()));
    let mut v = OAuthValidator::new();
    v.add_provider(mixed);
    let token = build_test_jwt_at("u", "iss", b"s", 0, 10, None);
    assert_eq!(v.validate_at(&token, 5).unwrap().sub, "u");
    let bad = token_with("{\"alg\":\"RS256\"}", "{\"sub\":\"a\"}", "!");
    assert_eq!(make_validator().validate_at(&bad, 0), Err(JwtError::InvalidBase64));
}

#[test]
fn other_algorithm_does_not_get_past_the_secret() {
    let v = make_validator();
    let payload = format!("{{\"sub\":\"mallory\",\"iss\":\"{}\"}}", ISSUER);
    let token = token_with("{\"alg\":\"RS256\"}", &payload, "c2ln");
    assert_eq!(v.validate_at(&token, 0), Err(JwtError::SignatureInvalid));
    let stranger = token_with("{\"alg\":\"RS256\"}", "{\"sub\":\"mallory\"}", "c2ln");
    assert_eq!(v.validate_at(&stranger, 0), Err(JwtError::SignatureInvalid));
}

#[test]
fn keyed_map_keeps_names_in_order() {
    let mut m: KeyedMap<u32> = KeyedMap::new();
    m.insert("b".into(), 1);
    m.insert("a".into(), 2);
    m.insert("ab".into(), 3);
    m.insert("b".into(), 4);
    assert_eq!(m.len(), 3);
    assert_eq!(m.name_at(0), "a");
    assert_eq!(m.name_at(1), "ab");
    assert_eq!(*m.value_at(2), 4);
    assert_eq!(m.remove("ab"), Some(3));
    assert_eq!(m.remove("ab"), None);
    assert!(m.contains_key("a") && !m.contains_key("ab"));
    assert_eq!(m.clone(), m);
    assert_eq!(m.clone().get("b"), Some(&4));
}

#[test]
fn extra_claims_are_read_back() {
    let v = make_validator();
    let token = build_test_jwt_at(
        "user x, y",
        ISSUER,
        SECRET,
        0,
        10,
        Some(&[("groups", "admin"), ("team", "{core}")]),
    );
    let claims = v.validate_at(&token, 10).unwrap();
    assert_eq!(claims.sub, "user x, y");
    assert_eq!(claims.groups, vec!["admin".to_string()]);
    assert_eq!(claims.raw.get("team").map(|s| s.as_str()), Some("{core}"));
    assert_eq!(claims.raw.len(), 6);
}
