use cf_access_sidecar::validation::assertion::{
    assemble_frame, check_audience, check_claims, frame_token, split_token, validate_token,
    DecodedToken, TokenFrame, ValidationError,
};
use cf_access_sidecar::validation::service_auth::ServiceAuthTokenHeaderMap;
use cf_access_sidecar::validation::token::{ClaimValue, CloudflareAccessCustomClaims};
use cf_access_sidecar::validation::{KeySetSnapshot, SignatureState, VerificationKey};
use cf_access_sidecar::web::{respond, validate};

const HEADER: &str = "{\"alg\":\"RS256\",\"kid\":\"key-1\",\"typ\":\"JWT\"}";
const PAYLOAD: &str = "{\"iss\":\"https://team.example.com\",\"aud\":[\"app-audience\"],\"exp\":2000000000,\"nbf\":1000000000,\"iat\":1000000000,\"sub\":\"user\",\"custom\":{\"team_id\":\"eng-42\"},\"common_name\":\"svc.access\"}";
const ISSUER: &str = "https://team.example.com";
const AUDIENCE: &str = "app-audience";
const EXPIRY: i64 = 2000000000;
const NOT_BEFORE: i64 = 1000000000;
const NOW: i64 = 1500000000;

const MODULUS: [u8; 256] = [
    218, 2, 176, 20, 135, 216, 135, 117, 35, 177, 43, 114, 157, 1, 50, 20,
    254, 47, 232, 82, 141, 195, 72, 123, 219, 192, 163, 136, 142, 200, 49, 166,
    150, 127, 63, 137, 130, 176, 116, 168, 247, 26, 89, 212, 43, 251, 25, 167,
    195, 225, 221, 30, 52, 51, 100, 32, 181, 102, 85, 234, 91, 24, 0, 1,
    212, 255, 230, 69, 177, 73, 39, 95, 218, 157, 204, 205, 145, 60, 66, 72,
    117, 32, 240, 13, 62, 191, 17, 121, 72, 37, 119, 111, 3, 144, 150, 197,
    125, 66, 192, 31, 133, 86, 93, 97, 248, 186, 144, 90, 124, 36, 227, 240,
    59, 22, 35, 109, 73, 172, 211, 237, 188, 96, 66, 121, 232, 160, 127, 111,
    4, 33, 220, 14, 66, 166, 194, 203, 151, 126, 119, 222, 6, 36, 17, 8,
    74, 223, 201, 38, 183, 106, 138, 136, 165, 136, 60, 26, 112, 66, 153, 9,
    69, 58, 127, 58, 89, 88, 87, 70, 125, 15, 4, 112, 40, 156, 221, 46,
    226, 244, 198, 213, 208, 51, 252, 54, 108, 155, 223, 215, 6, 105, 234, 218,
    130, 74, 7, 158, 66, 185, 191, 206, 80, 28, 188, 254, 108, 193, 34, 206,
    71, 143, 132, 75, 37, 250, 52, 189, 180, 127, 52, 34, 65, 175, 57, 106,
    220, 140, 81, 147, 171, 108, 133, 167, 37, 107, 153, 224, 191, 24, 241, 219,
    1, 239, 244, 155, 100, 148, 218, 101, 205, 203, 213, 244, 19, 47, 224, 183,
];

const SIGNATURE: [u8; 256] = [
    215, 164, 177, 107, 11, 237, 0, 22, 86, 52, 187, 34, 222, 212, 237, 36,
    145, 120, 65, 66, 90, 194, 83, 241, 186, 121, 204, 96, 199, 41, 102, 71,
    5, 220, 144, 52, 232, 169, 246, 84, 98, 248, 130, 226, 72, 114, 73, 200,
    252, 138, 247, 184, 159, 64, 236, 112, 238, 25, 230, 151, 130, 201, 43, 196,
    54, 47, 211, 124, 39, 91, 40, 27, 11, 207, 95, 194, 76, 198, 37, 247,
    42, 244, 75, 77, 59, 200, 159, 58, 200, 54, 118, 22, 243, 134, 172, 169,
    70, 176, 84, 52, 28, 180, 143, 225, 35, 53, 86, 112, 131, 115, 153, 236,
    50, 129, 135, 131, 47, 207, 144, 203, 133, 141, 93, 83, 40, 132, 142, 8,
    55, 195, 224, 171, 237, 154, 76, 181, 158, 215, 173, 116, 217, 119, 60, 9,
    232, 254, 18, 18, 157, 156, 82, 161, 115, 243, 161, 194, 160, 236, 137, 28,
    183, 169, 146, 253, 147, 114, 250, 143, 116, 45, 64, 119, 143, 22, 100, 69,
    190, 129, 168, 54, 108, 196, 128, 128, 235, 120, 76, 183, 5, 70, 144, 74,
    223, 145, 205, 175, 41, 134, 156, 112, 234, 27, 214, 164, 176, 55, 25, 17,
    35, 230, 163, 182, 215, 92, 233, 76, 216, 246, 93, 21, 38, 54, 179, 222,
    98, 218, 105, 236, 11, 64, 134, 47, 161, 97, 227, 5, 98, 187, 242, 47,
    55, 196, 123, 226, 41, 246, 89, 81, 179, 104, 84, 220, 253, 73, 136, 183,
];

fn encode(bytes: &[u8]) -> String {
    base64::encode_config(bytes, base64::URL_SAFE_NO_PAD)
}

fn signed_token() -> String {
    format!("{}.{}.{}", encode(HEADER.as_bytes()), encode(PAYLOAD.as_bytes()), encode(&SIGNATURE))
}

fn jwk(kid: &str) -> VerificationKey {
    let document = format!(
        "{{\"kty\":\"RSA\",\"use\":\"sig\",\"kid\":\"{}\",\"n\":\"{}\",\"e\":\"AQAB\"}}",
        kid,
        encode(&MODULUS)
    );
    VerificationKey::new(Some(kid.to_string()), document)
}

fn key_set() -> KeySetSnapshot {
    KeySetSnapshot::new(vec![jwk("key-0"), jwk("key-1")])
}

fn claims() -> CloudflareAccessCustomClaims {
    CloudflareAccessCustomClaims::new(
        vec![("team_id".to_string(), ClaimValue::Text("eng-42".to_string()))],
        Some("svc.access".to_string()),
    )
}

fn decoded() -> DecodedToken {
    DecodedToken {
        algorithm: Some("RS256".to_string()),
        key_id: Some("key-1".to_string()),
        issuer: Some(ISSUER.to_string()),
        audiences: vec![AUDIENCE.to_string()],
        expires_at: Some(EXPIRY),
        not_before: Some(NOT_BEFORE),
        claims: claims(),
    }
}

fn frame() -> TokenFrame {
    frame_token(&signed_token()).unwrap()
}

fn error_of(verdict: Result<CloudflareAccessCustomClaims, ValidationError>) -> ValidationError {
    match verdict {
        Ok(_) => panic!("the assertion was accepted"),
        Err(e) => e,
    }
}

#[test]
fn split_token_finds_three_segments() {
    let segments = split_token("head.body.sig").unwrap();
    assert_eq!(segments.header, "head");
    assert_eq!(segments.payload, "body");
    assert_eq!(segments.signature, "sig");
    assert_eq!(segments.signing_input, "head.body");
}

#[test]
fn split_token_allows_empty_segments() {
    let segments = split_token("..").unwrap();
    assert_eq!(segments.header, "");
    assert_eq!(segments.payload, "");
    assert_eq!(segments.signature, "");
    assert_eq!(segments.signing_input, ".");
}

#[test]
fn split_token_refuses_other_numbers_of_dots() {
    assert!(split_token("").is_none());
    assert!(split_token("abc").is_none());
    assert!(split_token("a.b").is_none());
    assert!(split_token("a.b.c.d").is_none());
    assert!(split_token("....").is_none());
}

#[test]
fn split_token_refuses_text_beyond_ascii() {
    assert!(split_token("h\u{e9}.b.c").is_none());
}

#[test]
fn frame_token_decodes_each_segment() {
    let frame = frame_token("aGVhZA.Ym9keQ.c2ln").unwrap();
    assert_eq!(frame.header, b"head");
    assert_eq!(frame.payload, b"body");
    assert_eq!(frame.signature, b"sig");
    assert_eq!(frame.signing_input, "aGVhZA.Ym9keQ");
}

#[test]
fn frame_token_uses_the_url_safe_alphabet() {
    let frame = frame_token("-_8.-_8.-_8").unwrap();
    assert_eq!(frame.header, vec![0xfb, 0xff]);
    assert!(frame_token("+/8.-_8.-_8").is_none());
}

#[test]
fn frame_token_refuses_bad_characters_and_lengths() {
    assert!(frame_token("aGV!ZA.Ym9keQ.c2ln").is_none());
    assert!(frame_token("aGVhZA.Ym9keQ").is_none());
    assert!(frame_token("a.Ym9keQ.c2ln").is_none());
}

#[test]
fn frame_token_takes_padding_where_it_is_given() {
    let frame = frame_token("aGVhZA==.Ym9keQ.c2ln").unwrap();
    assert_eq!(frame.header, b"head");
    assert_eq!(frame.signing_input, "aGVhZA==.Ym9keQ");
}

#[test]
fn frame_of_signed_token_holds_its_documents() {
    let frame = frame();
    assert_eq!(frame.header, HEADER.as_bytes());
    assert_eq!(frame.payload, PAYLOAD.as_bytes());
    assert_eq!(frame.signature, SIGNATURE.to_vec());
}

#[test]
fn assemble_frame_needs_all_three_segments() {
    let all = assemble_frame("a.b".to_string(), Some(vec![1]), Some(vec![2]), Some(vec![3])).unwrap();
    assert_eq!(all.header, vec![1]);
    assert_eq!(all.payload, vec![2]);
    assert_eq!(all.signature, vec![3]);
    assert_eq!(all.signing_input, "a.b");
    assert!(assemble_frame("a.b".to_string(), None, Some(vec![2]), Some(vec![3])).is_none());
    assert!(assemble_frame("a.b".to_string(), Some(vec![1]), None, Some(vec![3])).is_none());
    assert!(assemble_frame("a.b".to_string(), Some(vec![1]), Some(vec![2]), None).is_none());
}

#[test]
fn check_audience_wants_the_expected_audience_and_no_other() {
    assert!(check_audience(&vec!["a".to_string()], "a"));
    assert!(check_audience(&vec!["a".to_string(), "a".to_string()], "a"));
    assert!(!check_audience(&vec![], "a"));
    assert!(!check_audience(&vec!["b".to_string()], "a"));
    assert!(!check_audience(&vec!["a".to_string(), "b".to_string()], "a"));
}

#[test]
fn check_claims_accepts_good_claims() {
    let accepted = check_claims(decoded(), true, true, AUDIENCE, ISSUER, NOW).unwrap();
    assert_eq!(accepted.claims(), vec![("team_id".to_string(), "eng-42".to_string())]);
    assert_eq!(accepted.get_service_token_id(), Some("svc.access"));
}

#[test]
fn expiry_is_inclusive() {
    assert!(check_claims(decoded(), true, true, AUDIENCE, ISSUER, EXPIRY - 1).is_ok());
    assert_eq!(
        error_of(check_claims(decoded(), true, true, AUDIENCE, ISSUER, EXPIRY)),
        ValidationError::Expired
    );
    assert_eq!(
        error_of(check_claims(decoded(), true, true, AUDIENCE, ISSUER, EXPIRY + 1)),
        ValidationError::Expired
    );
}

#[test]
fn not_before_is_the_first_valid_second() {
    assert_eq!(
        error_of(check_claims(decoded(), true, true, AUDIENCE, ISSUER, NOT_BEFORE - 1)),
        ValidationError::NotYetValid
    );
    assert!(check_claims(decoded(), true, true, AUDIENCE, ISSUER, NOT_BEFORE).is_ok());
    let mut open = decoded();
    open.not_before = None;
    assert!(check_claims(open, true, true, AUDIENCE, ISSUER, i64::MIN).is_ok());
}

#[test]
fn issuer_and_audience_must_match() {
    assert_eq!(
        error_of(check_claims(decoded(), true, true, AUDIENCE, "https://other.example.com", NOW)),
        ValidationError::IssuerMismatch
    );
    assert_eq!(
        error_of(check_claims(decoded(), true, true, "other-audience", ISSUER, NOW)),
        ValidationError::AudienceMismatch
    );
}

#[test]
fn the_first_failing_check_decides() {
    let mut all_wrong = decoded();
    all_wrong.issuer = Some("https://other.example.com".to_string());
    all_wrong.audiences = vec![];
    all_wrong.not_before = Some(EXPIRY + 10);
    assert_eq!(
        error_of(check_claims(decoded(), false, false, "x", "y", EXPIRY)),
        ValidationError::UnknownSigningKey
    );
    assert_eq!(
        error_of(check_claims(decoded(), true, false, "x", "y", EXPIRY)),
        ValidationError::InvalidSignature
    );
    assert_eq!(
        error_of(check_claims(all_wrong, true, true, AUDIENCE, ISSUER, EXPIRY)),
        ValidationError::Expired
    );
    let mut late = decoded();
    late.not_before = Some(NOW + 1);
    assert_eq!(
        error_of(check_claims(late, true, true, "x", "y", NOW)),
        ValidationError::NotYetValid
    );
    assert_eq!(
        error_of(check_claims(decoded(), true, true, "x", "y", NOW)),
        ValidationError::IssuerMismatch
    );
}

#[test]
fn signed_token_is_accepted() {
    let keys = key_set();
    let frame = frame();
    let accepted =
        validate_token(Some(&keys), Some(&frame), Some(decoded()), AUDIENCE, ISSUER, NOW).unwrap();
    assert_eq!(accepted.claims(), vec![("team_id".to_string(), "eng-42".to_string())]);
}

#[test]
fn validation_is_repeatable() {
    let keys = key_set();
    let frame = frame();
    let first =
        validate_token(Some(&keys), Some(&frame), Some(decoded()), AUDIENCE, ISSUER, NOW).unwrap();
    let second =
        validate_token(Some(&keys), Some(&frame), Some(decoded()), AUDIENCE, ISSUER, NOW).unwrap();
    assert_eq!(first.claims(), second.claims());
    assert_eq!(first.get_service_token_id(), second.get_service_token_id());
}

#[test]
fn without_a_snapshot_nothing_is_ready() {
    let frame = frame();
    assert_eq!(
        error_of(validate_token(None, Some(&frame), Some(decoded()), AUDIENCE, ISSUER, NOW)),
        ValidationError::NotReady
    );
    assert_eq!(
        error_of(validate_token(None, None, None, AUDIENCE, ISSUER, NOW)),
        ValidationError::NotReady
    );
}

#[test]
fn without_frame_or_documents_the_token_is_malformed() {
    let keys = key_set();
    let frame = frame();
    assert_eq!(
        error_of(validate_token(Some(&keys), None, Some(decoded()), AUDIENCE, ISSUER, NOW)),
        ValidationError::MalformedToken
    );
    assert_eq!(
        error_of(validate_token(Some(&keys), Some(&frame), None, AUDIENCE, ISSUER, NOW)),
        ValidationError::MalformedToken
    );
}

#[test]
fn documents_that_are_not_complete_are_malformed() {
    let keys = key_set();
    let frame = frame();
    let mut no_algorithm = decoded();
    no_algorithm.algorithm = None;
    let mut no_issuer = decoded();
    no_issuer.issuer = None;
    let mut no_expiry = decoded();
    no_expiry.expires_at = None;
    for incomplete in [no_algorithm, no_issuer, no_expiry] {
        assert_eq!(
            error_of(check_claims(incomplete.clone(), false, false, AUDIENCE, ISSUER, NOW)),
            ValidationError::MalformedToken
        );
        assert_eq!(
            error_of(validate_token(
                Some(&keys),
                Some(&frame),
                Some(incomplete),
                AUDIENCE,
                ISSUER,
                NOW
            )),
            ValidationError::MalformedToken
        );
    }
}

#[test]
fn key_absent_from_the_snapshot_is_unknown() {
    let keys = KeySetSnapshot::new(vec![jwk("key-0"), jwk("key-2")]);
    let frame = frame();
    assert_eq!(
        error_of(validate_token(Some(&keys), Some(&frame), Some(decoded()), AUDIENCE, ISSUER, NOW)),
        ValidationError::UnknownSigningKey
    );
    let empty = KeySetSnapshot::new(vec![]);
    assert_eq!(
        error_of(validate_token(Some(&empty), Some(&frame), Some(decoded()), AUDIENCE, ISSUER, NOW)),
        ValidationError::UnknownSigningKey
    );
    let mut unnamed = decoded();
    unnamed.key_id = None;
    assert_eq!(
        error_of(validate_token(Some(&key_set()), Some(&frame), Some(unnamed), AUDIENCE, ISSUER, NOW)),
        ValidationError::UnknownSigningKey
    );
}

#[test]
fn tampered_signature_is_invalid() {
    let keys = key_set();
    let mut frame = frame();
    frame.signature[10] ^= 1;
    assert_eq!(
        error_of(validate_token(Some(&keys), Some(&frame), Some(decoded()), AUDIENCE, ISSUER, NOW)),
        ValidationError::InvalidSignature
    );
}

#[test]
fn tampered_payload_is_invalid() {
    let keys = key_set();
    let mut frame = frame();
    frame.signing_input.push('A');
    assert_eq!(
        error_of(validate_token(Some(&keys), Some(&frame), Some(decoded()), AUDIENCE, ISSUER, NOW)),
        ValidationError::InvalidSignature
    );
}

#[test]
fn other_algorithms_are_invalid() {
    let keys = key_set();
    let frame = frame();
    let mut other = decoded();
    other.algorithm = Some("PS256".to_string());
    assert_eq!(
        error_of(validate_token(Some(&keys), Some(&frame), Some(other), AUDIENCE, ISSUER, NOW)),
        ValidationError::InvalidSignature
    );
    let mut none = decoded();
    none.algorithm = Some("none".to_string());
    assert_eq!(
        error_of(validate_token(Some(&keys), Some(&frame), Some(none), AUDIENCE, ISSUER, NOW)),
        ValidationError::InvalidSignature
    );
}

#[test]
fn key_document_that_is_no_key_accepts_nothing() {
    let keys = KeySetSnapshot::new(vec![VerificationKey::new(
        Some("key-1".to_string()),
        "not a key".to_string(),
    )]);
    let frame = frame();
    assert_eq!(
        error_of(validate_token(Some(&keys), Some(&frame), Some(decoded()), AUDIENCE, ISSUER, NOW)),
        ValidationError::InvalidSignature
    );
}

#[test]
fn expired_signed_token_is_refused_at_its_expiry() {
    let keys = key_set();
    let frame = frame();
    assert!(
        validate_token(Some(&keys), Some(&frame), Some(decoded()), AUDIENCE, ISSUER, EXPIRY - 1)
            .is_ok()
    );
    assert_eq!(
        error_of(validate_token(Some(&keys), Some(&frame), Some(decoded()), AUDIENCE, ISSUER, EXPIRY)),
        ValidationError::Expired
    );
}

fn ready_state() -> SignatureState {
    let mut state = SignatureState::from_issuer_url(ISSUER.to_string()).unwrap();
    state.publish(key_set());
    state
}

fn table() -> ServiceAuthTokenHeaderMap {
    ServiceAuthTokenHeaderMap::from_mapping_text("svc.access:\n  X-Role: robot\n").unwrap()
}

#[test]
fn validate_answers_200_with_the_mapped_headers() {
    let frame = frame();
    let response = validate(&ready_state(), &table(), AUDIENCE, Some(&frame), Some(decoded()), NOW);
    assert_eq!(response.status, 200);
    let headers = response.headers.unwrap();
    assert_eq!(headers.len(), 2);
    assert_eq!(headers.get("x-team-id").unwrap(), "eng-42");
    assert_eq!(headers.get("x-role").unwrap(), "robot");
}

#[test]
fn validate_answers_500_before_the_first_key_set() {
    let state = SignatureState::from_issuer_url(ISSUER.to_string()).unwrap();
    let frame = frame();
    let response = validate(&state, &table(), AUDIENCE, Some(&frame), Some(decoded()), NOW);
    assert_eq!(response.status, 500);
    assert!(response.headers.is_none());
}

#[test]
fn validate_answers_401_to_every_refusal() {
    let state = ready_state();
    let frame = frame();
    let malformed = validate(&state, &table(), AUDIENCE, None, None, NOW);
    assert_eq!(malformed.status, 401);
    assert!(malformed.headers.is_none());
    let wrong_audience = validate(&state, &table(), "other", Some(&frame), Some(decoded()), NOW);
    assert_eq!(wrong_audience.status, 401);
    assert!(wrong_audience.headers.is_none());
    let expired = validate(&state, &table(), AUDIENCE, Some(&frame), Some(decoded()), EXPIRY);
    assert_eq!(expired.status, 401);
    assert!(expired.headers.is_none());
}

#[test]
fn validate_checks_the_issuer_of_the_state() {
    let mut state = SignatureState::from_issuer_url("https://other.example.com".to_string()).unwrap();
    state.publish(key_set());
    let frame = frame();
    let response = validate(&state, &table(), AUDIENCE, Some(&frame), Some(decoded()), NOW);
    assert_eq!(response.status, 401);
}

#[test]
fn respond_refuses_claims_that_no_header_map_takes() {
    let many: Vec<(String, ClaimValue)> = (0..40000)
        .map(|i| (format!("c{}", i), ClaimValue::Text("v".to_string())))
        .collect();
    let response = respond(Ok(CloudflareAccessCustomClaims::new(many, None)), &table());
    assert_eq!(response.status, 401);
    assert!(response.headers.is_none());
}

#[test]
fn respond_maps_each_verdict_to_its_status() {
    let table = table();
    assert_eq!(respond(Err(ValidationError::NotReady), &table).status, 500);
    for e in [
        ValidationError::MalformedToken,
        ValidationError::UnknownSigningKey,
        ValidationError::InvalidSignature,
        ValidationError::Expired,
        ValidationError::NotYetValid,
        ValidationError::IssuerMismatch,
        ValidationError::AudienceMismatch,
    ] {
        let response = respond(Err(e), &table);
        assert_eq!(response.status, 401);
        assert!(response.headers.is_none());
    }
    let accepted = respond(Ok(claims()), &table);
    assert_eq!(accepted.status, 200);
    assert_eq!(accepted.headers.unwrap().get("x-role").unwrap(), "robot");
}
