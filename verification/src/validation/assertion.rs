//! The compact form of a signed assertion, and the checks that turn one
//! into verified claims.
//!
//! The checks are this library's own. The signature is judged by
//! `openidconnect`, but its `IdTokenVerifier` is not asked for a verdict,
//! and the two differ on purpose:
//! - the order of the checks is the key, the signature, the expiry, the
//!   start of validity, the issuer, the audience, where the verifier
//!   looks at issuer and audience first;
//! - the start of validity (`nbf`) is checked, which the verifier leaves
//!   alone;
//! - an assertion must say its algorithm, its issuer and its expiry and no
//!   more, where the verifier also asks for `sub`, `iat` and `aud`; one
//!   without audience is refused for its audience;
//! - an assertion without key id finds no key, where the verifier takes
//!   the one key of a set that has just one;
//! - a key is found by its id alone and the first of that id counts; a key
//!   that does not suit the algorithm then fails the signature, where the
//!   verifier finds no key or finds too many;
//! - the header's `typ`, `cty` and `crit` are not looked at.
//!
//! As with the verifier, RS256 is the one algorithm accepted, every
//! audience named must be the expected one, and the nonce is not looked at.

use crate::text::same_text;
use crate::validation::token::{CloudflareAccessCustomClaims, CustomClaimsView};
use crate::validation::{KeySetSnapshot, KeyView};
use openidconnect::JsonWebKey;
use vstd::prelude::*;
use vstd::utf8::is_ascii_chars;

verus! {

/// Why an assertion was not accepted.
#[derive(Debug, Clone, Copy, PartialEq, Eq)]
pub enum ValidationError {
    /// No key set has been published yet.
    NotReady,
    /// The assertion is not a signed token in compact form.
    MalformedToken,
    /// No key of the snapshot has the key id that the assertion names.
    UnknownSigningKey,
    /// The signature does not verify under the named key.
    InvalidSignature,
    /// The assertion has expired.
    Expired,
    /// The assertion is not valid yet.
    NotYetValid,
    /// The assertion was issued by someone else.
    IssuerMismatch,
    /// The assertion was issued for another audience.
    AudienceMismatch,
}

/// The three segments of a compact token, still encoded, and the part that
/// the signature covers.
#[derive(Debug, Clone)]
pub struct TokenSegments {
    pub header: String,
    pub payload: String,
    pub signature: String,
    pub signing_input: String,
}

/// The mathematical value of [`TokenSegments`].
pub struct TokenSegmentsView {
    pub header: Seq<char>,
    pub payload: Seq<char>,
    pub signature: Seq<char>,
    pub signing_input: Seq<char>,
}

impl View for TokenSegments {
    type V = TokenSegmentsView;

    open spec fn view(&self) -> TokenSegmentsView {
        TokenSegmentsView {
            header: self.header@,
            payload: self.payload@,
            signature: self.signature@,
            signing_input: self.signing_input@,
        }
    }
}

/// The token has exactly two dots, at `first` and `second`.
pub open spec fn splits_at(token: Seq<char>, first: int, second: int) -> bool {
    &&& 0 <= first < second < token.len()
    &&& token[first] == '.'
    &&& token[second] == '.'
    &&& forall|i: int| 0 <= i < token.len() && i != first && i != second ==> token[i] != '.'
}

/// The token is in compact form: ASCII text of three segments, separated by
/// two dots.
pub open spec fn is_compact(token: Seq<char>) -> bool {
    is_ascii_chars(token) && exists|first: int, second: int| splits_at(token, first, second)
}

/// The segments of a token whose dots are at `first` and `second`.
pub open spec fn segments_at(token: Seq<char>, first: int, second: int) -> TokenSegmentsView {
    TokenSegmentsView {
        header: token.subrange(0, first),
        payload: token.subrange(first + 1, second),
        signature: token.subrange(second + 1, token.len() as int),
        signing_input: token.subrange(0, second),
    }
}

/// The segments of a token in compact form; `None` for any other text.
pub open spec fn token_segments(token: Seq<char>) -> Option<TokenSegmentsView> {
    if is_compact(token) {
        let (first, second) = choose|first: int, second: int| splits_at(token, first, second);
        Some(segments_at(token, first, second))
    } else {
        None
    }
}

/// A token splits in one way only.
pub proof fn lemma_split_is_unique(token: Seq<char>, a: int, b: int, c: int, d: int)
    requires
        splits_at(token, a, b),
        splits_at(token, c, d),
    ensures
        a == c,
        b == d,
{
}

/// Splits a token in compact form into its segments.
pub fn split_token(token: &str) -> (segments: Option<TokenSegments>)
    ensures
        match segments {
            Some(s) => token_segments(token@) == Some(s@),
            None => token_segments(token@) is None,
        },
{
    if !token.is_ascii() {
        return None;
    }
    let n = token.unicode_len();
    let mut first: Option<usize> = None;
    let mut second: Option<usize> = None;
    let mut i: usize = 0;
    while i < n
        invariant
            i <= n,
            n == token@.len(),
            token.is_ascii(),
            is_ascii_chars(token@),
            first matches Some(a) ==> a < i && token@[a as int] == '.',
            second matches Some(b) ==> first is Some && first.unwrap() < b < i && token@[b as int]
                == '.',
            forall|j: int|
                0 <= j < i && token@[j] == '.' ==> first == Some(j as usize) || second == Some(
                    j as usize,
                ),
        decreases n - i,
    {
        let byte = token.get_ascii(i);
        assert(byte == 46u8 <==> token@[i as int] == '.') by {
            assert('.' as u8 == 46u8);
            assert('\0' <= token@[i as int] <= '\u{7f}');
        }
        if byte == 46u8 {
            if first.is_none() {
                first = Some(i);
            } else if second.is_none() {
                second = Some(i);
            } else {
                proof {
                    let a = first.unwrap() as int;
                    let b = second.unwrap() as int;
                    assert forall|c: int, d: int| !splits_at(token@, c, d) by {
                        if splits_at(token@, c, d) {
                            assert(a == c || a == d);
                            assert(b == c || b == d);
                            assert(i == c || i == d);
                        }
                    }
                }
                return None;
            }
        }
        i += 1;
    }
    match (first, second) {
        (Some(a), Some(b)) => {
            assert(splits_at(token@, a as int, b as int));
            proof {
                let (c, d) = choose|c: int, d: int| splits_at(token@, c, d);
                lemma_split_is_unique(token@, a as int, b as int, c, d);
            }
            let header = String::from_str(token.substring_ascii(0, a));
            let payload = String::from_str(token.substring_ascii(a + 1, b));
            let signature = String::from_str(token.substring_ascii(b + 1, n));
            let signing_input = String::from_str(token.substring_ascii(0, b));
            Some(TokenSegments { header, payload, signature, signing_input })
        },
        _ => {
            proof {
                assert forall|c: int, d: int| !splits_at(token@, c, d) by {
                    if splits_at(token@, c, d) {
                        assert(first == Some(c as usize) || second == Some(c as usize));
                        assert(first == Some(d as usize) || second == Some(d as usize));
                    }
                }
            }
            None
        },
    }
}

/// The bytes that a text in URL-safe base64 stands for, as the `base64`
/// crate decodes it: padding may be there or not, and bits left over at the
/// end are let pass. `None` where the text is no such encoding.
pub uninterp spec fn base64url_decoded(text: Seq<char>) -> Option<Seq<u8>>;

/// `base64::decode_config` with the URL-safe alphabet and trailing bits
/// allowed.
#[verifier::external_body]
fn decode_base64url(text: &str) -> (bytes: Option<Vec<u8>>)
    ensures
        match bytes {
            Some(decoded) => base64url_decoded(text@) == Some(decoded@),
            None => base64url_decoded(text@) is None,
        },
{
    base64::decode_config(text, base64::URL_SAFE_NO_PAD.decode_allow_trailing_bits(true)).ok()
}

/// A token with its segments decoded: the header and payload documents,
/// the signature, and the text that the signature covers.
#[derive(Debug, Clone)]
pub struct TokenFrame {
    pub header: Vec<u8>,
    pub payload: Vec<u8>,
    pub signature: Vec<u8>,
    pub signing_input: String,
}

/// The mathematical value of [`TokenFrame`].
pub struct TokenFrameView {
    pub header: Seq<u8>,
    pub payload: Seq<u8>,
    pub signature: Seq<u8>,
    pub signing_input: Seq<char>,
}

impl View for TokenFrame {
    type V = TokenFrameView;

    open spec fn view(&self) -> TokenFrameView {
        TokenFrameView {
            header: self.header@,
            payload: self.payload@,
            signature: self.signature@,
            signing_input: self.signing_input@,
        }
    }
}

/// The frame of segments whose decodings are given: there is one only if
/// all three segments decode.
pub open spec fn frame_of(
    signing_input: Seq<char>,
    header: Option<Seq<u8>>,
    payload: Option<Seq<u8>>,
    signature: Option<Seq<u8>>,
) -> Option<TokenFrameView> {
    if header is Some && payload is Some && signature is Some {
        Some(
            TokenFrameView {
                header: header.unwrap(),
                payload: payload.unwrap(),
                signature: signature.unwrap(),
                signing_input,
            },
        )
    } else {
        None
    }
}

/// The frame of a token: its segments, decoded.
pub open spec fn token_frame(token: Seq<char>) -> Option<TokenFrameView> {
    match token_segments(token) {
        Some(segments) => frame_of(
            segments.signing_input,
            base64url_decoded(segments.header),
            base64url_decoded(segments.payload),
            base64url_decoded(segments.signature),
        ),
        None => None,
    }
}

/// The view of a frame that may be missing.
pub open spec fn frame_view(frame: Option<TokenFrame>) -> Option<TokenFrameView> {
    match frame {
        Some(f) => Some(f@),
        None => None,
    }
}

/// The view of bytes that may be missing.
pub open spec fn bytes_view(bytes: Option<Vec<u8>>) -> Option<Seq<u8>> {
    match bytes {
        Some(b) => Some(b@),
        None => None,
    }
}

/// Puts a frame together from the decodings of the three segments.
pub fn assemble_frame(
    signing_input: String,
    header: Option<Vec<u8>>,
    payload: Option<Vec<u8>>,
    signature: Option<Vec<u8>>,
) -> (frame: Option<TokenFrame>)
    ensures
        frame_view(frame) == frame_of(
            signing_input@,
            bytes_view(header),
            bytes_view(payload),
            bytes_view(signature),
        ),
{
    match (header, payload, signature) {
        (Some(header), Some(payload), Some(signature)) => Some(
            TokenFrame { header, payload, signature, signing_input },
        ),
        _ => None,
    }
}

/// Splits a token and decodes its segments.
pub fn frame_token(token: &str) -> (frame: Option<TokenFrame>)
    ensures
        frame_view(frame) == token_frame(token@),
{
    match split_token(token) {
        Some(segments) => {
            let header = decode_base64url(segments.header.as_str());
            let payload = decode_base64url(segments.payload.as_str());
            let signature = decode_base64url(segments.signature.as_str());
            assemble_frame(segments.signing_input, header, payload, signature)
        },
        None => None,
    }
}

/// What the header and the payload of an assertion say, as far as the
/// checks read them. A field that a document does not have is `None`.
#[derive(Debug, Clone)]
pub struct DecodedToken {
    /// The signature algorithm that the header names.
    pub algorithm: Option<String>,
    /// The id of the signing key, if the header names one.
    pub key_id: Option<String>,
    /// Who issued the assertion.
    pub issuer: Option<String>,
    /// For whom it was issued: every audience that the payload names.
    pub audiences: Vec<String>,
    /// When it expires, in seconds since the epoch.
    pub expires_at: Option<i64>,
    /// From when it is valid, in seconds since the epoch, if it says so.
    pub not_before: Option<i64>,
    /// The custom claims and the service token.
    pub claims: CloudflareAccessCustomClaims,
}

/// The mathematical value of [`DecodedToken`].
pub struct DecodedTokenView {
    pub algorithm: Option<Seq<char>>,
    pub key_id: Option<Seq<char>>,
    pub issuer: Option<Seq<char>>,
    pub audiences: Seq<Seq<char>>,
    pub expires_at: Option<int>,
    pub not_before: Option<int>,
    pub claims: CustomClaimsView,
}

impl View for DecodedToken {
    type V = DecodedTokenView;

    open spec fn view(&self) -> DecodedTokenView {
        DecodedTokenView {
            algorithm: match self.algorithm {
                Some(name) => Some(name@),
                None => None,
            },
            key_id: match self.key_id {
                Some(id) => Some(id@),
                None => None,
            },
            issuer: match self.issuer {
                Some(url) => Some(url@),
                None => None,
            },
            audiences: self.audiences.deep_view(),
            expires_at: match self.expires_at {
                Some(t) => Some(t as int),
                None => None,
            },
            not_before: match self.not_before {
                Some(t) => Some(t as int),
                None => None,
            },
            claims: self.claims@,
        }
    }
}

/// The view of a decoded token that may be missing.
pub open spec fn decoded_view(decoded: Option<DecodedToken>) -> Option<DecodedTokenView> {
    match decoded {
        Some(d) => Some(d@),
        None => None,
    }
}

/// Whether the key with the given JWK document accepts the signature of
/// the text, by RSASSA-PKCS1-v1_5 with SHA-256.
pub uninterp spec fn rs256_accepts(jwk: Seq<char>, signing_input: Seq<char>, signature: Seq<u8>) -> bool;

/// `JsonWebKey::verify_signature` of `CoreJsonWebKey`, for the algorithm
/// RS256, on the key that the JWK document describes. A document that is
/// no key accepts nothing.
#[verifier::external_body]
fn rs256_signature_ok(jwk: &str, signing_input: &str, signature: &[u8]) -> (accepted: bool)
    ensures
        accepted == rs256_accepts(jwk@, signing_input@, signature@),
{
    match serde_json::from_str::<openidconnect::core::CoreJsonWebKey>(jwk) {
        Ok(key) => key.verify_signature(
            &openidconnect::core::CoreJwsSigningAlgorithm::RsaSsaPkcs1V15Sha256,
            signing_input.as_bytes(),
            signature,
        ).is_ok(),
        Err(_) => false,
    }
}

/// The name of the one signature algorithm that is accepted.
pub open spec fn accepted_algorithm() -> Seq<char> {
    seq!['R', 'S', '2', '5', '6']
}

/// The audience claim names the expected audience and no other.
pub open spec fn audience_matches(audiences: Seq<Seq<char>>, audience: Seq<char>) -> bool {
    audiences.len() > 0 && forall|i: int| 0 <= i < audiences.len() ==> audiences[i] == audience
}

/// The position of the first key with the given id. An assertion that
/// names no key id finds no key.
pub open spec fn key_index(keys: Seq<KeyView>, key_id: Option<Seq<char>>) -> Option<int> {
    if key_id is Some && exists|i: int| 0 <= i < keys.len() && keys[i].key_id == key_id {
        Some(choose|i: int| first_with_id(keys, key_id, i))
    } else {
        None
    }
}

/// `i` is the position of the first key with the given id.
pub open spec fn first_with_id(keys: Seq<KeyView>, key_id: Option<Seq<char>>, i: int) -> bool {
    &&& 0 <= i < keys.len()
    &&& keys[i].key_id == key_id
    &&& forall|j: int| 0 <= j < i ==> keys[j].key_id != key_id
}

/// The documents say what no assertion may lack: the signature algorithm,
/// the issuer and the expiry.
pub open spec fn is_complete(decoded: DecodedTokenView) -> bool {
    decoded.algorithm is Some && decoded.issuer is Some && decoded.expires_at is Some
}

/// The verdict on decoded claims, once it is known whether the signing
/// key was found and whether the signature verifies. The checks run in
/// this order, and the first that fails decides: the completeness of the
/// documents, the key, the signature, the expiry (an assertion expires at
/// the very second it names), the start of validity, the issuer, the
/// audience. The nonce is not looked at.
pub open spec fn claims_verdict(
    decoded: DecodedTokenView,
    key_known: bool,
    signature_ok: bool,
    audience: Seq<char>,
    issuer: Seq<char>,
    now: int,
) -> Result<CustomClaimsView, ValidationError> {
    if !is_complete(decoded) {
        Err(ValidationError::MalformedToken)
    } else if !key_known {
        Err(ValidationError::UnknownSigningKey)
    } else if !signature_ok {
        Err(ValidationError::InvalidSignature)
    } else if now >= decoded.expires_at.unwrap() {
        Err(ValidationError::Expired)
    } else if decoded.not_before is Some && now < decoded.not_before.unwrap() {
        Err(ValidationError::NotYetValid)
    } else if decoded.issuer != Some(issuer) {
        Err(ValidationError::IssuerMismatch)
    } else if !audience_matches(decoded.audiences, audience) {
        Err(ValidationError::AudienceMismatch)
    } else {
        Ok(decoded.claims)
    }
}

/// Whether the key accepts the assertion's signature: the header must name
/// RS256, and the key must accept the signature of the signing input.
pub open spec fn signature_accepted(
    key: KeyView,
    algorithm: Option<Seq<char>>,
    frame: TokenFrameView,
) -> bool {
    algorithm == Some(accepted_algorithm()) && rs256_accepts(
        key.jwk,
        frame.signing_input,
        frame.signature,
    )
}

/// The verdict on an assertion: without a snapshot nothing can be
/// checked; without a frame or decoded documents the assertion is
/// malformed, as it is with documents that are not complete; otherwise
/// the key is looked up, the signature checked, and the claims judged.
pub open spec fn validation_verdict(
    snapshot: Option<Seq<KeyView>>,
    frame: Option<TokenFrameView>,
    decoded: Option<DecodedTokenView>,
    audience: Seq<char>,
    issuer: Seq<char>,
    now: int,
) -> Result<CustomClaimsView, ValidationError> {
    if snapshot is None {
        Err(ValidationError::NotReady)
    } else if frame is None || decoded is None {
        Err(ValidationError::MalformedToken)
    } else {
        let keys = snapshot.unwrap();
        let found = key_index(keys, decoded.unwrap().key_id);
        claims_verdict(
            decoded.unwrap(),
            found is Some,
            found is Some && signature_accepted(
                keys[found.unwrap()],
                decoded.unwrap().algorithm,
                frame.unwrap(),
            ),
            audience,
            issuer,
            now,
        )
    }
}

/// The view of a verdict.
pub open spec fn verdict_view(verdict: Result<CloudflareAccessCustomClaims, ValidationError>) -> Result<
    CustomClaimsView,
    ValidationError,
> {
    match verdict {
        Ok(claims) => Ok(claims@),
        Err(e) => Err(e),
    }
}

/// Whether the audience claim names the expected audience and no other.
pub fn check_audience(audiences: &Vec<String>, audience: &str) -> (matches: bool)
    ensures
        matches == audience_matches(audiences.deep_view(), audience@),
{
    if audiences.len() == 0 {
        return false;
    }
    let mut i: usize = 0;
    while i < audiences.len()
        invariant
            i <= audiences.len(),
            audiences.len() == audiences.deep_view().len(),
            forall|j: int| 0 <= j < i ==> audiences.deep_view()[j] == audience@,
        decreases audiences.len() - i,
    {
        assert(audiences.deep_view()[i as int] == audiences[i as int]@);
        if !same_text(audiences[i].as_str(), audience) {
            return false;
        }
        i += 1;
    }
    true
}

/// Judges decoded claims, given whether the signing key was found and
/// whether the signature verifies.
pub fn check_claims(
    decoded: DecodedToken,
    key_known: bool,
    signature_ok: bool,
    audience: &str,
    issuer: &str,
    now: i64,
) -> (verdict: Result<CloudflareAccessCustomClaims, ValidationError>)
    ensures
        verdict_view(verdict) == claims_verdict(
            decoded@,
            key_known,
            signature_ok,
            audience@,
            issuer@,
            now as int,
        ),
{
    let (issued_by, expires_at) = match (&decoded.algorithm, &decoded.issuer, decoded.expires_at) {
        (Some(_), Some(issued_by), Some(expires_at)) => (issued_by, expires_at),
        _ => {
            return Err(ValidationError::MalformedToken);
        },
    };
    if !key_known {
        return Err(ValidationError::UnknownSigningKey);
    }
    if !signature_ok {
        return Err(ValidationError::InvalidSignature);
    }
    if now >= expires_at {
        return Err(ValidationError::Expired);
    }
    if let Some(not_before) = decoded.not_before {
        if now < not_before {
            return Err(ValidationError::NotYetValid);
        }
    }
    if !same_text(issued_by.as_str(), issuer) {
        return Err(ValidationError::IssuerMismatch);
    }
    if !check_audience(&decoded.audiences, audience) {
        return Err(ValidationError::AudienceMismatch);
    }
    Ok(decoded.claims)
}

/// The view of a snapshot that may be missing.
pub open spec fn snapshot_view(snapshot: Option<&KeySetSnapshot>) -> Option<Seq<KeyView>> {
    match snapshot {
        Some(s) => Some(s@),
        None => None,
    }
}

/// The view of a frame that may be missing, by reference.
pub open spec fn frame_ref_view(frame: Option<&TokenFrame>) -> Option<TokenFrameView> {
    match frame {
        Some(f) => Some(f@),
        None => None,
    }
}

/// Validates an assertion against a snapshot of the signing keys.
///
/// `frame` is the assertion's frame and `decoded` what its header and
/// payload documents say; either is `None` where the assertion has none.
pub fn validate_token(
    snapshot: Option<&KeySetSnapshot>,
    frame: Option<&TokenFrame>,
    decoded: Option<DecodedToken>,
    audience: &str,
    issuer: &str,
    now: i64,
) -> (verdict: Result<CloudflareAccessCustomClaims, ValidationError>)
    ensures
        verdict_view(verdict) == validation_verdict(
            snapshot_view(snapshot),
            frame_ref_view(frame),
            decoded_view(decoded),
            audience@,
            issuer@,
            now as int,
        ),
{
    let keys = match snapshot {
        Some(keys) => keys,
        None => {
            return Err(ValidationError::NotReady);
        },
    };
    let (frame, decoded) = match (frame, decoded) {
        (Some(frame), Some(decoded)) => (frame, decoded),
        _ => {
            return Err(ValidationError::MalformedToken);
        },
    };
    let algorithm = match &decoded.algorithm {
        Some(name) => name,
        None => {
            return Err(ValidationError::MalformedToken);
        },
    };
    let found = keys.find_key(&decoded.key_id);
    let signature_ok = match found {
        Some(index) => {
            let rs256 = same_text(algorithm.as_str(), "RS256");
            proof {
                reveal_strlit("RS256");
                assert("RS256"@ =~= accepted_algorithm());
            }
            rs256 && rs256_signature_ok(
                keys.key(index).jwk(),
                frame.signing_input.as_str(),
                frame.signature.as_slice(),
            )
        },
        None => false,
    };
    check_claims(decoded, found.is_some(), signature_ok, audience, issuer, now)
}

/// Validation keeps no state: two verdicts on the same assertion, audience,
/// issuer, snapshot and time are the same verdict.
pub proof fn lemma_validation_is_deterministic(
    snapshot: Option<&KeySetSnapshot>,
    frame: Option<&TokenFrame>,
    decoded: Option<DecodedToken>,
    audience: Seq<char>,
    issuer: Seq<char>,
    now: int,
    first: Result<CloudflareAccessCustomClaims, ValidationError>,
    second: Result<CloudflareAccessCustomClaims, ValidationError>,
)
    requires
        verdict_view(first) == validation_verdict(
            snapshot_view(snapshot),
            frame_ref_view(frame),
            decoded_view(decoded),
            audience,
            issuer,
            now,
        ),
        verdict_view(second) == validation_verdict(
            snapshot_view(snapshot),
            frame_ref_view(frame),
            decoded_view(decoded),
            audience,
            issuer,
            now,
        ),
    ensures
        verdict_view(first) == verdict_view(second),
{
}

/// An assertion that names a key which the snapshot does not hold is
/// refused for its unknown key, whatever its signature, its claims and the
/// time.
pub proof fn lemma_unknown_key_is_refused(
    keys: Seq<KeyView>,
    frame: TokenFrameView,
    decoded: DecodedTokenView,
    audience: Seq<char>,
    issuer: Seq<char>,
    now: int,
)
    requires
        is_complete(decoded),
        forall|i: int| 0 <= i < keys.len() ==> keys[i].key_id != decoded.key_id,
    ensures
        validation_verdict(Some(keys), Some(frame), Some(decoded), audience, issuer, now) == Err::<
            CustomClaimsView,
            ValidationError,
        >(ValidationError::UnknownSigningKey),
{
}

/// The expiry is an inclusive bound: an assertion with complete
/// documents, a known key and a good signature is refused as expired
/// exactly from the second that its expiry names.
pub proof fn lemma_expiry_is_inclusive(
    decoded: DecodedTokenView,
    audience: Seq<char>,
    issuer: Seq<char>,
    now: int,
)
    requires
        is_complete(decoded),
    ensures
        claims_verdict(decoded, true, true, audience, issuer, now) == Err::<
            CustomClaimsView,
            ValidationError,
        >(ValidationError::Expired) <==> now >= decoded.expires_at.unwrap(),
{
}

} // verus!
