//! The signing keys of the gateway: the snapshot in which they come, the
//! state that holds the current one, and the rule by which it is refreshed.

pub mod assertion;
pub mod service_auth;
pub mod token;

use crate::text::same_text;
use crate::validation::assertion::{first_with_id, key_index};
use openidconnect::url::ParseError;
use openidconnect::IssuerUrl;
use vstd::prelude::*;

verus! {

/// A verification key: its id, if it has one, and its JWK document.
#[derive(Debug, Clone)]
pub struct VerificationKey {
    key_id: Option<String>,
    jwk: String,
}

/// The mathematical value of [`VerificationKey`].
pub struct KeyView {
    pub key_id: Option<Seq<char>>,
    pub jwk: Seq<char>,
}

impl View for VerificationKey {
    type V = KeyView;

    closed spec fn view(&self) -> KeyView {
        KeyView {
            key_id: match self.key_id {
                Some(id) => Some(id@),
                None => None,
            },
            jwk: self.jwk@,
        }
    }
}

impl DeepView for VerificationKey {
    type V = KeyView;

    open spec fn deep_view(&self) -> KeyView {
        self@
    }
}

/// The view of a text that may be missing.
pub open spec fn text_view(text: Option<String>) -> Option<Seq<char>> {
    match text {
        Some(t) => Some(t@),
        None => None,
    }
}

impl VerificationKey {
    /// The key with the given id and JWK document.
    pub fn new(key_id: Option<String>, jwk: String) -> (key: Self)
        ensures
            key@ == (KeyView { key_id: text_view(key_id), jwk: jwk@ }),
    {
        VerificationKey { key_id, jwk }
    }

    /// The key's id, if it has one.
    pub fn key_id(&self) -> (id: Option<&str>)
        ensures
            match id {
                Some(text) => self@.key_id == Some(text@),
                None => self@.key_id is None,
            },
    {
        match &self.key_id {
            Some(id) => Some(id.as_str()),
            None => None,
        }
    }

    /// The key's JWK document.
    pub fn jwk(&self) -> (jwk: &str)
        ensures
            jwk@ == self@.jwk,
    {
        self.jwk.as_str()
    }

    /// Whether two keys have the same id and the same document.
    pub fn same_as(&self, other: &VerificationKey) -> (same: bool)
        ensures
            same == (self@ == other@),
    {
        let ids = match (&self.key_id, &other.key_id) {
            (Some(a), Some(b)) => same_text(a.as_str(), b.as_str()),
            (None, None) => true,
            _ => false,
        };
        ids && same_text(self.jwk.as_str(), other.jwk.as_str())
    }
}

/// A set of verification keys, as one fetch delivered it. It is replaced
/// as a whole and never changed.
#[derive(Debug, Clone)]
pub struct KeySetSnapshot {
    keys: Vec<VerificationKey>,
}

impl View for KeySetSnapshot {
    type V = Seq<KeyView>;

    closed spec fn view(&self) -> Seq<KeyView> {
        self.keys.deep_view()
    }
}

impl KeySetSnapshot {
    /// The snapshot of the given keys.
    pub fn new(keys: Vec<VerificationKey>) -> (snapshot: Self)
        ensures
            snapshot@ == keys.deep_view(),
    {
        KeySetSnapshot { keys }
    }

    /// The number of keys.
    pub fn len(&self) -> (n: usize)
        ensures
            n == self@.len(),
    {
        self.keys.len()
    }

    /// The key at a position.
    pub fn key(&self, index: usize) -> (key: &VerificationKey)
        requires
            index < self@.len(),
        ensures
            key@ == self@[index as int],
    {
        &self.keys[index]
    }

    /// The position of the first key with the given id. Without an id to
    /// look for, no key is found.
    pub fn find_key(&self, key_id: &Option<String>) -> (found: Option<usize>)
        ensures
            match found {
                Some(i) => key_index(self@, text_view(*key_id)) == Some(i as int) && i < self@.len(),
                None => key_index(self@, text_view(*key_id)) is None,
            },
    {
        let wanted = match key_id {
            Some(id) => id,
            None => {
                return None;
            },
        };
        let mut i: usize = 0;
        while i < self.keys.len()
            invariant
                i <= self.keys.len(),
                self.keys.len() == self@.len(),
                text_view(*key_id) == Some(wanted@),
                forall|j: int| 0 <= j < i ==> self@[j].key_id != Some(wanted@),
            decreases self.keys.len() - i,
        {
            assert(self@[i as int] == self.keys[i as int]@);
            let hit = match self.keys[i].key_id() {
                Some(id) => same_text(id, wanted.as_str()),
                None => false,
            };
            if hit {
                proof {
                    let id = text_view(*key_id);
                    assert(first_with_id(self@, id, i as int));
                    let chosen = choose|k: int| first_with_id(self@, id, k);
                    assert(chosen == i);
                }
                return Some(i);
            }
            i += 1;
        }
        None
    }

    /// Whether two snapshots hold the same keys in the same order.
    pub fn same_as(&self, other: &KeySetSnapshot) -> (same: bool)
        ensures
            same == (self@ == other@),
    {
        if self.keys.len() != other.keys.len() {
            return false;
        }
        let mut i: usize = 0;
        while i < self.keys.len()
            invariant
                i <= self.keys.len(),
                self.keys.len() == other.keys.len(),
                self.keys.len() == self@.len(),
                other.keys.len() == other@.len(),
                forall|j: int| 0 <= j < i ==> self@[j] == other@[j],
            decreases self.keys.len() - i,
        {
            assert(self@[i as int] == self.keys[i as int]@);
            assert(other@[i as int] == other.keys[i as int]@);
            if !self.keys[i].same_as(&other.keys[i]) {
                return false;
            }
            i += 1;
        }
        assert(self@ =~= other@);
        true
    }
}

/// `url::ParseError`, taken as it is: nothing is read from it.
#[verifier::external_type_specification]
#[verifier::external_body]
pub struct ExParseError(ParseError);

/// Seconds to wait after a fetch that failed.
pub const RETRY_BACKOFF_SECONDS: u64 = 5;

/// Seconds to wait after a fetch that succeeded.
pub const REFRESH_INTERVAL_SECONDS: u64 = 3600;

/// The path of the key set, below the issuer's base URL.
pub open spec fn certs_path() -> Seq<char> {
    "cdn-cgi/access/certs"@
}

/// The URL below a base URL at which a path lies, in the form in which a
/// parsed URL is written; `None` where the base, or the base with the path,
/// is no URL.
pub uninterp spec fn joined_url(base: Seq<char>, path: Seq<char>) -> Option<Seq<char>>;

/// `IssuerUrl::join`, on the issuer URL that `IssuerUrl::new` makes of the
/// text: the text of the joined URL, or the error of whichever of the two
/// failed to parse.
#[verifier::external_body]
fn join_issuer_url(issuer: &str, path: &str) -> (joined: Result<String, ParseError>)
    ensures
        match joined {
            Ok(url) => joined_url(issuer@, path@) == Some(url@),
            Err(_) => joined_url(issuer@, path@) is None,
        },
{
    IssuerUrl::new(issuer.to_string())?.join(path).map(|url| url.to_string())
}

/// `Display` of `url::ParseError`: what the parser says of its error.
/// Nothing is known of the text.
#[verifier::external_body]
fn url_error_text(error: &ParseError) -> (text: String) {
    error.to_string()
}

/// Why no state could be made for an issuer.
#[derive(Debug, Clone, PartialEq, Eq)]
pub enum StateError {
    /// The issuer, or the location of its key set, is no URL; with what
    /// the parser said of it.
    InvalidIssuerUrl(String),
}

/// The sentence that reports that the location of the key set is no URL,
/// given what the parser said.
pub open spec fn invalid_issuer_text(detail: Seq<char>) -> Seq<char> {
    "Failed to construct JWKS URL from  issuer: "@ + detail
}

impl StateError {
    /// What the parser said of the URL.
    pub open spec fn detail(self) -> Seq<char> {
        match self {
            StateError::InvalidIssuerUrl(detail) => detail@,
        }
    }

    /// The sentence that reports the error.
    pub fn message(&self) -> (text: String)
        ensures
            text@ == invalid_issuer_text(self.detail()),
    {
        match self {
            StateError::InvalidIssuerUrl(detail) => {
                let mut text = String::from_str("Failed to construct JWKS URL from  issuer: ");
                text.append(detail.as_str());
                text
            },
        }
    }
}

/// What one fetch of the key set came to.
#[derive(Debug, Clone)]
pub enum FetchOutcome {
    /// The fetch failed, in transport or in decoding.
    Failed,
    /// The fetch delivered a key set.
    Fetched(KeySetSnapshot),
}

/// The mathematical value of [`FetchOutcome`].
pub enum FetchView {
    Failed,
    Fetched(Seq<KeyView>),
}

impl View for FetchOutcome {
    type V = FetchView;

    open spec fn view(&self) -> FetchView {
        match self {
            FetchOutcome::Failed => FetchView::Failed,
            FetchOutcome::Fetched(snapshot) => FetchView::Fetched(snapshot@),
        }
    }
}

/// What the refresher does after a fetch.
#[derive(Debug, Clone, Copy, PartialEq, Eq)]
pub struct RefreshStep {
    /// Whether a new snapshot was published.
    pub published: bool,
    /// How many seconds to wait before the next fetch.
    pub wait_seconds: u64,
}

/// The snapshot that readers see after a fetch: a delivered key set takes
/// the place of the old one; a failed fetch changes nothing.
pub open spec fn cache_after(cache: Option<Seq<KeyView>>, outcome: FetchView) -> Option<
    Seq<KeyView>,
> {
    match outcome {
        FetchView::Failed => cache,
        FetchView::Fetched(keys) => Some(keys),
    }
}

/// Whether a fetch leads to a publication: it does when it delivers a key
/// set other than the one in place.
pub open spec fn publishes(cache: Option<Seq<KeyView>>, outcome: FetchView) -> bool {
    match outcome {
        FetchView::Failed => false,
        FetchView::Fetched(keys) => cache != Some(keys),
    }
}

/// The wait after a fetch: the short backoff after a failure, the full
/// refresh interval after a success.
pub open spec fn wait_after(outcome: FetchView) -> int {
    match outcome {
        FetchView::Failed => RETRY_BACKOFF_SECONDS as int,
        FetchView::Fetched(_) => REFRESH_INTERVAL_SECONDS as int,
    }
}

/// The snapshot that readers see after a run of fetches.
pub open spec fn cache_after_all(cache: Option<Seq<KeyView>>, outcomes: Seq<FetchView>) -> Option<
    Seq<KeyView>,
>
    decreases outcomes.len(),
{
    if outcomes.len() == 0 {
        cache
    } else {
        cache_after(cache_after_all(cache, outcomes.drop_last()), outcomes.last())
    }
}

/// The time of the fetch that follows a run of fetches which began at
/// `start`, each fetch taken to last no time.
pub open spec fn next_fetch_time(start: int, outcomes: Seq<FetchView>) -> int
    decreases outcomes.len(),
{
    if outcomes.len() == 0 {
        start
    } else {
        next_fetch_time(start, outcomes.drop_last()) + wait_after(outcomes.last())
    }
}

/// The issuer, the location of its key set, and the current snapshot of
/// the key set, if one was ever published.
#[derive(Debug, Clone)]
pub struct SignatureState {
    issuer_url: String,
    jwks_url: String,
    jwks: Option<KeySetSnapshot>,
}

/// The mathematical value of [`SignatureState`].
pub struct SignatureStateView {
    pub issuer_url: Seq<char>,
    pub jwks_url: Seq<char>,
    pub jwks: Option<Seq<KeyView>>,
}

impl View for SignatureState {
    type V = SignatureStateView;

    closed spec fn view(&self) -> SignatureStateView {
        SignatureStateView {
            issuer_url: self.issuer_url@,
            jwks_url: self.jwks_url@,
            jwks: match self.jwks {
                Some(snapshot) => Some(snapshot@),
                None => None,
            },
        }
    }
}

impl SignatureState {
    /// The state for an issuer whose key set lies at the given location,
    /// before any fetch.
    pub fn new(issuer_url: String, jwks_url: String) -> (state: Self)
        ensures
            state@ == (SignatureStateView {
                issuer_url: issuer_url@,
                jwks_url: jwks_url@,
                jwks: None,
            }),
    {
        SignatureState { issuer_url, jwks_url, jwks: None }
    }

    /// The state for an issuer, before any fetch: the key set lies at the
    /// well-known path below the issuer's URL, and no snapshot is there.
    pub fn from_issuer_url(issuer_url: String) -> (made: Result<Self, StateError>)
        ensures
            match joined_url(issuer_url@, certs_path()) {
                Some(url) => made matches Ok(state) && state@ == (SignatureStateView {
                    issuer_url: issuer_url@,
                    jwks_url: url,
                    jwks: None,
                }),
                None => made matches Err(StateError::InvalidIssuerUrl(_)),
            },
    {
        match join_issuer_url(issuer_url.as_str(), "cdn-cgi/access/certs") {
            Ok(jwks_url) => Ok(SignatureState::new(issuer_url, jwks_url)),
            Err(error) => Err(StateError::InvalidIssuerUrl(url_error_text(&error))),
        }
    }

    /// The issuer's URL.
    pub fn issuer_url(&self) -> (url: String)
        ensures
            url@ == self@.issuer_url,
    {
        self.issuer_url.clone()
    }

    /// The location of the key set.
    pub fn jwks_url(&self) -> (url: &str)
        ensures
            url@ == self@.jwks_url,
    {
        self.jwks_url.as_str()
    }

    /// Whether a snapshot was ever published.
    pub fn has_jwks_loaded(&self) -> (loaded: bool)
        ensures
            loaded == self@.jwks is Some,
    {
        self.jwks.is_some()
    }

    /// The current snapshot, if one was ever published.
    pub fn jwks(&self) -> (current: Option<&KeySetSnapshot>)
        ensures
            match current {
                Some(snapshot) => self@.jwks == Some(snapshot@),
                None => self@.jwks is None,
            },
    {
        self.jwks.as_ref()
    }

    /// Puts a snapshot in place of the current one.
    pub fn publish(&mut self, snapshot: KeySetSnapshot)
        ensures
            final(self)@ == (SignatureStateView { jwks: Some(snapshot@), ..old(self)@ }),
    {
        self.jwks = Some(snapshot);
    }

    /// Takes in the outcome of a fetch and says what the refresher does
    /// next.
    ///
    /// A delivered key set is published unless it equals the one in place.
    /// After a failure the refresher waits the short backoff, after a
    /// success the full refresh interval, whatever came before.
    pub fn apply_fetch(&mut self, outcome: FetchOutcome) -> (step: RefreshStep)
        ensures
            final(self)@ == (SignatureStateView {
                jwks: cache_after(old(self)@.jwks, outcome@),
                ..old(self)@
            }),
            step.published == publishes(old(self)@.jwks, outcome@),
            step.wait_seconds == wait_after(outcome@),
    {
        match outcome {
            FetchOutcome::Failed => RefreshStep {
                published: false,
                wait_seconds: RETRY_BACKOFF_SECONDS,
            },
            FetchOutcome::Fetched(snapshot) => {
                let should_update = match &self.jwks {
                    None => true,
                    Some(existing) => !existing.same_as(&snapshot),
                };
                if should_update {
                    self.publish(snapshot);
                }
                RefreshStep { published: should_update, wait_seconds: REFRESH_INTERVAL_SECONDS }
            },
        }
    }
}

/// Readiness begins with the first fetch that succeeds: a state that
/// started without a snapshot has one after a run of fetches exactly when
/// one of them delivered a key set.
pub proof fn lemma_ready_after_first_success(outcomes: Seq<FetchView>)
    ensures
        cache_after_all(None, outcomes) is Some <==> exists|i: int|
            0 <= i < outcomes.len() && outcomes[i] is Fetched,
    decreases outcomes.len(),
{
    if outcomes.len() > 0 {
        let earlier = outcomes.drop_last();
        lemma_ready_after_first_success(earlier);
        if outcomes.last() is Fetched {
            assert(outcomes[outcomes.len() - 1] is Fetched);
        } else if cache_after_all(None, earlier) is Some {
            let i = choose|i: int| 0 <= i < earlier.len() && earlier[i] is Fetched;
            assert(outcomes[i] is Fetched);
        } else {
            assert forall|i: int| 0 <= i < outcomes.len() implies !(outcomes[i] is Fetched) by {
                if i < earlier.len() {
                    assert(earlier[i] == outcomes[i]);
                }
            }
        }
    }
}

/// Readiness never reverts: once a snapshot is in place, one is in place
/// after any run of fetches, failures included.
pub proof fn lemma_readiness_is_monotonic(cache: Option<Seq<KeyView>>, outcomes: Seq<FetchView>)
    requires
        cache is Some,
    ensures
        cache_after_all(cache, outcomes) is Some,
    decreases outcomes.len(),
{
    if outcomes.len() > 0 {
        lemma_readiness_is_monotonic(cache, outcomes.drop_last());
    }
}

/// Failures are retried after the short backoff each, and take nothing
/// from the refresh interval: a run of failures moves the next fetch by
/// the backoff times their number.
pub proof fn lemma_failures_cost_backoff_only(start: int, outcomes: Seq<FetchView>)
    requires
        forall|i: int| 0 <= i < outcomes.len() ==> outcomes[i] is Failed,
    ensures
        next_fetch_time(start, outcomes) == start + RETRY_BACKOFF_SECONDS * outcomes.len(),
    decreases outcomes.len(),
{
    if outcomes.len() > 0 {
        let earlier = outcomes.drop_last();
        assert forall|i: int| 0 <= i < earlier.len() implies earlier[i] is Failed by {
            assert(earlier[i] == outcomes[i]);
        }
        lemma_failures_cost_backoff_only(start, earlier);
        assert(outcomes.last() == outcomes[outcomes.len() - 1]);
    }
}

/// After a success the next fetch is one full refresh interval away,
/// whatever run of fetches came before it.
pub proof fn lemma_success_waits_full_interval(
    start: int,
    earlier: Seq<FetchView>,
    keys: Seq<KeyView>,
)
    ensures
        next_fetch_time(start, earlier.push(FetchView::Fetched(keys))) == next_fetch_time(
            start,
            earlier,
        ) + REFRESH_INTERVAL_SECONDS,
{
    let outcomes = earlier.push(FetchView::Fetched(keys));
    assert(outcomes.drop_last() == earlier);
    assert(outcomes.last() == FetchView::Fetched(keys));
}

} // verus!
