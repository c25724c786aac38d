//! From verified claims to response headers, and from a request to the
//! status of its response.

use crate::headers::{
    canonical_header_name, empty_header_map, header_count, header_entries, header_name_is_legal,
    header_names, header_text, header_value_is_legal, is_name_char,
    legal_header_name, legal_header_value, no_headers, try_set_header, HEADER_ROOM,
};
use crate::validation::assertion::{
    decoded_view, frame_ref_view, validate_token, validation_verdict, verdict_view, DecodedToken,
    TokenFrame, ValidationError,
};
use crate::validation::service_auth::ServiceAuthTokenHeaderMap;
use crate::validation::token::{text_claims, CloudflareAccessCustomClaims, CustomClaimsView};
use crate::validation::{cache_after_all, FetchView, KeyView, SignatureState};
use convert_case::{Case, Casing};
use hyper::header::HeaderValue;
use hyper::HeaderMap;
use vstd::prelude::*;

verus! {

/// The train-case form of a text, as `convert_case` computes it: the words
/// of the text, each with a capital first letter, joined by hyphens.
pub uninterp spec fn train_case(text: Seq<char>) -> Seq<char>;

/// `Casing::to_case` with `Case::Train`.
#[verifier::external_body]
fn to_train_case(text: &str) -> (cased: String)
    ensures
        cased@ == train_case(text@),
{
    text.to_case(Case::Train)
}

/// A claim's name with `X-` before it, as it stands before casing.
pub open spec fn prefixed_claim_name(claim_name: Seq<char>) -> Seq<char> {
    seq!['X', '-'] + claim_name
}

/// The header name of a custom claim: `X-` and the claim's name, in
/// train case.
pub open spec fn claim_header_name(claim_name: Seq<char>) -> Seq<char> {
    train_case(prefixed_claim_name(claim_name))
}

/// Whether a claim is sent as a header. Three things are asked of it: its
/// name with `X-` before it is a legal header name as it stands, so a name
/// with a space or any other character that no header name may hold is
/// passed over and casing cannot mend it; the name is still legal in train
/// case; and the value is a legal header value.
pub open spec fn claim_is_sent(claim_name: Seq<char>, value: Seq<char>) -> bool {
    &&& legal_header_name(prefixed_claim_name(claim_name))
    &&& legal_header_name(claim_header_name(claim_name))
    &&& legal_header_value(value)
}

/// The headers after one more header was offered: a header whose name and
/// value are both legal is filed under the canonical form of the name;
/// any other is passed over.
pub open spec fn with_header(
    headers: Map<Seq<char>, Seq<char>>,
    header_name: Seq<char>,
    value: Seq<char>,
) -> Map<Seq<char>, Seq<char>> {
    if legal_header_name(header_name) && legal_header_value(value) {
        headers.insert(canonical_header_name(header_name), value)
    } else {
        headers
    }
}

/// The headers after one more claim: a claim that is sent is filed under
/// the canonical form of its header name; any other claim is passed over
/// and leaves the headers as they were.
pub open spec fn with_claim_header(
    headers: Map<Seq<char>, Seq<char>>,
    claim_name: Seq<char>,
    value: Seq<char>,
) -> Map<Seq<char>, Seq<char>> {
    if claim_is_sent(claim_name, value) {
        headers.insert(canonical_header_name(claim_header_name(claim_name)), value)
    } else {
        headers
    }
}

/// The headers of a list of claims, taken in order.
pub open spec fn claim_headers(claims: Seq<(Seq<char>, Seq<char>)>) -> Map<Seq<char>, Seq<char>>
    decreases claims.len(),
{
    if claims.len() == 0 {
        no_headers()
    } else {
        with_claim_header(claim_headers(claims.drop_last()), claims.last().0, claims.last().1)
    }
}

/// The fixed headers of the service token, if the claims name one that the
/// table knows.
pub open spec fn token_overrides(
    service_token_id: Option<Seq<char>>,
    table: Map<Seq<char>, Map<Seq<char>, Seq<char>>>,
) -> Option<Map<Seq<char>, Seq<char>>> {
    match service_token_id {
        Some(id) => if table.dom().contains(id) {
            Some(table[id])
        } else {
            None
        },
        None => None,
    }
}

/// The headers with the overrides laid over them: where both hold a name,
/// the override's value stands.
pub open spec fn with_overrides(
    headers: Map<Seq<char>, Seq<char>>,
    overrides: Option<Map<Seq<char>, Seq<char>>>,
) -> Map<Seq<char>, Seq<char>> {
    match overrides {
        Some(fixed) => headers.union_prefer_right(fixed),
        None => headers,
    }
}

/// How many headers the claims and the table can call for at most: one for
/// each text claim, and the fixed headers of the service token.
pub open spec fn headers_called_for(
    claims: CustomClaimsView,
    table: Map<Seq<char>, Map<Seq<char>, Seq<char>>>,
) -> nat {
    text_claims(claims.custom).len() + match token_overrides(claims.service_token_id, table) {
        Some(fixed) => fixed.dom().len(),
        None => 0,
    }
}

/// The headers of a response: those of the text claims, with the fixed
/// headers of the service token laid over them.
pub open spec fn response_headers(
    claims: CustomClaimsView,
    table: Map<Seq<char>, Map<Seq<char>, Seq<char>>>,
) -> Map<Seq<char>, Seq<char>> {
    with_overrides(
        claim_headers(text_claims(claims.custom)),
        token_overrides(claims.service_token_id, table),
    )
}

/// What became of one header that was offered to a map.
#[derive(Debug, Clone, Copy, PartialEq, Eq)]
pub enum HeaderStep {
    /// The header is in the map.
    Stored,
    /// The name or the value is not legal; the map is unchanged.
    Skipped,
    /// The map could not grow; it is unchanged.
    Full,
}

/// Files one claim under the header name computed for it.
///
/// A name or value that is not legal is passed over and the map stays as
/// it was: one bad claim does not spoil the others. A map that holds
/// fewer than [`HEADER_ROOM`] names is never full.
pub fn add_claim_header(headers: &mut HeaderMap<HeaderValue>, header_name: &str, value: &str) -> (step:
    HeaderStep)
    ensures
        step == HeaderStep::Skipped <==> !(legal_header_name(header_name@) && legal_header_value(
            value@,
        )),
        step != HeaderStep::Full ==> header_entries(*final(headers)) == with_header(
            header_entries(*old(headers)),
            header_name@,
            value@,
        ),
        step == HeaderStep::Full ==> header_entries(*final(headers)) == header_entries(
            *old(headers),
        ),
        step == HeaderStep::Full ==> header_entries(*old(headers)).dom().finite()
            && header_entries(*old(headers)).dom().len() >= HEADER_ROOM,
{
    if !header_name_is_legal(header_name) {
        return HeaderStep::Skipped;
    }
    if !header_value_is_legal(value) {
        return HeaderStep::Skipped;
    }
    if try_set_header(headers, header_name, value) {
        HeaderStep::Stored
    } else {
        HeaderStep::Full
    }
}

/// The base with the named fields of `over` filed into it, one by one.
pub open spec fn overlay_of(
    base: Map<Seq<char>, Seq<char>>,
    over: Map<Seq<char>, Seq<char>>,
    names: Seq<Seq<char>>,
) -> Map<Seq<char>, Seq<char>>
    decreases names.len(),
{
    if names.len() == 0 {
        base
    } else {
        overlay_of(base, over, names.drop_last()).insert(names.last(), over[names.last()])
    }
}

/// Filing every field of `over` gives the union in which `over` wins.
proof fn lemma_overlay_is_union(
    base: Map<Seq<char>, Seq<char>>,
    over: Map<Seq<char>, Seq<char>>,
    names: Seq<Seq<char>>,
)
    requires
        forall|name: Seq<char>| #[trigger] over.dom().contains(name) <==> names.contains(name),
    ensures
        overlay_of(base, over, names) == base.union_prefer_right(over),
{
    lemma_overlay_entries(base, over, names);
    assert(overlay_of(base, over, names) =~= base.union_prefer_right(over));
}

/// What the overlay holds: under a listed name the value of `over`, under
/// any other name what the base held.
proof fn lemma_overlay_entries(
    base: Map<Seq<char>, Seq<char>>,
    over: Map<Seq<char>, Seq<char>>,
    names: Seq<Seq<char>>,
)
    ensures
        forall|name: Seq<char>| #[trigger]
            overlay_of(base, over, names).dom().contains(name) <==> (base.dom().contains(name)
                || names.contains(name)),
        forall|name: Seq<char>|
            names.contains(name) ==> #[trigger] overlay_of(base, over, names)[name] == over[name],
        forall|name: Seq<char>|
            !names.contains(name) && base.dom().contains(name) ==> #[trigger] overlay_of(
                base,
                over,
                names,
            )[name] == base[name],
    decreases names.len(),
{
    if names.len() > 0 {
        let earlier = names.drop_last();
        let last = names.last();
        let before = overlay_of(base, over, earlier);
        lemma_overlay_entries(base, over, earlier);
        assert(overlay_of(base, over, names) == before.insert(last, over[last]));
        assert forall|name: Seq<char>| names.contains(name) <==> (earlier.contains(name) || name
            == last) by {
            if names.contains(name) {
                let i = choose|i: int| 0 <= i < names.len() && names[i] == name;
                if i < names.len() - 1 {
                    assert(earlier[i] == name);
                }
            }
            if earlier.contains(name) {
                let i = choose|i: int| 0 <= i < earlier.len() && earlier[i] == name;
                assert(names[i] == name);
            }
            if name == last {
                assert(names[names.len() - 1] == name);
            }
        }
        assert forall|name: Seq<char>| names.contains(name) implies #[trigger] overlay_of(
            base,
            over,
            names,
        )[name] == over[name] by {
            if name != last {
                assert(earlier.contains(name));
                assert(before.dom().contains(name));
                assert(before[name] == over[name]);
            }
        }
        assert forall|name: Seq<char>|
            !names.contains(name) && base.dom().contains(name) implies #[trigger] overlay_of(
            base,
            over,
            names,
        )[name] == base[name] by {
            assert(name != last);
            assert(!earlier.contains(name));
            assert(before.dom().contains(name));
            assert(before[name] == base[name]);
        }
    }
}

/// Lays the fixed headers over the map: each of them replaces what the
/// map held under its name.
///
/// Only a map that cannot grow ends the work with `false`: some of the
/// fixed headers are then filed and the others are not. Two maps that hold
/// fewer than [`HEADER_ROOM`] names between them are always merged.
pub fn merge_headers(headers: &mut HeaderMap<HeaderValue>, overrides: &HeaderMap<HeaderValue>) -> (merged:
    bool)
    ensures
        merged ==> header_entries(*final(headers)) == header_entries(
            *old(headers),
        ).union_prefer_right(header_entries(*overrides)),
        !merged ==> files_some_of(
            header_entries(*old(headers)),
            header_entries(*overrides),
            header_entries(*final(headers)),
        ),
        has_no_header(header_entries(*overrides)) ==> merged,
        header_entries(*old(headers)).dom().len() + header_entries(*overrides).dom().len()
            < HEADER_ROOM ==> merged,
{
    let held = header_count(headers);
    let fixed = header_count(overrides);
    let names = header_names(overrides);
    let ghost base = header_entries(*headers);
    let ghost over = header_entries(*overrides);
    let mut i: usize = 0;
    assert(names.deep_view().take(0) == Seq::<Seq<char>>::empty());
    proof {
        names.deep_view().unique_seq_to_set();
        assert(names.deep_view().to_set() =~= over.dom());
    }
    while i < names.len()
        invariant
            i <= names.len(),
            names.len() == names.deep_view().len(),
            names.len() == over.dom().len(),
            held == base.dom().len(),
            header_entries(*headers).dom().finite(),
            header_entries(*headers).dom().len() <= held + i,
            base == header_entries(*old(headers)),
            over == header_entries(*overrides),
            forall|name: Seq<char>| #[trigger]
                over.dom().contains(name) <==> names.deep_view().contains(name),
            forall|k: int|
                0 <= k < names.len() ==> legal_header_name(#[trigger] names.deep_view()[k])
                    && canonical_header_name(names.deep_view()[k]) == names.deep_view()[k],
            header_entries(*headers) == overlay_of(base, over, names.deep_view().take(i as int)),
        decreases names.len() - i,
    {
        let ghost all = names.deep_view();
        assert(all.take(i + 1).drop_last() == all.take(i as int));
        assert(all.take(i + 1).last() == all[i as int]);
        assert(all[i as int] == names[i as int]@);
        assert(all.contains(all[i as int]));
        let name = names[i].as_str();
        let text = header_text(overrides, name);
        if !try_set_header(headers, name, text.as_str()) {
            proof {
                assert(base.dom().len() + over.dom().len() >= HEADER_ROOM);
                let filed = all.take(i as int);
                assert forall|k: int| 0 <= k < filed.len() implies over.dom().contains(
                    #[trigger] filed[k],
                ) by {
                    assert(all[k] == filed[k]);
                    assert(all.contains(all[k]));
                }
                assert(names_among(filed, over));
                assert(over.dom().contains(all[i as int]));
                assert(overlay_of(base, over, filed) == header_entries(*headers));
            }
            return false;
        }
        i += 1;
    }
    proof {
        assert(names.deep_view().take(i as int) == names.deep_view());
        lemma_overlay_is_union(base, over, names.deep_view());
        if has_no_header(over) && names.len() > 0 {
            assert(names.deep_view().contains(names.deep_view()[0]));
        }
    }
    true
}

/// The response headers of verified claims: one header for each text claim
/// whose header name and value are legal, then the fixed headers of the
/// service token, which replace claim headers of the same name.
///
/// `None` only when a header map could not grow; nothing is sent then.
/// Claims and a table that call for fewer than [`HEADER_ROOM`] headers
/// always get their map, as do those that call for no header at all.
pub fn claims_to_headers(claims: &CloudflareAccessCustomClaims, table: &ServiceAuthTokenHeaderMap) -> (mapped:
    Option<HeaderMap<HeaderValue>>)
    ensures
        mapped matches Some(headers) ==> header_entries(headers) == response_headers(
            claims@,
            table@,
        ),
        has_no_header(response_headers(claims@, table@)) ==> mapped is Some,
        headers_called_for(claims@, table@) < HEADER_ROOM ==> mapped is Some,
{
    let pairs = claims.claims();
    let mut headers = empty_header_map();
    let mut i: usize = 0;
    assert(pairs.deep_view().take(0) == Seq::<(Seq<char>, Seq<char>)>::empty());
    assert(no_headers().dom() =~= Set::<Seq<char>>::empty());
    while i < pairs.len()
        invariant
            i <= pairs.len(),
            pairs.len() == pairs.deep_view().len(),
            pairs.deep_view() == text_claims(claims@.custom),
            header_entries(headers) == claim_headers(pairs.deep_view().take(i as int)),
            header_entries(headers).dom().finite(),
            header_entries(headers).dom().len() <= i,
        decreases pairs.len() - i,
    {
        let ghost all = pairs.deep_view();
        assert(all.take(i + 1).drop_last() == all.take(i as int));
        assert(all.take(i + 1).last() == all[i as int]);
        assert(all[i as int] == pairs[i as int].deep_view());
        let mut prefixed = String::from_str("X-");
        prefixed.append(pairs[i].0.as_str());
        proof {
            reveal_strlit("X-");
            assert("X-"@ == seq!['X', '-']);
        }
        assert(prefixed@ == prefixed_claim_name(all[i as int].0));
        if header_name_is_legal(prefixed.as_str()) {
            let header_name = to_train_case(prefixed.as_str());
            match add_claim_header(&mut headers, header_name.as_str(), pairs[i].1.as_str()) {
                HeaderStep::Full => {
                    proof {
                        let filed_as = canonical_header_name(claim_header_name(all[i as int].0));
                        assert(claim_is_sent(all[i as int].0, all[i as int].1));
                        lemma_claim_headers_come_from_claims(all, filed_as);
                        assert(claim_headers(all).dom().contains(filed_as));
                        assert(response_headers(claims@, table@).dom().contains(filed_as));
                    }
                    return None;
                },
                _ => {},
            }
        }
        i += 1;
    }
    assert(pairs.deep_view().take(i as int) == pairs.deep_view());
    if let Some(id) = claims.get_service_token_id() {
        if let Some(fixed) = table.get_header_map_for_token(id) {
            let ghost held = header_entries(headers).dom().len();
            if !merge_headers(&mut headers, fixed) {
                proof {
                    let missing = choose|name: Seq<char>|
                        header_entries(*fixed).dom().contains(name);
                    assert(response_headers(claims@, table@).dom().contains(missing));
                    assert(held + header_entries(*fixed).dom().len() >= HEADER_ROOM);
                    assert(token_overrides(claims@.service_token_id, table@) == Some(
                        header_entries(*fixed),
                    ));
                }
                return None;
            }
        }
    }
    Some(headers)
}

/// The map holds no header.
pub open spec fn has_no_header(headers: Map<Seq<char>, Seq<char>>) -> bool {
    forall|name: Seq<char>| !headers.dom().contains(name)
}

/// Each of the names is a field of `over`.
pub open spec fn names_among(names: Seq<Seq<char>>, over: Map<Seq<char>, Seq<char>>) -> bool {
    forall|k: int| 0 <= k < names.len() ==> over.dom().contains(#[trigger] names[k])
}

/// The result is the base with some fields of `over` filed into it, and at
/// least one field of `over` is there to file.
pub open spec fn files_some_of(
    base: Map<Seq<char>, Seq<char>>,
    over: Map<Seq<char>, Seq<char>>,
    result: Map<Seq<char>, Seq<char>>,
) -> bool {
    &&& !has_no_header(over)
    &&& exists|filed: Seq<Seq<char>>|
        names_among(filed, over) && #[trigger] overlay_of(base, over, filed) == result
}

/// A claim name that holds a character which no header name may hold, a
/// space for one, is never sent, whatever casing would make of it.
pub proof fn lemma_claim_with_illegal_character_is_not_sent(
    claim_name: Seq<char>,
    value: Seq<char>,
    at: int,
)
    requires
        0 <= at < claim_name.len(),
        !is_name_char(claim_name[at]),
    ensures
        !claim_is_sent(claim_name, value),
{
    assert(prefixed_claim_name(claim_name)[at + 2] == claim_name[at]);
}

/// A claim that is not sent leaves no trace: the headers are those of the
/// list without it.
pub proof fn lemma_illegal_claim_is_passed_over(claims: Seq<(Seq<char>, Seq<char>)>, k: int)
    requires
        0 <= k < claims.len(),
        !claim_is_sent(claims[k].0, claims[k].1),
    ensures
        claim_headers(claims) == claim_headers(claims.remove(k)),
    decreases claims.len(),
{
    if k == claims.len() - 1 {
        assert(claims.remove(k) == claims.drop_last());
    } else {
        let earlier = claims.drop_last();
        lemma_illegal_claim_is_passed_over(earlier, k);
        assert(claims.remove(k).drop_last() == earlier.remove(k));
        assert(claims.remove(k).last() == claims.last());
    }
}

/// A header stands for a claim: a name is among the claim headers exactly
/// when some claim that is sent has it as the canonical form of its header
/// name.
pub proof fn lemma_claim_headers_come_from_claims(
    claims: Seq<(Seq<char>, Seq<char>)>,
    name: Seq<char>,
)
    ensures
        claim_headers(claims).dom().contains(name) <==> exists|i: int|
            0 <= i < claims.len() && #[trigger] claim_is_sent(claims[i].0, claims[i].1)
                && canonical_header_name(claim_header_name(claims[i].0)) == name,
    decreases claims.len(),
{
    if claims.len() > 0 {
        let earlier = claims.drop_last();
        let last = claims.len() - 1;
        lemma_claim_headers_come_from_claims(earlier, name);
        if claim_headers(claims).dom().contains(name) {
            if claim_headers(earlier).dom().contains(name) {
                let i = choose|i: int|
                    0 <= i < earlier.len() && #[trigger] claim_is_sent(earlier[i].0, earlier[i].1)
                        && canonical_header_name(claim_header_name(earlier[i].0)) == name;
                assert(claims[i] == earlier[i]);
            } else {
                assert(claim_is_sent(claims[last].0, claims[last].1));
            }
        } else {
            assert forall|i: int|
                0 <= i < claims.len() && #[trigger] claim_is_sent(
                    claims[i].0,
                    claims[i].1,
                ) implies canonical_header_name(claim_header_name(claims[i].0)) != name by {
                if i < last {
                    assert(claims[i] == earlier[i]);
                }
            }
        }
    }
}

/// The last claim of a list, if it is sent, has its header in the output
/// with its own value.
pub proof fn lemma_last_claim_is_mapped(claims: Seq<(Seq<char>, Seq<char>)>)
    requires
        claims.len() > 0,
        claim_is_sent(claims.last().0, claims.last().1),
    ensures
        claim_headers(claims).dom().contains(
            canonical_header_name(claim_header_name(claims.last().0)),
        ),
        claim_headers(claims)[canonical_header_name(claim_header_name(claims.last().0))]
            == claims.last().1,
{
}

/// The table wins: where the service token of the claims has fixed
/// headers, each of them is in the response with the table's value,
/// whatever the custom claims produced under that name.
pub proof fn lemma_overrides_win(
    claims: CustomClaimsView,
    table: Map<Seq<char>, Map<Seq<char>, Seq<char>>>,
    name: Seq<char>,
)
    requires
        claims.service_token_id is Some,
        table.dom().contains(claims.service_token_id.unwrap()),
        table[claims.service_token_id.unwrap()].dom().contains(name),
    ensures
        response_headers(claims, table).dom().contains(name),
        response_headers(claims, table)[name] == table[claims.service_token_id.unwrap()][name],
{
}

/// Where the table has nothing for a name, the claim headers stand.
pub proof fn lemma_claims_stand_without_override(
    claims: CustomClaimsView,
    table: Map<Seq<char>, Map<Seq<char>, Seq<char>>>,
    name: Seq<char>,
)
    requires
        token_overrides(claims.service_token_id, table) matches Some(fixed) ==> !fixed.dom().contains(
            name,
        ),
        claim_headers(text_claims(claims.custom)).dom().contains(name),
    ensures
        response_headers(claims, table).dom().contains(name),
        response_headers(claims, table)[name] == claim_headers(text_claims(claims.custom))[name],
{
}

/// The status of a response that went well.
pub const STATUS_OK: u16 = 200;

/// The status of a response to an assertion that was not accepted.
pub const STATUS_UNAUTHORIZED: u16 = 401;

/// The status of a response while no key set is there.
pub const STATUS_INTERNAL_SERVER_ERROR: u16 = 500;

/// The status of the readiness probe: good once a snapshot was published.
pub open spec fn readiness_status(loaded: bool) -> u16 {
    if loaded {
        STATUS_OK
    } else {
        STATUS_INTERNAL_SERVER_ERROR
    }
}

/// The status that a verdict leads to: a missing key set is the server's
/// fault; any other refusal is the caller's, and says no more than that.
pub open spec fn verdict_status(verdict: Result<CustomClaimsView, ValidationError>) -> u16 {
    match verdict {
        Ok(_) => STATUS_OK,
        Err(ValidationError::NotReady) => STATUS_INTERNAL_SERVER_ERROR,
        Err(_) => STATUS_UNAUTHORIZED,
    }
}

/// The readiness probe follows the fetches: from a start without a
/// snapshot it answers 500 until a fetch delivers a key set, and 200 after
/// that.
pub proof fn lemma_readiness_follows_first_success(outcomes: Seq<FetchView>)
    ensures
        readiness_status(cache_after_all(None, outcomes) is Some) == (if exists|i: int|
            0 <= i < outcomes.len() && outcomes[i] is Fetched {
            STATUS_OK
        } else {
            STATUS_INTERNAL_SERVER_ERROR
        }),
{
    crate::validation::lemma_ready_after_first_success(outcomes);
}

/// Once the readiness probe answers 200 it does so after any further run
/// of fetches, failures included.
pub proof fn lemma_readiness_never_reverts(cache: Option<Seq<KeyView>>, outcomes: Seq<FetchView>)
    requires
        readiness_status(cache is Some) == STATUS_OK,
    ensures
        readiness_status(cache_after_all(cache, outcomes) is Some) == STATUS_OK,
{
    crate::validation::lemma_readiness_is_monotonic(cache, outcomes);
}

/// The status of the liveness probe, which depends on nothing.
pub fn liveness() -> (status: u16)
    ensures
        status == STATUS_OK,
{
    STATUS_OK
}

/// The status of the readiness probe.
pub fn readiness(state: &SignatureState) -> (status: u16)
    ensures
        status == readiness_status(state@.jwks is Some),
{
    if state.has_jwks_loaded() {
        STATUS_OK
    } else {
        STATUS_INTERNAL_SERVER_ERROR
    }
}

/// The response to a validation request: a status, and on success the
/// headers to attach. There is never a body.
pub struct ValidationResponse {
    pub status: u16,
    pub headers: Option<HeaderMap<HeaderValue>>,
}

/// The answer to accepted claims, held against what they call for:
/// status 200 with exactly their headers. Only claims and a table that call
/// for [`HEADER_ROOM`] headers or more, and for one at least, may be
/// refused instead, with no header at all.
pub open spec fn answers_claims(
    claims: CustomClaimsView,
    table: Map<Seq<char>, Map<Seq<char>, Seq<char>>>,
    response: ValidationResponse,
) -> bool {
    match response.headers {
        Some(headers) => response.status == STATUS_OK && header_entries(headers)
            == response_headers(claims, table),
        None => response.status == STATUS_UNAUTHORIZED && !has_no_header(
            response_headers(claims, table),
        ) && headers_called_for(claims, table) >= HEADER_ROOM,
    }
}

/// Accepted claims that call for fewer than [`HEADER_ROOM`] headers have
/// one answer only: status 200 and their headers, however often they are
/// answered.
pub proof fn lemma_answer_is_determined(
    claims: CustomClaimsView,
    table: Map<Seq<char>, Map<Seq<char>, Seq<char>>>,
    first: ValidationResponse,
    second: ValidationResponse,
)
    requires
        headers_called_for(claims, table) < HEADER_ROOM,
        answers_claims(claims, table, first),
        answers_claims(claims, table, second),
    ensures
        first.status == STATUS_OK,
        second.status == STATUS_OK,
        first.headers matches Some(a) && second.headers matches Some(b) && header_entries(a)
            == header_entries(b) && header_entries(a) == response_headers(claims, table),
{
}

/// The response that a verdict leads to.
///
/// Accepted claims are answered with their headers. Where the header map
/// could not take them all, the request is refused instead: headers are
/// sent whole or not at all.
pub fn respond(
    verdict: Result<CloudflareAccessCustomClaims, ValidationError>,
    token_map: &ServiceAuthTokenHeaderMap,
) -> (response: ValidationResponse)
    ensures
        match verdict {
            Ok(claims) => answers_claims(claims@, token_map@, response),
            Err(_) => response.status == verdict_status(verdict_view(verdict))
                && response.headers is None,
        },
{
    match verdict {
        Ok(claims) => match claims_to_headers(&claims, token_map) {
            Some(headers) => ValidationResponse { status: STATUS_OK, headers: Some(headers) },
            None => ValidationResponse { status: STATUS_UNAUTHORIZED, headers: None },
        },
        Err(ValidationError::NotReady) => ValidationResponse {
            status: STATUS_INTERNAL_SERVER_ERROR,
            headers: None,
        },
        Err(_) => ValidationResponse { status: STATUS_UNAUTHORIZED, headers: None },
    }
}

/// Answers a validation request for an audience.
///
/// `frame` is the frame of the assertion that the request carried and
/// `decoded` what its header and payload documents say; either is `None`
/// where the assertion has none. `now` is the time in seconds since the
/// epoch.
pub fn validate(
    state: &SignatureState,
    token_map: &ServiceAuthTokenHeaderMap,
    audience: &str,
    frame: Option<&TokenFrame>,
    decoded: Option<DecodedToken>,
    now: i64,
) -> (response: ValidationResponse)
    ensures
        match validation_verdict(
            state@.jwks,
            frame_ref_view(frame),
            decoded_view(decoded),
            audience@,
            state@.issuer_url,
            now as int,
        ) {
            Ok(claims) => answers_claims(claims, token_map@, response),
            Err(e) => response.status == verdict_status(Err(e)) && response.headers is None,
        },
{
    let issuer = state.issuer_url();
    let verdict = validate_token(state.jwks(), frame, decoded, audience, issuer.as_str(), now);
    respond(verdict, token_map)
}

} // verus!
