//! The table of fixed headers for service tokens.

use crate::headers::{
    canonical_header_name, empty_header_map, header_entries, header_name_is_legal,
    header_value_is_legal, legal_header_name, legal_header_value, no_headers, try_set_header,
    HEADER_ROOM,
};
use hyper::header::HeaderValue;
use hyper::HeaderMap;
use std::collections::BTreeMap;
use vstd::hash_map::StringHashMap;
use vstd::prelude::*;

verus! {

/// `serde_yaml::Error`, taken as it is: nothing is read from it.
#[verifier::external_type_specification]
#[verifier::external_body]
pub struct ExYamlError(serde_yaml::Error);

/// Why a mapping of service tokens to headers was refused.
#[derive(Debug, Clone, PartialEq, Eq)]
pub enum MappingError {
    /// The text is not a YAML mapping from client ids to mappings from
    /// header names to header values; with what the parser said of it.
    InvalidYaml(String),
    /// The given header name is not a legal field name.
    InvalidHeaderName(String),
    /// The given header value is not a legal field value.
    InvalidHeaderValue(String),
    /// A header map could not take another field.
    TooManyHeaders,
}

/// The mathematical value of [`MappingError`].
pub enum MappingErrorView {
    InvalidYaml(Seq<char>),
    InvalidHeaderName(Seq<char>),
    InvalidHeaderValue(Seq<char>),
    TooManyHeaders,
}

impl View for MappingError {
    type V = MappingErrorView;

    open spec fn view(&self) -> MappingErrorView {
        match self {
            MappingError::InvalidYaml(detail) => MappingErrorView::InvalidYaml(detail@),
            MappingError::InvalidHeaderName(name) => MappingErrorView::InvalidHeaderName(name@),
            MappingError::InvalidHeaderValue(value) => MappingErrorView::InvalidHeaderValue(value@),
            MappingError::TooManyHeaders => MappingErrorView::TooManyHeaders,
        }
    }
}

/// The sentence that reports an error.
pub open spec fn mapping_error_text(error: MappingErrorView) -> Seq<char> {
    match error {
        MappingErrorView::InvalidYaml(detail) => "Failed to deserialize YAML: "@ + detail,
        MappingErrorView::InvalidHeaderName(name) => "Failed to parse header key '"@ + name
            + "': invalid HTTP header name"@,
        MappingErrorView::InvalidHeaderValue(value) => "Failed to parse header value '"@ + value
            + "': failed to parse header value"@,
        MappingErrorView::TooManyHeaders => "Failed to build header map: max size reached"@,
    }
}

impl MappingError {
    /// The sentence that reports the error.
    pub fn message(&self) -> (text: String)
        ensures
            text@ == mapping_error_text(self@),
    {
        match self {
            MappingError::InvalidYaml(detail) => {
                let mut text = String::from_str("Failed to deserialize YAML: ");
                text.append(detail.as_str());
                text
            },
            MappingError::InvalidHeaderName(name) => {
                let mut text = String::from_str("Failed to parse header key '");
                text.append(name.as_str());
                text.append("': invalid HTTP header name");
                text
            },
            MappingError::InvalidHeaderValue(value) => {
                let mut text = String::from_str("Failed to parse header value '");
                text.append(value.as_str());
                text.append("': failed to parse header value");
                text
            },
            MappingError::TooManyHeaders => String::from_str(
                "Failed to build header map: max size reached",
            ),
        }
    }
}

/// Header names and values, as read from configuration.
pub type RawHeaders = Seq<(Seq<char>, Seq<char>)>;

/// The headers of each service token, as read from configuration.
pub type RawMapping = Seq<(Seq<char>, RawHeaders)>;

/// The header map that a list of names and values makes: each pair is
/// filed in turn, a later one replacing an earlier one of the same name.
/// The first name or value that is not legal decides the error.
pub open spec fn header_set(pairs: RawHeaders) -> Result<Map<Seq<char>, Seq<char>>, MappingErrorView>
    decreases pairs.len(),
{
    if pairs.len() == 0 {
        Ok(no_headers())
    } else {
        match header_set(pairs.drop_last()) {
            Err(e) => Err(e),
            Ok(earlier) => if !legal_header_name(pairs.last().0) {
                Err(MappingErrorView::InvalidHeaderName(pairs.last().0))
            } else if !legal_header_value(pairs.last().1) {
                Err(MappingErrorView::InvalidHeaderValue(pairs.last().1))
            } else {
                Ok(earlier.insert(canonical_header_name(pairs.last().0), pairs.last().1))
            },
        }
    }
}

/// The table that a raw mapping makes: each client id with the header map
/// of its pairs, a later entry replacing an earlier one of the same id.
pub open spec fn token_table(raw: RawMapping) -> Result<
    Map<Seq<char>, Map<Seq<char>, Seq<char>>>,
    MappingErrorView,
>
    decreases raw.len(),
{
    if raw.len() == 0 {
        Ok(Map::empty())
    } else {
        match token_table(raw.drop_last()) {
            Err(e) => Err(e),
            Ok(earlier) => match header_set(raw.last().1) {
                Err(e) => Err(e),
                Ok(headers) => Ok(earlier.insert(raw.last().0, headers)),
            },
        }
    }
}

/// Once a prefix of the pairs is refused, the whole list is refused for the
/// same reason.
proof fn lemma_header_set_error_persists(pairs: RawHeaders, n: int, e: MappingErrorView)
    requires
        0 <= n <= pairs.len(),
        header_set(pairs.take(n)) matches Err(found) && found == e,
    ensures
        header_set(pairs) matches Err(found) && found == e,
    decreases pairs.len() - n,
{
    if n == pairs.len() {
        assert(pairs.take(n) == pairs);
    } else {
        assert(pairs.take(n + 1).drop_last() == pairs.take(n));
        lemma_header_set_error_persists(pairs, n + 1, e);
    }
}

/// Once a prefix of the mapping is refused, the whole mapping is refused
/// for the same reason.
proof fn lemma_token_table_error_persists(raw: RawMapping, n: int, e: MappingErrorView)
    requires
        0 <= n <= raw.len(),
        token_table(raw.take(n)) matches Err(found) && found == e,
    ensures
        token_table(raw) matches Err(found) && found == e,
    decreases raw.len() - n,
{
    if n == raw.len() {
        assert(raw.take(n) == raw);
    } else {
        assert(raw.take(n + 1).drop_last() == raw.take(n));
        lemma_token_table_error_persists(raw, n + 1, e);
    }
}

/// What a YAML text holds, read as a mapping from client ids to mappings
/// from header names to header values, each level in the order of its keys;
/// `None` where the text is no such mapping.
pub uninterp spec fn yaml_mapping(text: Seq<char>) -> Option<RawMapping>;

/// `serde_yaml::from_str`, asked for a map of maps of strings: the entries
/// of the text, or the error that the parser reports.
#[verifier::external_body]
fn read_yaml_mapping(text: &str) -> (parsed: Result<Vec<(String, Vec<(String, String)>)>, serde_yaml::Error>)
    ensures
        match parsed {
            Ok(raw) => yaml_mapping(text@) == Some(raw.deep_view()),
            Err(_) => yaml_mapping(text@) is None,
        },
{
    serde_yaml::from_str::<BTreeMap<String, BTreeMap<String, String>>>(text).map(
        |ids| ids.into_iter().map(|(id, headers)| (id, headers.into_iter().collect())).collect(),
    )
}

/// `Display` of `serde_yaml::Error`: what the parser says of its error.
/// Nothing is known of the text.
#[verifier::external_body]
fn yaml_error_text(error: &serde_yaml::Error) -> (text: String) {
    error.to_string()
}

/// What building a header map from pairs came to, held against the pairs.
///
/// A map is the one that the pairs make. An error other than
/// `TooManyHeaders` is the one that the pairs earn. `TooManyHeaders` comes
/// only for [`HEADER_ROOM`] pairs or more, and only after a run of legal
/// pairs.
pub open spec fn is_header_map_of(
    pairs: RawHeaders,
    built: Result<HeaderMap<HeaderValue>, MappingError>,
) -> bool {
    match built {
        Ok(headers) => header_set(pairs) matches Ok(fields) && fields == header_entries(headers),
        Err(MappingError::TooManyHeaders) => pairs.len() >= HEADER_ROOM && exists|k: int|
            0 < k <= pairs.len() && #[trigger] header_set(pairs.take(k)) is Ok,
        Err(e) => header_set(pairs) matches Err(found) && found == e@,
    }
}

/// The header map of a list of names and values.
///
/// A list of fewer than [`HEADER_ROOM`] pairs always gets its map or the
/// error that it earns. Only a longer one can end with `TooManyHeaders`.
pub fn build_header_map(pairs: &Vec<(String, String)>) -> (built: Result<
    HeaderMap<HeaderValue>,
    MappingError,
>)
    ensures
        is_header_map_of(pairs.deep_view(), built),
{
    let mut headers = empty_header_map();
    let mut i: usize = 0;
    assert(pairs.deep_view().take(0) == Seq::<(Seq<char>, Seq<char>)>::empty());
    assert(no_headers().dom() =~= Set::<Seq<char>>::empty());
    while i < pairs.len()
        invariant
            i <= pairs.len(),
            pairs.len() == pairs.deep_view().len(),
            header_set(pairs.deep_view().take(i as int)) matches Ok(fields) && fields
                == header_entries(headers),
            header_entries(headers).dom().finite(),
            header_entries(headers).dom().len() <= i,
        decreases pairs.len() - i,
    {
        let ghost all = pairs.deep_view();
        assert(all.take(i + 1).drop_last() == all.take(i as int));
        assert(all.take(i + 1).last() == all[i as int]);
        assert(all[i as int] == pairs[i as int].deep_view());
        let name = pairs[i].0.as_str();
        let value = pairs[i].1.as_str();
        if !header_name_is_legal(name) {
            proof {
                lemma_header_set_error_persists(
                    all,
                    i + 1,
                    MappingErrorView::InvalidHeaderName(name@),
                );
            }
            return Err(MappingError::InvalidHeaderName(pairs[i].0.clone()));
        }
        if !header_value_is_legal(value) {
            proof {
                lemma_header_set_error_persists(
                    all,
                    i + 1,
                    MappingErrorView::InvalidHeaderValue(value@),
                );
            }
            return Err(MappingError::InvalidHeaderValue(pairs[i].1.clone()));
        }
        if !try_set_header(&mut headers, name, value) {
            assert(header_set(all.take(i + 1)) is Ok);
            return Err(MappingError::TooManyHeaders);
        }
        i += 1;
    }
    assert(pairs.deep_view().take(i as int) == pairs.deep_view());
    Ok(headers)
}

/// The headers to add for each service token, by the token's client id.
pub struct ServiceAuthTokenHeaderMap {
    token_map: StringHashMap<HeaderMap<HeaderValue>>,
}

impl View for ServiceAuthTokenHeaderMap {
    type V = Map<Seq<char>, Map<Seq<char>, Seq<char>>>;

    closed spec fn view(&self) -> Map<Seq<char>, Map<Seq<char>, Seq<char>>> {
        Map::new(
            |id: Seq<char>| self.token_map@.dom().contains(id),
            |id: Seq<char>| header_entries(self.token_map@[id]),
        )
    }
}

/// The view of a table that may have been refused.
pub open spec fn built_view(built: Result<ServiceAuthTokenHeaderMap, MappingError>) -> Result<
    Map<Seq<char>, Map<Seq<char>, Seq<char>>>,
    MappingErrorView,
> {
    match built {
        Ok(table) => Ok(table@),
        Err(e) => Err(e@),
    }
}

/// What building a table from a raw mapping came to, held against the
/// mapping.
///
/// A table is the one that the mapping makes. An error other than
/// `TooManyHeaders` is the one that the mapping earns. `TooManyHeaders`
/// comes only where one service token has [`HEADER_ROOM`] pairs or more,
/// and only after entries that were all taken.
pub open spec fn is_table_of(
    raw: RawMapping,
    built: Result<Map<Seq<char>, Map<Seq<char>, Seq<char>>>, MappingErrorView>,
) -> bool {
    match built {
        Ok(table) => token_table(raw) matches Ok(made) && made == table,
        Err(MappingErrorView::TooManyHeaders) => exists|k: int|
            0 <= k < raw.len() && raw[k].1.len() >= HEADER_ROOM && #[trigger] token_table(
                raw.take(k),
            ) is Ok,
        Err(e) => token_table(raw) matches Err(found) && found == e,
    }
}

impl Default for ServiceAuthTokenHeaderMap {
    /// The table without any service token.
    fn default() -> (table: Self)
        ensures
            table@ == Map::<Seq<char>, Map<Seq<char>, Seq<char>>>::empty(),
    {
        ServiceAuthTokenHeaderMap::empty()
    }
}

impl ServiceAuthTokenHeaderMap {
    /// The table without any service token.
    pub fn empty() -> (table: Self)
        ensures
            table@ == Map::<Seq<char>, Map<Seq<char>, Seq<char>>>::empty(),
    {
        let table = ServiceAuthTokenHeaderMap { token_map: StringHashMap::new() };
        assert(table@ =~= Map::<Seq<char>, Map<Seq<char>, Seq<char>>>::empty());
        table
    }

    /// The table of a mapping that was read from configuration.
    ///
    /// It is refused with the error of the first header name or value, in
    /// the order given, that is not legal. A mapping in which every
    /// service token has fewer than [`HEADER_ROOM`] pairs always gets its
    /// table or the error that it earns.
    pub fn from_raw_mapping(raw: &Vec<(String, Vec<(String, String)>)>) -> (built: Result<
        Self,
        MappingError,
    >)
        ensures
            is_table_of(raw.deep_view(), built_view(built)),
    {
        let mut table = ServiceAuthTokenHeaderMap::empty();
        let mut i: usize = 0;
        assert(raw.deep_view().take(0) == Seq::<(Seq<char>, RawHeaders)>::empty());
        while i < raw.len()
            invariant
                i <= raw.len(),
                raw.len() == raw.deep_view().len(),
                token_table(raw.deep_view().take(i as int)) matches Ok(made) && made == table@,
            decreases raw.len() - i,
        {
            let ghost all = raw.deep_view();
            assert(all.take(i + 1).drop_last() == all.take(i as int));
            assert(all.take(i + 1).last() == all[i as int]);
            assert(all[i as int] == raw[i as int].deep_view());
            match build_header_map(&raw[i].1) {
                Ok(headers) => {
                    let ghost before = table@;
                    table.token_map.insert(raw[i].0.clone(), headers);
                    assert(table@ =~= before.insert(all[i as int].0, header_entries(headers)));
                },
                Err(e) => {
                    proof {
                        if e@ != MappingErrorView::TooManyHeaders {
                            lemma_token_table_error_persists(all, i + 1, e@);
                        } else {
                            assert(all[i as int].1.len() >= HEADER_ROOM);
                            assert(token_table(all.take(i as int)) is Ok);
                        }
                    }
                    return Err(e);
                },
            }
            i += 1;
        }
        assert(raw.deep_view().take(i as int) == raw.deep_view());
        Ok(table)
    }

    /// The table that a YAML text describes: a mapping from client ids to
    /// mappings from header names to header values.
    ///
    /// A text that is no such mapping is refused as invalid YAML, with what
    /// the parser said of it. Any other text gets what its mapping gets.
    pub fn from_mapping_text(text: &str) -> (built: Result<Self, MappingError>)
        ensures
            match yaml_mapping(text@) {
                None => built matches Err(MappingError::InvalidYaml(_)),
                Some(raw) => is_table_of(raw, built_view(built)),
            },
    {
        match read_yaml_mapping(text) {
            Ok(raw) => ServiceAuthTokenHeaderMap::from_raw_mapping(&raw),
            Err(error) => Err(MappingError::InvalidYaml(yaml_error_text(&error))),
        }
    }

    /// The headers of the service token with the given client id, if the
    /// table has any for it.
    pub fn get_header_map_for_token(&self, token_client_id: &str) -> (found: Option<
        &HeaderMap<HeaderValue>,
    >)
        ensures
            match found {
                Some(headers) => self@.dom().contains(token_client_id@) && header_entries(*headers)
                    == self@[token_client_id@],
                None => !self@.dom().contains(token_client_id@),
            },
    {
        self.token_map.get(token_client_id)
    }
}

} // verus!
