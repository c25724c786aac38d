//! Header field names and values, and the header map of the `http` crate
//! (reached through `hyper`).

use hyper::header::{HeaderName, HeaderValue};
use hyper::HeaderMap;
use std::str::FromStr;
use vstd::prelude::*;

verus! {

/// `http::HeaderMap`, taken as it is: what it holds is known through
/// [`header_entries`] alone.
#[verifier::external_type_specification]
#[verifier::external_body]
#[verifier::reject_recursive_types(T)]
pub struct ExHeaderMap<T>(HeaderMap<T>);

/// `http::HeaderValue`, taken as it is: the type of the values of a header
/// map.
#[verifier::external_type_specification]
#[verifier::external_body]
pub struct ExHeaderValue(HeaderValue);

/// The longest field name, in bytes, that `http` accepts.
pub const MAX_HEADER_NAME_LEN: usize = 65535;

/// A header map that holds fewer names than this always takes one more.
///
/// The map of `http` refuses a field only when its table of slots would
/// have to grow past 32768 slots. The table has a power of two of slots,
/// and it grows in two cases only: when it is three quarters full, or,
/// after long runs of collisions, when it is at least one fifth full. With
/// 32768 slots that takes 24576 names in the first case and 6554 in the
/// second.
pub const HEADER_ROOM: usize = 6554;

/// The characters that `http` accepts in a field name. Upper-case letters
/// are accepted and stored in lower case.
pub open spec fn is_name_char(c: char) -> bool {
    let code = c as u32;
    ||| 33 <= code <= 39
    ||| code == 42
    ||| code == 43
    ||| code == 45
    ||| code == 46
    ||| 48 <= code <= 57
    ||| 65 <= code <= 90
    ||| 94 <= code <= 122
    ||| code == 124
    ||| code == 126
}

/// The characters that `http` accepts in a field value: the tab, and
/// everything from the space upwards but the delete character.
pub open spec fn is_value_char(c: char) -> bool {
    let code = c as u32;
    code == 9 || (code >= 32 && code != 127)
}

/// Whether `name` can be a header field name.
pub open spec fn legal_header_name(name: Seq<char>) -> bool {
    &&& 1 <= name.len() <= MAX_HEADER_NAME_LEN
    &&& forall|i: int| 0 <= i < name.len() ==> is_name_char(#[trigger] name[i])
}

/// Whether `value` can be a header field value.
pub open spec fn legal_header_value(value: Seq<char>) -> bool {
    forall|i: int| 0 <= i < value.len() ==> is_value_char(#[trigger] value[i])
}

/// The lower-case form of an ASCII letter; any other character is unchanged.
pub open spec fn ascii_lower(c: char) -> char {
    if 65 <= c as u32 <= 90 {
        ((c as u8 + 32) as u8) as char
    } else {
        c
    }
}

/// The form under which a header map files a field name: its letters in
/// lower case.
pub open spec fn canonical_header_name(name: Seq<char>) -> Seq<char> {
    Seq::new(name.len(), |i: int| ascii_lower(name[i]))
}

/// What a header map holds: under each field name, in canonical form, the
/// text of the value that a lookup of the name returns.
pub uninterp spec fn header_entries(map: HeaderMap<HeaderValue>) -> Map<Seq<char>, Seq<char>>;

/// A header map without fields.
pub open spec fn no_headers() -> Map<Seq<char>, Seq<char>> {
    Map::empty()
}

/// `HeaderMap::new`: the new map holds no field.
#[verifier::external_body]
pub(crate) fn empty_header_map() -> (headers: HeaderMap<HeaderValue>)
    ensures
        header_entries(headers) == no_headers(),
{
    HeaderMap::new()
}

/// `HeaderName::from_str`: a name parses exactly when it is between 1 and
/// 65535 bytes long and each byte is one of the accepted characters.
#[verifier::external_body]
pub(crate) fn header_name_is_legal(name: &str) -> (legal: bool)
    ensures
        legal == legal_header_name(name@),
{
    HeaderName::from_str(name).is_ok()
}

/// `HeaderValue::from_str`: a value parses exactly when none of its bytes is
/// a control character other than the tab.
#[verifier::external_body]
pub(crate) fn header_value_is_legal(value: &str) -> (legal: bool)
    ensures
        legal == legal_header_value(value@),
{
    HeaderValue::from_str(value).is_ok()
}

/// The entries are those of a map with so many names.
pub open spec fn holds_names(entries: Map<Seq<char>, Seq<char>>, count: nat) -> bool {
    entries.dom().finite() && entries.dom().len() == count
}

/// `HeaderMap::keys_len`: the number of names that the map holds.
#[verifier::external_body]
pub(crate) fn header_count(headers: &HeaderMap<HeaderValue>) -> (count: usize)
    ensures
        holds_names(header_entries(*headers), count as nat),
{
    headers.keys_len()
}

/// `HeaderMap::try_insert`: on success the field holds the new value alone,
/// under the canonical form of its name, and the other fields are
/// untouched; when the map cannot grow, it is left as it was. A map that
/// holds fewer than [`HEADER_ROOM`] names can always grow; of a fuller one
/// nothing is said.
#[verifier::external_body]
pub(crate) fn try_set_header(headers: &mut HeaderMap<HeaderValue>, name: &str, value: &str) -> (stored: bool)
    requires
        legal_header_name(name@),
        legal_header_value(value@),
    ensures
        header_entries(*old(headers)).dom().finite(),
        header_entries(*old(headers)).dom().len() < HEADER_ROOM ==> stored,
        stored ==> header_entries(*final(headers)) == header_entries(*old(headers)).insert(
            canonical_header_name(name@),
            value@,
        ),
        !stored ==> header_entries(*final(headers)) == header_entries(*old(headers)),
{
    match (HeaderName::from_str(name), HeaderValue::from_str(value)) {
        (Ok(name), Ok(value)) => headers.try_insert(name, value).is_ok(),
        _ => false,
    }
}

/// `HeaderMap::keys`: each field name of the map once, in the order in
/// which the map walks them. A stored name is legal and in canonical form.
#[verifier::external_body]
pub(crate) fn header_names(headers: &HeaderMap<HeaderValue>) -> (names: Vec<String>)
    ensures
        names.deep_view().no_duplicates(),
        forall|name: Seq<char>| #[trigger]
            header_entries(*headers).dom().contains(name) <==> names.deep_view().contains(name),
        forall|i: int|
            0 <= i < names.len() ==> legal_header_name(#[trigger] names.deep_view()[i])
                && canonical_header_name(names.deep_view()[i]) == names.deep_view()[i],
{
    headers.keys().map(|name| name.as_str().to_string()).collect()
}

/// `HeaderMap::get`: the text of the value filed under a name that the map
/// holds. A stored value is legal.
#[verifier::external_body]
pub(crate) fn header_text(headers: &HeaderMap<HeaderValue>, name: &str) -> (text: String)
    requires
        header_entries(*headers).dom().contains(name@),
    ensures
        text@ == header_entries(*headers)[name@],
        legal_header_value(text@),
{
    let bytes = headers.get(name).map(|value| value.as_bytes()).unwrap_or_default();
    String::from_utf8_lossy(bytes).into_owned()
}

} // verus!
