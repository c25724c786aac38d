//! The custom claims of an access assertion, and the header that carries the
//! assertion.

use crate::text::same_text;
use vstd::prelude::*;

verus! {

/// The value of a custom claim. Only text is ever turned into a header; a
/// value of any other kind is kept as `Other` and never read.
#[derive(Debug, Clone)]
pub enum ClaimValue {
    Text(String),
    Other,
}

impl View for ClaimValue {
    type V = Option<Seq<char>>;

    open spec fn view(&self) -> Option<Seq<char>> {
        match self {
            ClaimValue::Text(text) => Some(text@),
            ClaimValue::Other => None,
        }
    }
}

/// The mathematical value of [`CloudflareAccessCustomClaims`].
pub struct CustomClaimsView {
    /// Each custom claim, by name, with its text if it has one.
    pub custom: Seq<(Seq<char>, Option<Seq<char>>)>,
    /// The client id of the service token, if one was used.
    pub service_token_id: Option<Seq<char>>,
}

/// The claims whose value is text, in the order in which they are stored.
pub open spec fn text_claims(custom: Seq<(Seq<char>, Option<Seq<char>>)>) -> Seq<
    (Seq<char>, Seq<char>),
>
    decreases custom.len(),
{
    if custom.len() == 0 {
        Seq::empty()
    } else {
        let earlier = text_claims(custom.drop_last());
        match custom.last().1 {
            Some(text) => earlier.push((custom.last().0, text)),
            None => earlier,
        }
    }
}

/// No claim name occurs twice.
pub open spec fn distinct_names(custom: Seq<(Seq<char>, Option<Seq<char>>)>) -> bool {
    forall|i: int, j: int| 0 <= i < j < custom.len() ==> custom[i].0 != custom[j].0
}

/// The "custom" claims of an access assertion: a mapping from claim names
/// to values, so no name occurs twice.
#[derive(Debug)]
pub struct CloudflareAccessCustomClaims {
    /// The custom claims, as configured for the identity provider.
    custom: Vec<(String, ClaimValue)>,
    /// The client id of the service token that authenticated the request,
    /// sent as the assertion's common name.
    service_token_id: Option<String>,
}

impl View for CloudflareAccessCustomClaims {
    type V = CustomClaimsView;

    closed spec fn view(&self) -> CustomClaimsView {
        CustomClaimsView {
            custom: self.custom.deep_view(),
            service_token_id: match self.service_token_id {
                Some(id) => Some(id@),
                None => None,
            },
        }
    }
}

impl DeepView for ClaimValue {
    type V = Option<Seq<char>>;

    open spec fn deep_view(&self) -> Option<Seq<char>> {
        self@
    }
}

impl Clone for CloudflareAccessCustomClaims {
    /// The same claims again.
    fn clone(&self) -> (cloned: Self)
        ensures
            cloned@ == self@,
    {
        proof {
            use_type_invariant(self);
        }
        let mut custom: Vec<(String, ClaimValue)> = Vec::new();
        let mut i: usize = 0;
        while i < self.custom.len()
            invariant
                i <= self.custom.len(),
                custom.deep_view() =~= self.custom.deep_view().take(i as int),
            decreases self.custom.len() - i,
        {
            let ghost before = custom.deep_view();
            assert(self.custom.deep_view()[i as int] == self.custom[i as int].deep_view());
            let value = match &self.custom[i].1 {
                ClaimValue::Text(text) => ClaimValue::Text(text.clone()),
                ClaimValue::Other => ClaimValue::Other,
            };
            custom.push((self.custom[i].0.clone(), value));
            assert(custom.deep_view() =~= before.push(self.custom.deep_view()[i as int]));
            i += 1;
        }
        assert(self.custom.deep_view().take(i as int) =~= self.custom.deep_view());
        let service_token_id = match &self.service_token_id {
            Some(id) => Some(id.clone()),
            None => None,
        };
        CloudflareAccessCustomClaims { custom, service_token_id }
    }
}

impl CloudflareAccessCustomClaims {
    #[verifier::type_invariant]
    spec fn names_are_distinct(self) -> bool {
        distinct_names(self.custom.deep_view())
    }

    /// Claims with the given custom entries, each under a name of its own,
    /// and the given service token.
    pub fn new(custom: Vec<(String, ClaimValue)>, service_token_id: Option<String>) -> (claims: Self)
        requires
            distinct_names(custom.deep_view()),
        ensures
            claims@.custom == custom.deep_view(),
            claims@.service_token_id == match service_token_id {
                Some(id) => Some(id@),
                None => None,
            },
    {
        CloudflareAccessCustomClaims { custom, service_token_id }
    }

    /// Claims with the given custom entries and service token; `None`
    /// where a claim name occurs twice.
    pub fn try_new(custom: Vec<(String, ClaimValue)>, service_token_id: Option<String>) -> (made:
        Option<Self>)
        ensures
            match made {
                Some(claims) => distinct_names(custom.deep_view()) && claims@.custom
                    == custom.deep_view() && claims@.service_token_id == match service_token_id {
                    Some(id) => Some(id@),
                    None => None,
                },
                None => !distinct_names(custom.deep_view()),
            },
    {
        let ghost names = custom.deep_view();
        let mut j: usize = 0;
        while j < custom.len()
            invariant
                j <= custom.len(),
                names == custom.deep_view(),
                custom.len() == names.len(),
                forall|a: int, b: int| 0 <= a < b < j ==> names[a].0 != names[b].0,
            decreases custom.len() - j,
        {
            let mut i: usize = 0;
            while i < j
                invariant
                    i <= j < custom.len(),
                    names == custom.deep_view(),
                    custom.len() == names.len(),
                    forall|a: int| 0 <= a < i ==> names[a].0 != names[j as int].0,
                decreases j - i,
            {
                assert(names[i as int] == custom[i as int].deep_view());
                assert(names[j as int] == custom[j as int].deep_view());
                if same_text(custom[i].0.as_str(), custom[j].0.as_str()) {
                    assert(names[i as int].0 == names[j as int].0);
                    return None;
                }
                i += 1;
            }
            j += 1;
        }
        Some(CloudflareAccessCustomClaims::new(custom, service_token_id))
    }

    /// The custom claims whose value is text, as name and value, in stored
    /// order. Claims of any other kind are left out.
    pub fn claims(&self) -> (pairs: Vec<(String, String)>)
        ensures
            pairs.deep_view() == text_claims(self@.custom),
            distinct_names(self@.custom),
    {
        proof {
            use_type_invariant(self);
        }
        let mut pairs: Vec<(String, String)> = Vec::new();
        let mut i: usize = 0;
        assert(self@.custom.take(0) == Seq::<(Seq<char>, Option<Seq<char>>)>::empty());
        assert(pairs.deep_view() == Seq::<(Seq<char>, Seq<char>)>::empty());
        while i < self.custom.len()
            invariant
                i <= self.custom.len(),
                self.custom.len() == self@.custom.len(),
                pairs.deep_view() == text_claims(self@.custom.take(i as int)),
            decreases self.custom.len() - i,
        {
            let ghost before = pairs.deep_view();
            assert(self@.custom.take(i + 1).drop_last() == self@.custom.take(i as int));
            assert(self@.custom.take(i + 1).last() == self@.custom[i as int]);
            assert(self@.custom[i as int] == self.custom[i as int].deep_view());
            match &self.custom[i].1 {
                ClaimValue::Text(text) => {
                    let pair = (self.custom[i].0.clone(), text.clone());
                    pairs.push(pair);
                    assert(pairs.deep_view() == before.push((self@.custom[i as int].0, text@)));
                },
                ClaimValue::Other => {},
            }
            i += 1;
        }
        assert(self@.custom.take(i as int) == self@.custom);
        pairs
    }

    /// The client id of the service token, if the assertion carries one.
    pub fn get_service_token_id(&self) -> (id: Option<&str>)
        ensures
            match id {
                Some(text) => self@.service_token_id == Some(text@),
                None => self@.service_token_id is None,
            },
    {
        match &self.service_token_id {
            Some(id) => Some(id.as_str()),
            None => None,
        }
    }
}

/// The bytes that a header value shows as text: the printable ASCII
/// characters and the tab.
pub open spec fn is_visible_ascii(byte: u8) -> bool {
    (32 <= byte < 127) || byte == 9
}

/// The text that ASCII bytes spell.
pub open spec fn ascii_text_of(bytes: Seq<u8>) -> Seq<char> {
    Seq::new(bytes.len(), |i: int| bytes[i] as char)
}

/// The assertion that the values of the header carry: the text of the first
/// value, if there is one and it is all visible ASCII.
pub open spec fn decoded_assertion(values: Seq<Seq<u8>>) -> Option<Seq<char>> {
    if values.len() > 0 && forall|i: int|
        0 <= i < values[0].len() ==> is_visible_ascii(#[trigger] values[0][i]) {
        Some(ascii_text_of(values[0]))
    } else {
        None
    }
}

/// `String::from_utf8_lossy`, on bytes that are all ASCII: the text has one
/// character for each byte, with the byte's code.
#[verifier::external_body]
fn ascii_text(bytes: &[u8]) -> (text: String)
    requires
        forall|i: int| 0 <= i < bytes@.len() ==> bytes@[i] < 128,
    ensures
        text@ == ascii_text_of(bytes@),
{
    String::from_utf8_lossy(bytes).into_owned()
}

/// The assertion that the gateway sends in the `Cf-Access-Jwt-Assertion`
/// header.
#[derive(Debug, Clone)]
pub struct CloudflareAccessOIDCAccessToken(pub String);

impl CloudflareAccessOIDCAccessToken {
    /// The name of the header, in the lower case in which header maps
    /// hold it.
    pub fn name() -> (name: &'static str)
        ensures
            name@ == "cf-access-jwt-assertion"@,
    {
        "cf-access-jwt-assertion"
    }

    /// Reads the assertion from the values of the header: the first value
    /// counts, and it must be visible ASCII.
    pub fn decode(values: &Vec<Vec<u8>>) -> (token: Option<Self>)
        ensures
            match token {
                Some(t) => decoded_assertion(values.deep_view()) == Some(t.0@),
                None => decoded_assertion(values.deep_view()) is None,
            },
    {
        if values.len() == 0 {
            return None;
        }
        let first = &values[0];
        assert(values.deep_view()[0] == first@);
        let mut i: usize = 0;
        while i < first.len()
            invariant
                i <= first.len(),
                values.len() > 0,
                values.deep_view()[0] == first@,
                forall|j: int| 0 <= j < i ==> is_visible_ascii(#[trigger] first@[j]),
            decreases first.len() - i,
        {
            let byte = first[i];
            if !((32 <= byte && byte < 127) || byte == 9) {
                assert(!is_visible_ascii(first@[i as int]));
                return None;
            }
            i += 1;
        }
        Some(CloudflareAccessOIDCAccessToken(ascii_text(first.as_slice())))
    }

    /// The assertion's text.
    pub fn secret(&self) -> (text: &str)
        ensures
            text@ == self.0@,
    {
        self.0.as_str()
    }
}

} // verus!
