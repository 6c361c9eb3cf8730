//! Where a resource comes from: a path on this machine or a URL.

use vstd::prelude::*;

verus! {

/// The origin of a resource. A remote origin holds the URL in its
/// serialised form.
#[derive(Clone)]
pub enum Address {
    Local(String),
    RemoteHttp(String),
}

/// The mathematical value of an [`Address`].
pub enum AddressView {
    Local(Seq<char>),
    RemoteHttp(Seq<char>),
}

impl View for Address {
    type V = AddressView;

    open spec fn view(&self) -> AddressView {
        match self {
            Address::Local(p) => AddressView::Local(p@),
            Address::RemoteHttp(u) => AddressView::RemoteHttp(u@),
        }
    }
}

/// The serialisation of the URL that the `url` crate parses out of `s`, or
/// `None` when `s` is not an absolute URL.
pub uninterp spec fn url_parse(s: Seq<char>) -> Option<Seq<char>>;

/// Calls `url::Url::parse` (which `Url::from_str` forwards to) and gives back
/// the serialised URL.
///
/// Trusted: the result is the name `url_parse` of the input. Besides, the
/// parser in the `url` crate first needs a scheme (an ASCII letter followed
/// by letters, digits, `+`, `-` or `.`, ended by `:`) and, with no base URL,
/// fails without one: so an input with no `:` at all, or one that starts
/// with `/` or `.`, gives `None`.
#[verifier::external_body]
fn parse_url(s: &str) -> (r: Option<String>)
    ensures
        r.deep_view() == url_parse(s@),
        !s@.contains(':') ==> r is None,
        s@.len() > 0 && (s@[0] == '/' || s@[0] == '.') ==> r is None,
{
    match url::Url::parse(s) {
        Ok(u) => Some(u.as_str().to_string()),
        Err(_) => None,
    }
}

/// The address made of `uri` given what the URL parser made of it.
pub open spec fn address_of(uri: Seq<char>, parsed: Option<Seq<char>>) -> AddressView {
    match parsed {
        Some(u) => AddressView::RemoteHttp(u),
        None => AddressView::Local(uri),
    }
}

impl Address {
    /// Classifies `uri`: what parses as an absolute URL is remote, anything
    /// else is taken for a local path.
    pub fn from_string(uri: String) -> (a: Address)
        ensures
            a@ == address_of(uri@, url_parse(uri@)),
            url_parse(uri@) matches Some(u) ==> a@ == AddressView::RemoteHttp(u),
            url_parse(uri@) is None ==> a@ == AddressView::Local(uri@),
            !uri@.contains(':') ==> a@ == AddressView::Local(uri@),
            uri@.len() > 0 && uri@[0] == '/' ==> a@ == AddressView::Local(uri@),
    {
        let parsed = parse_url(uri.as_str());
        Address::from_parse(uri, parsed)
    }

    /// The address of `uri` once the URL parser has answered `parsed`.
    pub fn from_parse(uri: String, parsed: Option<String>) -> (a: Address)
        ensures
            a@ == address_of(uri@, parsed.deep_view()),
            parsed matches Some(u) ==> a@ == AddressView::RemoteHttp(u@),
            parsed is None ==> a@ == AddressView::Local(uri@),
    {
        match parsed {
            Some(u) => Address::RemoteHttp(u),
            None => Address::Local(uri),
        }
    }
}

/// Whatever the URL parser accepts is remote, with the URL it gives back,
/// whatever its scheme; whatever it refuses is the local path itself.
pub proof fn lemma_address_of_parse(uri: Seq<char>, u: Seq<char>)
    ensures
        address_of(uri, Some(u)) == AddressView::RemoteHttp(u),
        address_of(uri, None) == AddressView::Local(uri),
{
}

} // verus!
