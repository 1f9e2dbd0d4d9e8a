//! The address of a group chat, normalised to a websocket URL.
use vstd::prelude::*;
use crate::text::{
    char_is_whitespace, lemma_replaced_keeps_unmatched_prefix, lemma_replaced_leading_match,
    lemma_trimmed_bounds, lemma_trimmed_idempotent, lemma_trimmed_keeps_prefix, occurs_at,
    replace_all, replaced, starts_with, trim, trimmed,
};

verus! {

/// `url` begins with `ws://` or `wss://`.
pub open spec fn is_ws_prefixed_seq(url: Seq<char>) -> bool {
    "ws://"@.is_prefix_of(url) || "wss://"@.is_prefix_of(url)
}

/// `url` begins with `http://` or `https://`.
pub open spec fn is_http_prefixed_seq(url: Seq<char>) -> bool {
    "http://"@.is_prefix_of(url) || "https://"@.is_prefix_of(url)
}

/// The websocket URL made of what the user typed: an `http` scheme becomes
/// `ws`, a missing scheme becomes `wss://`, and surrounding white space goes.
pub open spec fn websocket_url(url: Seq<char>) -> Seq<char> {
    if is_http_prefixed_seq(url) {
        trimmed(replaced(replaced(url, "http://"@, "ws://"@), "https://"@, "wss://"@))
    } else if !is_ws_prefixed_seq(url) {
        trimmed("wss://"@ + url)
    } else {
        trimmed(url)
    }
}

/// What `url::Url::parse_with_params` makes of `input` with the one query
/// pair `(key, value)`: the serialisation of the resulting URL, or `None`
/// where `input` is no valid URL.
pub uninterp spec fn url_with_query_param(
    input: Seq<char>,
    key: Seq<char>,
    value: Seq<char>,
) -> Option<Seq<char>>;

#[verifier::external_type_specification]
#[verifier::external_body]
pub struct ExUrlParseError(url::ParseError);

/// Calls `url::Url::parse_with_params(input, [(key, value)])` and turns the
/// URL into its serialisation (`String::from(Url)`, which is what the URL
/// displays as). Which parse error comes back is not stated.
#[verifier::external_body]
fn parse_with_param(input: &str, key: &str, value: &str) -> (res: Result<String, url::ParseError>)
    ensures
        res is Ok <==> url_with_query_param(input@, key@, value@) is Some,
        res matches Ok(u) ==> url_with_query_param(input@, key@, value@) == Some(u@),
{
    url::Url::parse_with_params(input, [(key, value)]).map(String::from)
}

/// The URL could not be parsed.
#[derive(Debug)]
pub enum InvalidUrl {
    Unparsable,
}

/// A websocket URL of a group chat.
pub struct WebsocketURL {
    url: String,
}

impl View for WebsocketURL {
    type V = Seq<char>;

    closed spec fn view(&self) -> Seq<char> {
        self.url@
    }
}

impl WebsocketURL {
    /// The websocket URL for what the user typed.
    pub fn new(url: String) -> (ws: Self)
        ensures
            ws@ == websocket_url(url@),
    {
        if Self::is_http_prefixed(url.as_str()) {
            let ws_scheme = replace_all(url.as_str(), Self::http(), Self::ws());
            let wss_scheme = replace_all(ws_scheme.as_str(), Self::https(), Self::wss());
            WebsocketURL { url: wss_scheme }.sanitize()
        } else if !Self::is_ws_prefixed(url.as_str()) {
            let prefixed = String::from_str(Self::wss()).concat(url.as_str());
            WebsocketURL { url: prefixed }.sanitize()
        } else {
            WebsocketURL { url }.sanitize()
        }
    }

    /// This URL with the query pair `key=value` added. The URL must parse.
    pub fn append_query_param(&self, key: &str, value: &str) -> (ws: Self)
        requires
            url_with_query_param(self@, key@, value@) is Some,
        ensures
            url_with_query_param(self@, key@, value@) == Some(ws@),
    {
        match parse_with_param(self.url.as_str(), key, value) {
            Ok(url) => WebsocketURL { url },
            Err(_) => WebsocketURL { url: self.url.clone() },
        }
    }

    /// This URL with the query pair `key=value` added, or `InvalidUrl`
    /// where the URL does not parse.
    pub fn try_append_query_param(&self, key: &str, value: &str) -> (res: Result<Self, InvalidUrl>)
        ensures
            res is Err <==> url_with_query_param(self@, key@, value@) is None,
            res matches Ok(ws) ==> url_with_query_param(self@, key@, value@) == Some(ws@),
    {
        match parse_with_param(self.url.as_str(), key, value) {
            Ok(_) => Ok(self.append_query_param(key, value)),
            Err(_) => Err(InvalidUrl::Unparsable),
        }
    }

    /// The URL text.
    pub fn value(&self) -> (text: &str)
        ensures
            text@ == self@,
    {
        self.url.as_str()
    }

    fn sanitize(&self) -> (ws: Self)
        ensures
            ws@ == trimmed(self@),
    {
        WebsocketURL { url: trim(self.url.as_str()) }
    }

    fn is_ws_prefixed(url: &str) -> (b: bool)
        ensures
            b == is_ws_prefixed_seq(url@),
    {
        starts_with(url, Self::ws()) || starts_with(url, Self::wss())
    }

    fn is_http_prefixed(url: &str) -> (b: bool)
        ensures
            b == is_http_prefixed_seq(url@),
    {
        starts_with(url, Self::http()) || starts_with(url, Self::https())
    }

    fn http() -> (s: &'static str)
        ensures
            s@ == "http://"@,
    {
        "http://"
    }

    fn https() -> (s: &'static str)
        ensures
            s@ == "https://"@,
    {
        "https://"
    }

    fn ws() -> (s: &'static str)
        ensures
            s@ == "ws://"@,
    {
        "ws://"
    }

    fn wss() -> (s: &'static str)
        ensures
            s@ == "wss://"@,
    {
        "wss://"
    }
}

/// No match of `p` starts before index `m` of `s` when none starts at 0 and
/// `s[1..m]` holds no copy of `p`'s first character.
proof fn lemma_no_match_before(s: Seq<char>, p: Seq<char>, m: int)
    requires
        p.len() > 0,
        0 <= m <= s.len(),
        !occurs_at(s, p, 0),
        forall|k: int| 0 < k < m ==> s[k] != p[0],
    ensures
        forall|k: int| 0 <= k < m ==> !occurs_at(s, p, k),
{
    assert forall|k: int| 0 <= k < m implies !occurs_at(s, p, k) by {
        if k > 0 && occurs_at(s, p, k) {
            assert(s.subrange(k, k + p.len())[0] == s[k]);
        }
    }
}

/// A text that begins with a websocket scheme does not begin with an http
/// scheme.
pub proof fn lemma_ws_prefixed_not_http(url: Seq<char>)
    requires
        is_ws_prefixed_seq(url),
    ensures
        !is_http_prefixed_seq(url),
{
    reveal_strlit("http://");
    reveal_strlit("https://");
    reveal_strlit("ws://");
    reveal_strlit("wss://");
    if "ws://"@.is_prefix_of(url) {
        assert(url[0] == url.subrange(0, 5)[0]);
    } else {
        assert(url[0] == url.subrange(0, 6)[0]);
    }
    if "http://"@.is_prefix_of(url) {
        assert(url[0] == url.subrange(0, 7)[0]);
    }
    if "https://"@.is_prefix_of(url) {
        assert(url[0] == url.subrange(0, 8)[0]);
    }
}

/// Whatever the user typed, the result begins with `ws://` or `wss://`.
pub proof fn law_websocket_url_has_ws_scheme(url: Seq<char>)
    ensures
        is_ws_prefixed_seq(websocket_url(url)),
{
    reveal_strlit("http://");
    reveal_strlit("https://");
    reveal_strlit("ws://");
    reveal_strlit("wss://");
    let ws = "ws://"@;
    let wss = "wss://"@;
    if is_http_prefixed_seq(url) {
        let x1 = replaced(url, "http://"@, ws);
        let x2 = replaced(x1, "https://"@, wss);
        if "http://"@.is_prefix_of(url) {
            lemma_replaced_leading_match(url, "http://"@, ws);
            assert(x1.subrange(0, 5) == ws);
            assert forall|k: int| 0 <= k < 5 implies x1[k] == ws[k] by {
                assert(x1[k] == x1.subrange(0, 5)[k]);
            }
            if occurs_at(x1, "https://"@, 0) {
                assert(x1.subrange(0, 8)[0] == x1[0]);
            }
            lemma_no_match_before(x1, "https://"@, 5);
            lemma_replaced_keeps_unmatched_prefix(x1, "https://"@, wss, 5);
            assert(x2.subrange(0, 5) =~= x1.take(5));
            lemma_trimmed_keeps_prefix(x2, ws);
        } else {
            assert(url.subrange(0, 8) == "https://"@);
            assert(url.subrange(0, 7)[4] != "http://"@[4]);
            assert forall|k: int| 0 <= k < 8 implies url[k] == "https://"@[k] by {
                assert(url[k] == url.subrange(0, 8)[k]);
            }
            lemma_no_match_before(url, "http://"@, 8);
            lemma_replaced_keeps_unmatched_prefix(url, "http://"@, ws, 8);
            assert(x1.subrange(0, 8) =~= url.take(8));
            lemma_replaced_leading_match(x1, "https://"@, wss);
            lemma_trimmed_keeps_prefix(x2, wss);
        }
    } else if !is_ws_prefixed_seq(url) {
        assert((wss + url).subrange(0, 6) =~= wss);
        lemma_trimmed_keeps_prefix(wss + url, wss);
    } else if ws.is_prefix_of(url) {
        lemma_trimmed_keeps_prefix(url, ws);
    } else {
        lemma_trimmed_keeps_prefix(url, wss);
    }
}

/// Normalising a websocket URL a second time changes nothing.
pub proof fn law_websocket_url_idempotent(url: Seq<char>)
    ensures
        websocket_url(websocket_url(url)) == websocket_url(url),
{
    reveal_strlit("http://");
    reveal_strlit("https://");
    reveal_strlit("ws://");
    reveal_strlit("wss://");
    let y = websocket_url(url);
    law_websocket_url_has_ws_scheme(url);
    lemma_ws_prefixed_not_http(y);
    if is_http_prefixed_seq(url) {
        lemma_trimmed_idempotent(replaced(replaced(url, "http://"@, "ws://"@), "https://"@, "wss://"@));
    } else if !is_ws_prefixed_seq(url) {
        lemma_trimmed_idempotent("wss://"@ + url);
    } else {
        lemma_trimmed_idempotent(url);
    }
}

/// An address typed without any scheme gets `wss://` in front (never
/// `ws://`), whatever the host looks like, and is then trimmed.
pub proof fn law_scheme_less_address_gets_wss(url: Seq<char>)
    requires
        !is_ws_prefixed_seq(url),
        !is_http_prefixed_seq(url),
    ensures
        websocket_url(url) == trimmed("wss://"@ + url),
        "wss://"@.is_prefix_of(websocket_url(url)),
{
    reveal_strlit("wss://");
    assert(("wss://"@ + url).subrange(0, 6) =~= "wss://"@);
    lemma_trimmed_keeps_prefix("wss://"@ + url, "wss://"@);
}

/// An address typed without any scheme and without trailing white space
/// becomes exactly `wss://` followed by the address.
pub proof fn law_scheme_less_address_kept_after_wss(url: Seq<char>)
    requires
        !is_ws_prefixed_seq(url),
        !is_http_prefixed_seq(url),
        url.len() == 0 || !char_is_whitespace(url.last()),
    ensures
        websocket_url(url) == "wss://"@ + url,
        websocket_url(url).skip(6) == url,
{
    reveal_strlit("wss://");
    let s = "wss://"@ + url;
    assert(s[0] == 'w');
    assert(s[s.len() - 1] == '/' || s[s.len() - 1] == url.last());
    lemma_trimmed_bounds(s, 0, s.len() as int);
    assert(s.subrange(0, s.len() as int) =~= s);
    assert(s.skip(6) =~= url);
}

/// An `http://` address becomes a `ws://` one (not `wss://`), and an
/// `https://` address a `wss://` one.
pub proof fn law_http_scheme_maps_to_ws(url: Seq<char>)
    ensures
        "http://"@.is_prefix_of(url) ==> "ws://"@.is_prefix_of(websocket_url(url)),
        "http://"@.is_prefix_of(url) ==> !"wss://"@.is_prefix_of(websocket_url(url)),
        "https://"@.is_prefix_of(url) ==> "wss://"@.is_prefix_of(websocket_url(url)),
{
    reveal_strlit("http://");
    reveal_strlit("https://");
    reveal_strlit("ws://");
    reveal_strlit("wss://");
    let ws = "ws://"@;
    let wss = "wss://"@;
    let y = websocket_url(url);
    if "http://"@.is_prefix_of(url) {
        let x1 = replaced(url, "http://"@, ws);
        let x2 = replaced(x1, "https://"@, wss);
        lemma_replaced_leading_match(url, "http://"@, ws);
        assert(x1.subrange(0, 5) == ws);
        assert forall|k: int| 0 <= k < 5 implies x1[k] == ws[k] by {
            assert(x1[k] == x1.subrange(0, 5)[k]);
        }
        if occurs_at(x1, "https://"@, 0) {
            assert(x1.subrange(0, 8)[0] == x1[0]);
        }
        lemma_no_match_before(x1, "https://"@, 5);
        lemma_replaced_keeps_unmatched_prefix(x1, "https://"@, wss, 5);
        assert(x2.subrange(0, 5) =~= x1.take(5));
        lemma_trimmed_keeps_prefix(x2, ws);
        assert(y[2] == y.subrange(0, 5)[2]);
        if wss.is_prefix_of(y) {
            assert(y[2] == y.subrange(0, 6)[2]);
        }
    }
    if "https://"@.is_prefix_of(url) {
        if "http://"@.is_prefix_of(url) {
            assert(url[4] == url.subrange(0, 7)[4]);
            assert(url[4] == url.subrange(0, 8)[4]);
        }
        law_websocket_url_has_ws_scheme(url);
        let x1 = replaced(url, "http://"@, ws);
        let x2 = replaced(x1, "https://"@, wss);
        assert(url.subrange(0, 8) == "https://"@);
        assert(url.subrange(0, 7)[4] != "http://"@[4]);
        assert forall|k: int| 0 <= k < 8 implies url[k] == "https://"@[k] by {
            assert(url[k] == url.subrange(0, 8)[k]);
        }
        lemma_no_match_before(url, "http://"@, 8);
        lemma_replaced_keeps_unmatched_prefix(url, "http://"@, ws, 8);
        assert(x1.subrange(0, 8) =~= url.take(8));
        lemma_replaced_leading_match(x1, "https://"@, wss);
        lemma_trimmed_keeps_prefix(x2, wss);
    }
}

/// An address that already has a websocket scheme and no surrounding white
/// space is kept exactly as typed.
pub proof fn law_ws_address_kept(url: Seq<char>)
    requires
        is_ws_prefixed_seq(url),
        !char_is_whitespace(url.last()),
    ensures
        websocket_url(url) == url,
{
    reveal_strlit("ws://");
    reveal_strlit("wss://");
    lemma_ws_prefixed_not_http(url);
    if "ws://"@.is_prefix_of(url) {
        assert(url[0] == url.subrange(0, 5)[0]);
    } else {
        assert(url[0] == url.subrange(0, 6)[0]);
    }
    lemma_trimmed_bounds(url, 0, url.len() as int);
    assert(url.subrange(0, url.len() as int) =~= url);
}

} // verus!
