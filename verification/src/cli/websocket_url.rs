//! An earlier form of the websocket address: a scheme is added where none
//! of `ws://` and `wss://` is given, and the text is otherwise kept.
use vstd::prelude::*;
use crate::cli::websocket::{is_http_prefixed_seq, is_ws_prefixed_seq, lemma_ws_prefixed_not_http};
use crate::text::{replace_all, replaced, starts_with};

verus! {

/// The address for `url`: `wss://` is put in front unless it already begins
/// with `ws://` or `wss://`.
pub open spec fn prefixed_websocket_url(url: Seq<char>) -> Seq<char> {
    if !is_ws_prefixed_seq(url) {
        "wss://"@ + url
    } else if is_http_prefixed_seq(url) {
        replaced(replaced(url, "http://"@, "ws://"@), "https://"@, "wss://"@)
    } else {
        url
    }
}

/// A websocket URL.
pub struct WebsocketURL {
    url: String,
}

impl View for WebsocketURL {
    type V = Seq<char>;

    closed spec fn view(&self) -> Seq<char> {
        self.url@
    }
}

impl WebsocketURL {
    /// The websocket URL for what the user typed.
    pub fn new(url: String) -> (ws: Self)
        ensures
            ws@ == prefixed_websocket_url(url@),
    {
        if !Self::is_ws_prefixed(url.as_str()) {
            WebsocketURL { url: String::from_str(Self::wss()).concat(url.as_str()) }
        } else if Self::is_http_prefixed(url.as_str()) {
            let ws_scheme = replace_all(url.as_str(), Self::http(), Self::ws());
            WebsocketURL { url: replace_all(ws_scheme.as_str(), Self::https(), Self::wss()) }
        } else {
            WebsocketURL { url }
        }
    }

    /// The URL text.
    pub fn value(&self) -> (text: &str)
        ensures
            text@ == self@,
    {
        self.url.as_str()
    }

    fn is_ws_prefixed(url: &str) -> (b: bool)
        ensures
            b == is_ws_prefixed_seq(url@),
    {
        starts_with(url, Self::ws()) || starts_with(url, Self::wss())
    }

    fn is_http_prefixed(url: &str) -> (b: bool)
        ensures
            b == is_http_prefixed_seq(url@),
    {
        starts_with(url, Self::http()) || starts_with(url, Self::https())
    }

    fn http() -> (s: &'static str)
        ensures
            s@ == "http://"@,
    {
        "http://"
    }

    fn https() -> (s: &'static str)
        ensures
            s@ == "https://"@,
    {
        "https://"
    }

    fn ws() -> (s: &'static str)
        ensures
            s@ == "ws://"@,
    {
        "ws://"
    }

    fn wss() -> (s: &'static str)
        ensures
            s@ == "wss://"@,
    {
        "wss://"
    }
}

/// The result always begins with `ws://` or `wss://`.
pub proof fn law_prefixed_websocket_url_has_ws_scheme(url: Seq<char>)
    ensures
        is_ws_prefixed_seq(prefixed_websocket_url(url)),
{
    reveal_strlit("http://");
    reveal_strlit("https://");
    reveal_strlit("ws://");
    reveal_strlit("wss://");
    if !is_ws_prefixed_seq(url) {
        assert(("wss://"@ + url).subrange(0, 6) =~= "wss://"@);
    } else {
        lemma_ws_prefixed_not_http(url);
    }
}

/// A URL that already has a websocket scheme is kept as it is.
pub proof fn law_prefixed_websocket_url_keeps_ws_urls(url: Seq<char>)
    requires
        is_ws_prefixed_seq(url),
    ensures
        prefixed_websocket_url(url) == url,
{
    lemma_ws_prefixed_not_http(url);
}

} // verus!
