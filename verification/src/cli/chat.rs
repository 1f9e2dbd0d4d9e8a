//! What the command-line client asks before joining a group chat.
use vstd::prelude::*;
use crate::cli::websocket::{url_with_query_param, websocket_url, InvalidUrl, WebsocketURL};

verus! {

/// Where to connect and under which alias.
pub struct GroupChatDetails {
    url: WebsocketURL,
    username: String,
}

impl View for GroupChatDetails {
    /// The URL, then the alias.
    type V = (Seq<char>, Seq<char>);

    closed spec fn view(&self) -> (Seq<char>, Seq<char>) {
        (self.url@, self.username@)
    }
}

impl GroupChatDetails {
    /// The details for the answers to the two questions the client asks: the
    /// group chat URL and the alias. The alias travels as the query parameter
    /// `name`; a URL that cannot be parsed is refused.
    pub fn from_answers(url: String, username: String) -> (res: Result<Self, InvalidUrl>)
        ensures
            res is Err <==> url_with_query_param(websocket_url(url@), "name"@, username@) is None,
            res matches Ok(details) ==> {
                &&& url_with_query_param(websocket_url(url@), "name"@, username@) == Some(
                    details@.0,
                )
                &&& details@.1 == username@
            },
    {
        let ws = WebsocketURL::new(url);
        match ws.try_append_query_param("name", username.as_str()) {
            Ok(url) => Ok(GroupChatDetails { url, username }),
            Err(e) => Err(e),
        }
    }

    /// The URL to connect to.
    pub fn url(&self) -> (url: String)
        ensures
            url@ == self@.0,
    {
        self.url.value().to_owned()
    }
}

} // verus!
