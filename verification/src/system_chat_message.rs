//! The server's announcements of arrivals and departures.
use vstd::prelude::*;
use crate::chat::{chat_json, law_chat_json_decodes, Chat, ChatSender};
use crate::user::User;

verus! {

/// The text announcing that `name` joined.
pub open spec fn joined_text(name: Seq<char>) -> Seq<char> {
    name + " joined."@
}

/// The text announcing that `name` left.
pub open spec fn left_text(name: Seq<char>) -> Seq<char> {
    name + " left."@
}

/// Builder of the server's own chat messages.
pub struct SystemChatMessage;

impl SystemChatMessage {
    /// The JSON of the server's message "<name> joined.".
    pub fn user_joined(user: &User) -> (json: String)
        ensures
            json@ == chat_json(ChatSender::System, joined_text(user.name@)),
    {
        let message = user.name.clone().concat(" joined.");
        Chat::from_system(message.as_str()).to_string()
    }

    /// The JSON of the server's message "<name> left.".
    pub fn user_left(user: &User) -> (json: String)
        ensures
            json@ == chat_json(ChatSender::System, left_text(user.name@)),
    {
        let message = user.name.clone().concat(" left.");
        Chat::from_system(message.as_str()).to_string()
    }
}

/// The arrival text is the user's whole name, exactly as given, followed by
/// " joined.".
pub proof fn law_joined_text_holds_whole_name(name: Seq<char>)
    ensures
        joined_text(name).len() == name.len() + 8,
        joined_text(name).take(name.len() as int) == name,
        joined_text(name).skip(name.len() as int) == " joined."@,
{
    reveal_strlit(" joined.");
    assert(joined_text(name).take(name.len() as int) =~= name);
    assert(joined_text(name).skip(name.len() as int) =~= " joined."@);
}

/// The departure text is the user's whole name, exactly as given, followed
/// by " left.".
pub proof fn law_left_text_holds_whole_name(name: Seq<char>)
    ensures
        left_text(name).len() == name.len() + 6,
        left_text(name).take(name.len() as int) == name,
        left_text(name).skip(name.len() as int) == " left."@,
{
    reveal_strlit(" left.");
    assert(left_text(name).take(name.len() as int) =~= name);
    assert(left_text(name).skip(name.len() as int) =~= " left."@);
}

/// Arrivals of different users are announced differently: the announcement
/// `user_joined` sends determines the name.
pub proof fn law_joined_announcement_tells_users_apart(n1: Seq<char>, n2: Seq<char>)
    requires
        chat_json(ChatSender::System, joined_text(n1)) == chat_json(
            ChatSender::System,
            joined_text(n2),
        ),
    ensures
        n1 == n2,
{
    law_chat_json_decodes(ChatSender::System, joined_text(n1), ChatSender::System, joined_text(n2));
    law_joined_text_holds_whole_name(n1);
    law_joined_text_holds_whole_name(n2);
}

/// Departures of different users are announced differently: the
/// announcement `user_left` sends determines the name.
pub proof fn law_left_announcement_tells_users_apart(n1: Seq<char>, n2: Seq<char>)
    requires
        chat_json(ChatSender::System, left_text(n1)) == chat_json(
            ChatSender::System,
            left_text(n2),
        ),
    ensures
        n1 == n2,
{
    law_chat_json_decodes(ChatSender::System, left_text(n1), ChatSender::System, left_text(n2));
    law_left_text_holds_whole_name(n1);
    law_left_text_holds_whole_name(n2);
}

} // verus!
