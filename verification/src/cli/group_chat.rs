//! The command-line client of the group chat: what it asks before joining,
//! and how it shows what arrives.
use vstd::prelude::*;
use crate::chat::{Chat, ChatSender};
use crate::cli::websocket::{url_with_query_param, websocket_url, InvalidUrl, WebsocketURL};
use crate::system_chat_message::joined_text;
use crate::text::{
    contains, contains_seq, lemma_replaced_without_match, occurs_at, replace_all, replaced, trim,
    trimmed,
};
use crate::user::User;

verus! {

/// Where to connect and who is joining.
pub struct GroupChatDetails {
    url: WebsocketURL,
    user: User,
}

impl View for GroupChatDetails {
    /// The URL, then the user's name.
    type V = (Seq<char>, Seq<char>);

    closed spec fn view(&self) -> (Seq<char>, Seq<char>) {
        (self.url@, self.user.name@)
    }
}

impl GroupChatDetails {
    /// The details for the answers to the two questions the client asks: the
    /// group chat URL and the alias. The alias is trimmed, becomes the user's
    /// name and travels as the query parameter `name`; a URL that cannot be
    /// parsed is refused.
    pub fn from_answers(url: String, alias: String) -> (res: Result<Self, InvalidUrl>)
        ensures
            res is Err <==> url_with_query_param(websocket_url(url@), "name"@, trimmed(alias@))
                is None,
            res matches Ok(details) ==> {
                &&& url_with_query_param(websocket_url(url@), "name"@, trimmed(alias@)) == Some(
                    details@.0,
                )
                &&& details@.1 == trimmed(alias@)
            },
    {
        let username = trim(alias.as_str());
        let ws = WebsocketURL::new(url);
        match ws.try_append_query_param("name", username.as_str()) {
            Ok(url) => Ok(GroupChatDetails { url, user: User::from_name(username) }),
            Err(e) => Err(e),
        }
    }

    /// The URL to connect to.
    pub fn url(&self) -> (url: String)
        ensures
            url@ == self@.0,
    {
        self.url.value().to_owned()
    }

    /// The user who joins.
    pub fn user(&self) -> (user: &User)
        ensures
            user.name@ == self@.1,
    {
        &self.user
    }
}

/// The line that follows the announcement of the reader's own arrival.
pub open spec fn welcome_line() -> Seq<char> {
    "Bravo! You can now type and send your chat messages.\n"@
}

/// The lines the client prints for a chat that arrives, when the reader is
/// called `me`. The server's messages that name the reader are shown with
/// "You" in place of the name, followed by a welcome line; the reader's own
/// messages are shown as written by "You".
pub open spec fn shown_lines(from: ChatSender, message: Seq<char>, me: Seq<char>) -> Seq<Seq<char>> {
    match from {
        ChatSender::System => {
            if contains_seq(message, me) {
                seq!["\n"@ + replaced(message, me, "You"@), welcome_line()]
            } else {
                seq![message]
            }
        },
        ChatSender::User(user) => {
            if user.name@ == me {
                seq!["You: "@ + message + "\n"@]
            } else {
                seq![user.name@ + ": "@ + message + "\n"@]
            }
        },
    }
}

/// The client's side of a group chat session.
pub struct GroupChat;

impl GroupChat {
    /// The lines to print for `chat`, read by `me`.
    pub fn shown(chat: &Chat, me: &User) -> (lines: Vec<String>)
        ensures
            lines@.len() == shown_lines(chat.from, chat.message@, me.name@).len(),
            forall|i: int|
                0 <= i < lines@.len() ==> #[trigger] lines@[i]@ == shown_lines(
                    chat.from,
                    chat.message@,
                    me.name@,
                )[i],
    {
        let mut lines: Vec<String> = Vec::new();
        match &chat.from {
            ChatSender::System => {
                if contains(chat.message.as_str(), me.name.as_str()) {
                    let named = replace_all(chat.message.as_str(), me.name.as_str(), "You");
                    lines.push(String::from_str("\n").concat(named.as_str()));
                    lines.push(String::from_str("Bravo! You can now type and send your chat messages.\n"));
                } else {
                    lines.push(chat.message.clone());
                }
            },
            ChatSender::User(user) => {
                if user.is_equal_to(me) {
                    lines.push(String::from_str("You: ").concat(chat.message.as_str()).concat("\n"));
                } else {
                    lines.push(user.name.clone().concat(": ").concat(chat.message.as_str()).concat("\n"));
                }
            },
        }
        lines
    }

    /// A typed line is sent unless it is empty.
    pub fn outgoing(line: String) -> (sent: Option<String>)
        ensures
            sent is Some <==> line@.len() > 0,
            sent matches Some(text) ==> text@ == line@,
    {
        if line.as_str().is_empty() {
            None
        } else {
            Some(line)
        }
    }
}

/// A chat written by someone other than the reader is shown on one line:
/// the writer's name, ": ", the message exactly as written, and a newline.
pub proof fn law_others_chat_shown_verbatim(writer: User, message: Seq<char>, me: Seq<char>)
    requires
        writer.name@ != me,
    ensures
        shown_lines(ChatSender::User(writer), message, me).len() == 1,
        shown_lines(ChatSender::User(writer), message, me)[0] == writer.name@ + ": "@ + message
            + "\n"@,
{
}

/// How someone else's chat is shown does not depend on who reads it: the
/// reader's name is never substituted into it.
pub proof fn law_others_chat_independent_of_reader(
    writer: User,
    message: Seq<char>,
    me1: Seq<char>,
    me2: Seq<char>,
)
    requires
        writer.name@ != me1,
        writer.name@ != me2,
    ensures
        shown_lines(ChatSender::User(writer), message, me1) == shown_lines(
            ChatSender::User(writer),
            message,
            me2,
        ),
{
}

/// The reader's own chat is shown as written by "You", with the message
/// exactly as written.
pub proof fn law_own_chat_shown_as_you(writer: User, message: Seq<char>)
    ensures
        shown_lines(ChatSender::User(writer), message, writer.name@) == seq![
            "You: "@ + message + "\n"@,
        ],
{
}

/// A server message that does not name the reader is shown as it is.
pub proof fn law_unrelated_server_message_shown_as_is(message: Seq<char>, me: Seq<char>)
    requires
        !contains_seq(message, me),
    ensures
        shown_lines(ChatSender::System, message, me) == seq![message],
{
}

/// The reader always recognises the announcement of its own arrival: it is
/// shown on two lines, the second being the welcome line.
pub proof fn law_own_arrival_recognised(name: Seq<char>)
    ensures
        shown_lines(ChatSender::System, joined_text(name), name).len() == 2,
        shown_lines(ChatSender::System, joined_text(name), name)[1] == welcome_line(),
{
    assert(joined_text(name).subrange(0, name.len() as int) =~= name);
    assert(occurs_at(joined_text(name), name, 0));
}

/// For a name that does not occur in " joined.", the reader's own arrival
/// reads "You joined.".
pub proof fn law_own_arrival_shown_as_you(name: Seq<char>)
    requires
        name.len() > 0,
        !contains_seq(" joined."@, name),
    ensures
        shown_lines(ChatSender::System, joined_text(name), name) == seq![
            "\n"@ + "You joined."@,
            welcome_line(),
        ],
{
    reveal_strlit(" joined.");
    reveal_strlit("You");
    reveal_strlit("You joined.");
    let text = joined_text(name);
    law_own_arrival_recognised(name);
    assert(text.subrange(0, name.len() as int) =~= name);
    assert(name.is_prefix_of(text));
    assert(text.skip(name.len() as int) =~= " joined."@);
    lemma_replaced_without_match(" joined."@, name, "You"@);
    assert(replaced(text, name, "You"@) == "You"@ + replaced(" joined."@, name, "You"@));
    assert("You"@ + " joined."@ =~= "You joined."@);
}

} // verus!
