//! What the server decides for each websocket session: whether a user may
//! join under its name, what the group hears about it, and what is left to
//! do when the session ends.
use vstd::prelude::*;
use crate::chat::{chat_json, Chat, ChatSender};
use crate::system_chat_message::{joined_text, left_text, SystemChatMessage};
use crate::user::User;
use crate::user_repo::{
    add_succeeds, after_add, after_remove, error_text, UserRepo, UserRepoError,
};

verus! {

/// The session of an admitted user. Only `join` makes one, and only
/// `disconnect_user` ends one, so a name is freed only by the session that
/// took it.
pub struct Session {
    user: User,
}

impl View for Session {
    /// The name the session holds.
    type V = Seq<char>;

    closed spec fn view(&self) -> Seq<char> {
        self.user.name@
    }
}

impl Session {
    /// The user of this session.
    pub fn user(&self) -> (user: &User)
        ensures
            user.name@ == self@,
    {
        &self.user
    }
}

/// The answer to a user who asks to join.
pub enum JoinOutcome {
    /// The name was free and is now the user's; `announcement` goes to the
    /// whole group.
    Admitted { session: Session, announcement: String },
    /// The name is taken; `reply` goes back to the user alone.
    Refused { reply: String },
}

/// Lets `user` join when its name is free, and says what to send.
pub fn join(user_repo: &mut UserRepo, user: &User) -> (outcome: JoinOutcome)
    ensures
        outcome is Admitted <==> add_succeeds(old(user_repo)@, user.name@),
        final(user_repo)@ == after_add(old(user_repo)@, user.name@),
        outcome matches JoinOutcome::Admitted { session, announcement } ==> {
            &&& session@ == user.name@
            &&& announcement@ == chat_json(ChatSender::System, joined_text(user.name@))
        },
        outcome matches JoinOutcome::Refused { reply } ==> reply@ == error_text(
            UserRepoError::UserAlreadyExists,
        ),
{
    match user_repo.add_user(user) {
        Ok(()) => JoinOutcome::Admitted {
            session: Session { user: user.duplicate() },
            announcement: SystemChatMessage::user_joined(user),
        },
        Err(user_repo_error) => JoinOutcome::Refused { reply: String::from(user_repo_error) },
    }
}

/// The JSON that the group receives for the text `message` of `user`.
pub fn chat_from(user: &User, message: &str) -> (json: String)
    ensures
        json@ == chat_json(ChatSender::User(*user), message@),
{
    Chat::from_user(message, user).to_string()
}

/// Ends `session`: frees its name and returns the announcement for the
/// group.
pub fn disconnect_user(session: Session, user_repo: &mut UserRepo) -> (announcement: String)
    ensures
        final(user_repo)@ == after_remove(old(user_repo)@, session@),
        announcement@ == chat_json(ChatSender::System, left_text(session@)),
{
    let user_left_msg = SystemChatMessage::user_left(&session.user);
    user_repo.remove_user(session.user);
    user_left_msg
}

} // verus!
