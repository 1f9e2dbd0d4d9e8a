//! A group chat: a server that admits users under unique names and relays
//! their messages as JSON, and a command-line client that joins it.

pub mod chat;
pub mod cli;
pub mod system_chat_message;
pub mod text;
pub mod user;
pub mod user_repo;
pub mod web;

pub use chat::{Chat, ChatSender};
pub use system_chat_message::SystemChatMessage;
pub use user::User;
pub use user_repo::{UserRepo, UserRepoError};
