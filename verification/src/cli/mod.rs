pub mod chat;
pub mod group_chat;
pub mod terminal;
pub mod websocket;
pub mod websocket_url;
