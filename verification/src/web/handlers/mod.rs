pub mod group_chat_handler;
