pub mod errorentry;
pub mod icon_row;
pub mod message;
pub mod message_state;
pub mod sqlite_context;
pub mod subscription_entry;
pub mod subscription_state;
