//! Services: stateless processing of messages, profiles, images and chat.

pub mod message;
pub mod profile;
pub mod image;
pub mod chat;
