//! Client-side logic of the Nexus terminal chat and forum client: input
//! validation, message and suggestion processing, the image cache, the
//! per-screen state, and the transitions driven by key presses and by
//! messages from the server.

pub mod text;
pub mod codec;
pub mod error;
pub mod model;
pub mod services;
pub mod state;
pub mod sound;
pub mod prefs;
pub mod notify;
pub mod appearance;
pub mod app;
pub mod server_events;
pub mod input;
pub mod handlers;
pub mod time_format;
pub mod avatar;
pub mod properties;
