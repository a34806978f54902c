//! The sounds the client plays; the player itself belongs to the terminal
//! front end.

use vstd::prelude::*;

verus! {

/// A sound effect.
#[derive(Debug, Clone, Copy, PartialEq, Eq, Hash, Structural)]
pub enum SoundType {
    ChangeChannel,
    SendChannelMessage,
    ReceiveChannelMessage,
    DirectMessage,
    Error,
    Notify,
    LoginSuccess,
    LoginFailure,
    MessageSent,
    Mention,
    PopupOpen,
    PopupClose,
    Select,
    Scroll,
    Save,
}

} // verus!
