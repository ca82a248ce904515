use vstd::prelude::*;

use crate::log::PlayerId;

verus! {

/// A message from one player's connection; `close` marks a disconnect.
#[derive(Debug, Clone)]
pub struct GameInputEvent {
    pub text: String,
    pub close: bool,
    pub player: PlayerId,
}

impl GameInputEvent {
    /// An ordinary message `text` from `source`.
    pub fn new(text: &str, source: PlayerId) -> (r: GameInputEvent)
        ensures
            r.text@ == text@,
            !r.close,
            r.player == source,
    {
        GameInputEvent { text: text.to_owned(), close: false, player: source }
    }

    /// The event that `source` has disconnected.
    pub fn player_disconnect(source: PlayerId) -> (r: GameInputEvent)
        ensures
            r.text@ == "player disconnected"@,
            r.close,
            r.player == source,
    {
        GameInputEvent { text: String::from_str("player disconnected"), close: true, player: source }
    }
}

} // verus!
