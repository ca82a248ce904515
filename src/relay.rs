use vstd::prelude::*;

use crate::engine::{trick, turn, Outcome};
use crate::input::GameInputEvent;
use crate::log::PlayerId;
use crate::state::GameState;

verus! {

/// The pool of free player slots; the last one is handed out next.
pub struct ServerState {
    available_player_slots: Vec<PlayerId>,
}

impl View for ServerState {
    type V = Seq<PlayerId>;

    closed spec fn view(&self) -> Seq<PlayerId> {
        self.available_player_slots@
    }
}

impl ServerState {
    /// Both slots free; A is handed out first.
    pub fn new() -> (r: ServerState)
        ensures
            r@ == seq![PlayerId::B, PlayerId::A],
    {
        let mut slots: Vec<PlayerId> = Vec::new();
        slots.push(PlayerId::B);
        slots.push(PlayerId::A);
        assert(slots@ =~= seq![PlayerId::B, PlayerId::A]);
        ServerState { available_player_slots: slots }
    }

    /// Takes a free slot, or `None` when both are taken.
    pub fn claim_player_slot(&mut self) -> (r: Option<PlayerId>)
        ensures
            old(self)@.len() == 0 ==> r is None && final(self)@ == old(self)@,
            old(self)@.len() > 0 ==> r == Some(old(self)@.last()) && final(self)@
                == old(self)@.drop_last(),
    {
        self.available_player_slots.pop()
    }

    /// Returns `id` to the pool, unless it is free already.
    pub fn release_player_slot(&mut self, id: PlayerId)
        ensures
            final(self)@ == if old(self)@.contains(id) {
                old(self)@
            } else {
                old(self)@.push(id)
            },
    {
        let n = self.available_player_slots.len();
        let mut i: usize = 0;
        while i < n
            invariant
                i <= n,
                n == self@.len(),
                self@ == old(self)@,
                forall|j: int| 0 <= j < i ==> self@[j] != id,
            decreases n - i,
        {
            if self.available_player_slots[i] == id {
                return;
            }
            i = i + 1;
        }
        self.available_player_slots.push(id);
    }
}

/// The notice sent to a connection that finds both slots taken.
pub fn server_full_notice() -> (r: String)
    ensures
        r@ == "Server full"@,
{
    String::from_str("Server full")
}

/// The first message on a connection: the slot it was given.
pub fn identity_announcement(id: PlayerId) -> (r: String)
    ensures
        r@ == "Player Id: "@ + match id {
            PlayerId::A => "A"@,
            PlayerId::B => "B"@,
        },
{
    let s = String::from_str("Player Id: ");
    match id {
        PlayerId::A => s.concat("A"),
        PlayerId::B => s.concat("B"),
    }
}

/// What the game loop does with one input event, from whichever player: a
/// disconnect returns that player's slot to the pool; then, while a trick can be
/// played (both draw piles non-empty and of equal size), exactly one trick is
/// played and its outcome returned. Otherwise the game is left as it is.
pub fn handle_input(gs: &mut GameState, slots: &mut ServerState, input: &GameInputEvent) -> (r:
    Option<Outcome>)
    ensures
        final(slots)@ == if input.close && !old(slots)@.contains(input.player) {
            old(slots)@.push(input.player)
        } else {
            old(slots)@
        },
        r is Some <==> (old(gs)@.a.deck.len() > 0 && old(gs)@.a.deck.len()
            == old(gs)@.b.deck.len()),
        r is Some ==> (final(gs)@, r->0) == trick(old(gs)@),
        r is None ==> final(gs)@ == old(gs)@,
{
    if input.close {
        slots.release_player_slot(input.player);
    }
    let (na, nb) = gs.pile_sizes();
    if na > 0 && na == nb {
        Some(turn(gs))
    } else {
        None
    }
}

} // verus!
