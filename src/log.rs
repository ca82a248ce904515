use tokio::sync::broadcast::Sender;
use vstd::prelude::*;

use crate::card::Card;
use crate::engine::Outcome;

verus! {

/// The sending half of a tokio broadcast channel; opaque here.
#[verifier::external_type_specification]
#[verifier::external_body]
#[verifier::reject_recursive_types(T)]
pub struct ExSender<T>(Sender<T>);

/// Relies on tokio's `broadcast::Sender::send`: the event is queued for every
/// current subscriber, a lagging one losing its oldest events; with no subscriber
/// the call returns an error, which changes nothing and is ignored here.
#[verifier::external_body]
fn publish(tx: &Sender<GameLogEvent>, event: GameLogEvent) {
    let _ = tx.send(event);
}

/// One of the two players; also the token of a connection slot.
#[derive(Debug, Clone, Copy, PartialEq, Eq, Hash, Structural)]
pub enum PlayerId {
    A,
    B,
}

/// The two face-up cards of one trick.
#[derive(Debug, Clone, Copy, PartialEq, Eq, Structural)]
pub struct Comparison {
    pub a_card: Card,
    pub b_card: Card,
}

/// Cards that one player put at risk, or claimed.
#[derive(Debug, Clone)]
pub struct Wager {
    pub player: PlayerId,
    pub cards: Vec<Card>,
}

/// One occurrence of the game, as observers see it.
#[derive(Debug, Clone)]
pub enum GameLogEvent {
    GameStarted,
    DrewCard(PlayerId, Card),
    ComparedMatch(Comparison),
    ResolvedMatch(Outcome),
    WageredVisible(Wager),
    WageredHidden(Wager),
    ClaimedWager(Wager),
    GameEndedInWar,
    GameEnded,
}

/// The mathematical value of a `GameLogEvent`.
pub enum LogEntry {
    GameStarted,
    DrewCard(PlayerId, Card),
    ComparedMatch(Card, Card),
    ResolvedMatch(Outcome),
    WageredVisible(PlayerId, Seq<Card>),
    WageredHidden(PlayerId, Seq<Card>),
    ClaimedWager(PlayerId, Seq<Card>),
    GameEndedInWar,
    GameEnded,
}

impl View for GameLogEvent {
    type V = LogEntry;

    open spec fn view(&self) -> LogEntry {
        match self {
            GameLogEvent::GameStarted => LogEntry::GameStarted,
            GameLogEvent::DrewCard(p, c) => LogEntry::DrewCard(*p, *c),
            GameLogEvent::ComparedMatch(m) => LogEntry::ComparedMatch(m.a_card, m.b_card),
            GameLogEvent::ResolvedMatch(o) => LogEntry::ResolvedMatch(*o),
            GameLogEvent::WageredVisible(w) => LogEntry::WageredVisible(w.player, w.cards@),
            GameLogEvent::WageredHidden(w) => LogEntry::WageredHidden(w.player, w.cards@),
            GameLogEvent::ClaimedWager(w) => LogEntry::ClaimedWager(w.player, w.cards@),
            GameLogEvent::GameEndedInWar => LogEntry::GameEndedInWar,
            GameLogEvent::GameEnded => LogEntry::GameEnded,
        }
    }
}

/// The values of a sequence of events.
pub open spec fn entries_of(events: Seq<GameLogEvent>) -> Seq<LogEntry> {
    events.map_values(|e: GameLogEvent| e@)
}

/// The append-only history of a game, which also publishes each new event to
/// the subscribers of a broadcast channel.
pub struct GameLog {
    logs: Vec<GameLogEvent>,
    tx: Sender<GameLogEvent>,
}

impl View for GameLog {
    type V = Seq<LogEntry>;

    closed spec fn view(&self) -> Seq<LogEntry> {
        entries_of(self.logs@)
    }
}

impl GameLog {
    /// An empty history that publishes on `tx`.
    pub fn new(tx: Sender<GameLogEvent>) -> (r: GameLog)
        ensures
            r@ == Seq::<LogEntry>::empty(),
    {
        let r = GameLog { logs: Vec::new(), tx };
        assert(r@ =~= Seq::<LogEntry>::empty());
        r
    }

    /// Appends `event` to the history and publishes it; never waits for a subscriber.
    pub fn log(&mut self, event: GameLogEvent)
        ensures
            final(self)@ == old(self)@.push(event@),
    {
        publish(&self.tx, event.clone());
        self.logs.push(event);
        assert(entries_of(self.logs@) =~= entries_of(old(self).logs@).push(event@));
    }

    /// The events logged so far, oldest first.
    pub fn events(&self) -> (r: &Vec<GameLogEvent>)
        ensures
            entries_of(r@) == self@,
    {
        &self.logs
    }
}

} // verus!
