use war::card::{Card, Rank, Suit};
use tokio::sync::broadcast;
use war::engine::Outcome;
use war::input::GameInputEvent;
use war::log::{GameLog, GameLogEvent, PlayerId};
use war::relay::{handle_input, identity_announcement, server_full_notice, ServerState};
use war::state::GameState;
use war::deck::Deck;

#[test]
fn third_connection_finds_server_full() {
    let mut slots = ServerState::new();
    assert_eq!(slots.claim_player_slot(), Some(PlayerId::A));
    assert_eq!(slots.claim_player_slot(), Some(PlayerId::B));
    assert_eq!(slots.claim_player_slot(), None);
    assert_eq!(server_full_notice(), "Server full");
    // The refusal takes nothing from the two players: their slots stay taken.
    assert_eq!(slots.claim_player_slot(), None);
}

#[test]
fn released_slot_can_be_claimed_again() {
    let mut slots = ServerState::new();
    assert_eq!(slots.claim_player_slot(), Some(PlayerId::A));
    assert_eq!(slots.claim_player_slot(), Some(PlayerId::B));
    slots.release_player_slot(PlayerId::A);
    slots.release_player_slot(PlayerId::A);
    assert_eq!(slots.claim_player_slot(), Some(PlayerId::A));
    assert_eq!(slots.claim_player_slot(), None);
}

#[test]
fn announcements_name_the_slot() {
    assert_eq!(identity_announcement(PlayerId::A), "Player Id: A");
    assert_eq!(identity_announcement(PlayerId::B), "Player Id: B");
}

#[test]
fn input_events_carry_their_sender() {
    let e = GameInputEvent::new("go", PlayerId::B);
    assert_eq!(e.text, "go");
    assert!(!e.close);
    assert_eq!(e.player, PlayerId::B);
    let d = GameInputEvent::player_disconnect(PlayerId::A);
    assert!(d.close);
    assert_eq!(d.player, PlayerId::A);
    assert_eq!(d.text, "player disconnected");
}

fn drain(rx: &mut broadcast::Receiver<GameLogEvent>) -> Vec<String> {
    let mut seen = Vec::new();
    while let Ok(e) = rx.try_recv() {
        seen.push(format!("{:?}", e));
    }
    seen
}

#[test]
fn any_input_advances_one_trick_seen_alike_by_both() {
    let (tx, _keep) = broadcast::channel(256);
    let mut conn_a = tx.subscribe();
    let mut conn_b = tx.subscribe();
    let mut gs = GameState::new(GameLog::new(tx));
    let mut slots = ServerState::new();
    slots.claim_player_slot();
    slots.claim_player_slot();
    let outcome = handle_input(&mut gs, &mut slots, &GameInputEvent::new("x", PlayerId::B));
    assert_eq!(outcome, Some(Outcome::War));
    let seen_a = drain(&mut conn_a);
    let seen_b = drain(&mut conn_b);
    assert_eq!(seen_a.len(), gs.events().len());
    assert_eq!(seen_a, seen_b);
    let logged: Vec<String> = gs.events().iter().map(|e| format!("{:?}", e)).collect();
    assert_eq!(seen_a, logged);
    // The game is over: a further input plays nothing.
    let again = handle_input(&mut gs, &mut slots, &GameInputEvent::new("x", PlayerId::A));
    assert_eq!(again, None);
    assert!(drain(&mut conn_a).is_empty());
}

#[test]
fn input_from_either_player_plays_one_trick() {
    let c = |rank, suit| Card { rank, suit };
    let (tx, _keep) = broadcast::channel(64);
    let mut watcher = tx.subscribe();
    let a = Deck::from_cards(vec![c(Rank::Two, Suit::Hearts), c(Rank::Nine, Suit::Hearts)]);
    let b = Deck::from_cards(vec![c(Rank::Ace, Suit::Clubs), c(Rank::Four, Suit::Clubs)]);
    let mut gs = GameState::from_piles(a, b, GameLog::new(tx));
    let mut slots = ServerState::new();
    slots.claim_player_slot();
    slots.claim_player_slot();
    assert_eq!(handle_input(&mut gs, &mut slots, &GameInputEvent::new("", PlayerId::B)), Some(Outcome::A));
    assert_eq!(drain(&mut watcher).len(), 7);
    assert_eq!(handle_input(&mut gs, &mut slots, &GameInputEvent::new("", PlayerId::A)), Some(Outcome::B));
    assert_eq!(drain(&mut watcher).len(), 7);
    assert!(gs.deck_is_empty());
}

#[test]
fn disconnect_returns_the_slot_and_still_plays() {
    let mut gs = GameState::new(GameLog::new(broadcast::channel(8).0));
    let mut slots = ServerState::new();
    slots.claim_player_slot();
    slots.claim_player_slot();
    let r = handle_input(&mut gs, &mut slots, &GameInputEvent::player_disconnect(PlayerId::A));
    assert_eq!(r, Some(Outcome::War));
    assert_eq!(slots.claim_player_slot(), Some(PlayerId::A));
    assert_eq!(slots.claim_player_slot(), None);
}

#[test]
fn uneven_piles_play_nothing() {
    let a = Deck::from_cards(vec![Card { rank: Rank::Two, suit: Suit::Hearts }]);
    let b = Deck::from_cards(vec![]);
    let mut gs = GameState::from_piles(a, b, GameLog::new(broadcast::channel(8).0));
    let mut slots = ServerState::new();
    assert_eq!(handle_input(&mut gs, &mut slots, &GameInputEvent::new("", PlayerId::A)), None);
    assert_eq!(gs.a.deck.len(), 1);
    assert!(gs.events().is_empty());
}
