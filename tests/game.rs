use rand::rngs::StdRng;
use rand::SeedableRng;
use tokio::sync::broadcast;
use war::card::{Card, Rank, Suit};
use war::deck::Deck;
use war::engine::{resolve, turn, Outcome};
use war::log::{GameLog, GameLogEvent, PlayerId};
use war::state::{init_gamestate, GameState};

fn quiet_log() -> GameLog {
    let (tx, _rx) = broadcast::channel(64);
    GameLog::new(tx)
}

fn card(rank: Rank, suit: Suit) -> Card {
    Card { rank, suit }
}

fn pile_total(gs: &GameState) -> usize {
    gs.a.deck.len()
        + gs.a.wagered.len()
        + gs.a.won.len()
        + gs.b.deck.len()
        + gs.b.wagered.len()
        + gs.b.won.len()
}

fn describe_events(gs: &GameState) -> Vec<String> {
    gs.events().iter().map(|e| format!("{:?}", e)).collect()
}

#[test]
fn unshuffled_match() {
    let mut gs = GameState::new(quiet_log());
    while !gs.deck_is_empty() {
        let outcome = turn(&mut gs);
        assert_eq!(outcome == Outcome::War, true);
    }
}

#[test]
fn canonical_deck_first_trick_is_war() {
    let mut gs = GameState::new(quiet_log());
    assert_eq!(gs.a.deck.len(), 26);
    assert_eq!(gs.b.deck.len(), 26);
    let outcome = turn(&mut gs);
    assert_eq!(outcome, Outcome::War);
    let events = gs.events();
    assert!(matches!(events[0], GameLogEvent::DrewCard(PlayerId::A, c) if c == card(Rank::Two, Suit::Clubs)));
    assert!(matches!(events[1], GameLogEvent::DrewCard(PlayerId::B, c) if c == card(Rank::Two, Suit::Diamonds)));
    assert!(matches!(events[2], GameLogEvent::ComparedMatch(m)
        if m.a_card == card(Rank::Two, Suit::Clubs) && m.b_card == card(Rank::Two, Suit::Diamonds)));
    assert!(matches!(events[3], GameLogEvent::ResolvedMatch(Outcome::War)));
    match &events[6] {
        GameLogEvent::WageredHidden(w) => {
            assert_eq!(w.player, PlayerId::A);
            assert_eq!(
                w.cards,
                vec![
                    card(Rank::Three, Suit::Clubs),
                    card(Rank::Four, Suit::Clubs),
                    card(Rank::Five, Suit::Clubs)
                ]
            );
        }
        other => panic!("expected a blind wager, got {:?}", other),
    }
    assert!(!events
        .iter()
        .any(|e| matches!(e, GameLogEvent::ClaimedWager(_))));
    assert!(matches!(events.last(), Some(GameLogEvent::GameEndedInWar)));
    assert!(gs.deck_is_empty());
    assert_eq!(gs.a.wagered.len(), 26);
    assert_eq!(gs.b.wagered.len(), 26);
    assert_eq!(pile_total(&gs), 52);
}

#[test]
fn single_cards_ace_beats_two() {
    let ace = card(Rank::Ace, Suit::Spades);
    let two = card(Rank::Two, Suit::Spades);
    let mut gs = GameState::from_piles(
        Deck::from_cards(vec![ace]),
        Deck::from_cards(vec![two]),
        quiet_log(),
    );
    let outcome = turn(&mut gs);
    assert_eq!(outcome, Outcome::A);
    assert_eq!(gs.a.won, vec![ace, two]);
    assert!(gs.a.wagered.is_empty());
    assert!(gs.b.wagered.is_empty());
    assert!(gs.b.won.is_empty());
    assert!(gs.a.deck.is_empty());
    assert!(gs.b.deck.is_empty());
    assert!(gs.deck_is_empty());
    match gs.events().last() {
        Some(GameLogEvent::ClaimedWager(w)) => {
            assert_eq!(w.player, PlayerId::A);
            assert_eq!(w.cards, vec![ace, two]);
        }
        other => panic!("expected a claim, got {:?}", other),
    }
    assert_eq!(gs.events().len(), 7);
}

#[test]
fn war_is_settled_by_the_next_face_up_card() {
    // A draws from the end: 5S, then blind 9H, then KD; B: 5C, then blind 2C, then 3D.
    let a = vec![card(Rank::King, Suit::Diamonds), card(Rank::Nine, Suit::Hearts), card(Rank::Five, Suit::Spades)];
    let b = vec![card(Rank::Three, Suit::Diamonds), card(Rank::Two, Suit::Clubs), card(Rank::Five, Suit::Clubs)];
    let mut gs = GameState::from_piles(Deck::from_cards(a), Deck::from_cards(b), quiet_log());
    let outcome = turn(&mut gs);
    assert_eq!(outcome, Outcome::A);
    assert_eq!(
        gs.a.won,
        vec![
            card(Rank::Five, Suit::Spades),
            card(Rank::Nine, Suit::Hearts),
            card(Rank::King, Suit::Diamonds),
            card(Rank::Five, Suit::Clubs),
            card(Rank::Two, Suit::Clubs),
            card(Rank::Three, Suit::Diamonds),
        ]
    );
    assert!(gs.deck_is_empty());
    let hidden: Vec<usize> = gs
        .events()
        .iter()
        .filter_map(|e| match e {
            GameLogEvent::WageredHidden(w) => Some(w.cards.len()),
            _ => None,
        })
        .collect();
    assert_eq!(hidden, vec![1, 1]);
}

#[test]
fn war_round_wagers_at_most_three_blind_cards() {
    let mut gs = GameState::new(quiet_log());
    turn(&mut gs);
    let hidden: Vec<usize> = gs
        .events()
        .iter()
        .filter_map(|e| match e {
            GameLogEvent::WageredHidden(w) => Some(w.cards.len()),
            _ => None,
        })
        .collect();
    // 26 cards each: 1 face up, then rounds of 3 blind + 1 face up while cards remain.
    assert_eq!(hidden, vec![3, 3, 3, 3, 3, 3, 3, 3, 3, 3, 3, 3, 0, 0]);
    assert!(hidden.iter().all(|&n| n <= 3));
}

#[test]
fn resolve_compares_ranks_only() {
    let a = card(Rank::Queen, Suit::Hearts);
    let b = card(Rank::Queen, Suit::Spades);
    assert_eq!(resolve(&a, &b), Outcome::War);
    assert_eq!(resolve(&b, &a), Outcome::War);
    let low = card(Rank::Three, Suit::Spades);
    assert_eq!(resolve(&a, &low), Outcome::A);
    assert_eq!(resolve(&low, &a), Outcome::B);
    let ace = card(Rank::Ace, Suit::Diamonds);
    let king = card(Rank::King, Suit::Spades);
    assert_eq!(resolve(&ace, &king), Outcome::A);
}

#[test]
fn shuffled_game_keeps_all_cards_and_ends() {
    let mut rng = StdRng::seed_from_u64(2024);
    let mut gs = GameState::shuffled(quiet_log(), &mut rng);
    assert!(gs.is_playable());
    assert_eq!(pile_total(&gs), 52);
    let mut turns = 0;
    while !gs.deck_is_empty() {
        let before = gs.pile_sizes();
        turn(&mut gs);
        let after = gs.pile_sizes();
        assert!(after.0 < before.0);
        assert!(after.1 < before.1);
        assert_eq!(after.0, after.1);
        assert_eq!(pile_total(&gs), 52);
        assert!(gs.is_playable());
        turns += 1;
    }
    assert!(turns <= 26);
}

#[test]
fn same_deck_gives_same_game() {
    let play = |seed: u64| {
        let mut rng = StdRng::seed_from_u64(seed);
        let mut gs = GameState::shuffled(quiet_log(), &mut rng);
        let mut outcomes = Vec::new();
        while !gs.deck_is_empty() {
            outcomes.push(turn(&mut gs));
        }
        (outcomes, describe_events(&gs))
    };
    let first = play(99);
    let second = play(99);
    assert_eq!(first, second);
    let unshuffled = |_: ()| {
        let mut gs = GameState::new(quiet_log());
        while !gs.deck_is_empty() {
            turn(&mut gs);
        }
        describe_events(&gs)
    };
    assert_eq!(unshuffled(()), unshuffled(()));
}

#[test]
fn duplicate_cards_are_not_playable() {
    let c = card(Rank::Six, Suit::Hearts);
    let gs = GameState::from_piles(
        Deck::from_cards(vec![c]),
        Deck::from_cards(vec![c]),
        quiet_log(),
    );
    assert!(!gs.is_playable());
    let gs = GameState::from_piles(
        Deck::from_cards(vec![c, card(Rank::Two, Suit::Clubs)]),
        Deck::from_cards(vec![card(Rank::Ace, Suit::Clubs)]),
        quiet_log(),
    );
    assert!(!gs.is_playable());
}

#[test]
fn wager_and_claim_move_cards() {
    let mut gs = GameState::from_piles(Deck::from_cards(vec![]), Deck::from_cards(vec![]), quiet_log());
    let a = card(Rank::Four, Suit::Hearts);
    let b = card(Rank::Nine, Suit::Clubs);
    gs.wager(vec![a], vec![b]);
    assert_eq!(gs.a.wagered, vec![a]);
    assert_eq!(gs.b.wagered, vec![b]);
    let winnings = gs.claim(PlayerId::B);
    assert_eq!(winnings, vec![a, b]);
    assert_eq!(gs.b.won, vec![a, b]);
    assert!(gs.a.wagered.is_empty() && gs.b.wagered.is_empty());
}

#[test]
fn log_publishes_to_subscribers() {
    let (tx, mut rx) = broadcast::channel(16);
    let mut log = GameLog::new(tx);
    log.log(GameLogEvent::GameStarted);
    log.log(GameLogEvent::GameEnded);
    assert_eq!(log.events().len(), 2);
    assert!(matches!(rx.try_recv(), Ok(GameLogEvent::GameStarted)));
    assert!(matches!(rx.try_recv(), Ok(GameLogEvent::GameEnded)));
    assert!(rx.try_recv().is_err());
}

#[test]
fn log_without_subscribers_still_records() {
    let (tx, rx) = broadcast::channel(4);
    drop(rx);
    let mut log = GameLog::new(tx);
    log.log(GameLogEvent::GameStarted);
    assert_eq!(log.events().len(), 1);
}

#[test]
fn fresh_random_game_is_playable() {
    let gs = init_gamestate(quiet_log());
    assert!(gs.is_playable());
    assert_eq!(gs.pile_sizes(), (26, 26));
    assert_eq!(pile_total(&gs), 52);
    assert!(gs.events().is_empty());
}

#[test]
fn shuffling_piles_keeps_each_players_cards() {
    let mut gs = GameState::new(quiet_log());
    let key = |cards: &[Card]| {
        let mut v: Vec<(u8, String)> = cards.iter().map(|c| (c.rank.value(), c.suit.name().to_string())).collect();
        v.sort();
        v
    };
    let a_before = gs.a.deck.cards().clone();
    let b_before = gs.b.deck.cards().clone();
    let mut rng = StdRng::seed_from_u64(5);
    gs.shuffle(&mut rng);
    assert_ne!(gs.a.deck.cards(), &a_before);
    assert_eq!(key(gs.a.deck.cards()), key(&a_before));
    assert_eq!(key(gs.b.deck.cards()), key(&b_before));
    assert!(gs.is_playable());
}

#[test]
fn deal_gives_alternate_packets_of_thirteen() {
    let gs = GameState::deal(Deck::new(), quiet_log());
    let a = gs.a.deck.cards();
    let b = gs.b.deck.cards();
    // A: spades then clubs, each from the ace down, so the two of clubs is on top.
    assert_eq!(a[0], card(Rank::Ace, Suit::Spades));
    assert_eq!(a[12], card(Rank::Two, Suit::Spades));
    assert_eq!(a[13], card(Rank::Ace, Suit::Clubs));
    assert_eq!(a[25], card(Rank::Two, Suit::Clubs));
    assert_eq!(b[0], card(Rank::Ace, Suit::Hearts));
    assert_eq!(b[25], card(Rank::Two, Suit::Diamonds));
}
