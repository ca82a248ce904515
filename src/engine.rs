use vstd::prelude::*;

use crate::card::Card;
use crate::log::{Comparison, GameLogEvent, LogEntry, PlayerId, Wager};
use crate::laws::{law_progress, law_trick_keeps_cards};
use crate::state::{all_cards, claimed, exhausted, playable, GameState, PlayerView, Table};

verus! {

/// Result of comparing two face-up cards: the higher rank wins, equal ranks are a war.
#[derive(Debug, Clone, Copy, PartialEq, Eq, Structural)]
pub enum Outcome {
    A,
    B,
    War,
}

/// The outcome of A's card `a` against B's card `b`: by rank alone.
pub open spec fn outcome_of(a: Card, b: Card) -> Outcome {
    if a.rank.spec_value() > b.rank.spec_value() {
        Outcome::A
    } else if b.rank.spec_value() > a.rank.spec_value() {
        Outcome::B
    } else {
        Outcome::War
    }
}

/// Most cards that each player wagers blind in one war round.
pub const BLIND_CAP: usize = 3;

/// The events of one face-up comparison of A's card `x` with B's card `y`.
pub open spec fn face_up_entries(x: Card, y: Card) -> Seq<LogEntry> {
    seq![
        LogEntry::DrewCard(PlayerId::A, x),
        LogEntry::DrewCard(PlayerId::B, y),
        LogEntry::ComparedMatch(x, y),
        LogEntry::ResolvedMatch(outcome_of(x, y)),
        LogEntry::WageredVisible(PlayerId::A, seq![x]),
        LogEntry::WageredVisible(PlayerId::B, seq![y]),
    ]
}

/// The outcome of turning up the top cards of `t`.
pub open spec fn face_up_outcome(t: Table) -> Outcome {
    outcome_of(t.a.deck.last(), t.b.deck.last())
}

/// Each player turns up the top card of the draw pile; the two are compared and
/// each goes onto its owner's wagered pile.
pub open spec fn face_up(t: Table) -> Table {
    let x = t.a.deck.last();
    let y = t.b.deck.last();
    Table {
        a: PlayerView { deck: t.a.deck.drop_last(), wagered: t.a.wagered.push(x), won: t.a.won },
        b: PlayerView { deck: t.b.deck.drop_last(), wagered: t.b.wagered.push(y), won: t.b.won },
        log: t.log + face_up_entries(x, y),
    }
}

/// How many cards each player wagers blind in a war round on `t`: up to the cap,
/// while both players keep at least one card to turn up.
pub open spec fn blind_count(t: Table) -> int {
    let n = if t.a.deck.len() <= t.b.deck.len() {
        t.a.deck.len() as int
    } else {
        t.b.deck.len() as int
    };
    if n <= 1 {
        0
    } else if n - 1 < BLIND_CAP {
        n - 1
    } else {
        BLIND_CAP as int
    }
}

/// The top `k` cards of `s`, in the order in which they are drawn.
pub open spec fn top_cards(s: Seq<Card>, k: int) -> Seq<Card> {
    Seq::new(k as nat, |i: int| s[s.len() - 1 - i])
}

/// The blind part of a war round: each player moves `blind_count(t)` cards from
/// the top of the draw pile onto the wagered pile, and each batch is logged.
pub open spec fn blind_round(t: Table) -> Table {
    let k = blind_count(t);
    let xa = top_cards(t.a.deck, k);
    let xb = top_cards(t.b.deck, k);
    Table {
        a: PlayerView {
            deck: t.a.deck.take(t.a.deck.len() - k),
            wagered: t.a.wagered + xa,
            won: t.a.won,
        },
        b: PlayerView {
            deck: t.b.deck.take(t.b.deck.len() - k),
            wagered: t.b.wagered + xb,
            won: t.b.won,
        },
        log: t.log + seq![LogEntry::WageredHidden(PlayerId::A, xa), LogEntry::WageredHidden(PlayerId::B, xb)],
    }
}

/// War rounds, from table `t` whose last comparison gave `o`, until a comparison
/// is decisive or both draw piles are empty. Defined for draw piles of equal size.
pub open spec fn war(t: Table, o: Outcome) -> (Table, Outcome)
    decreases t.a.deck.len(),
    when t.a.deck.len() == t.b.deck.len()
{
    if o == Outcome::War && !exhausted(t) {
        let t1 = blind_round(t);
        war(face_up(t1), face_up_outcome(t1))
    } else {
        (t, o)
    }
}

/// Ends a trick whose last outcome is `o`: the winner claims all wagered cards,
/// or, with no winner, the wagered cards stay where they are.
pub open spec fn settle(t: Table, o: Outcome) -> Table {
    match o {
        Outcome::A => Table {
            log: t.log.push(LogEntry::ClaimedWager(PlayerId::A, t.a.wagered + t.b.wagered)),
            ..claimed(t, PlayerId::A)
        },
        Outcome::B => Table {
            log: t.log.push(LogEntry::ClaimedWager(PlayerId::B, t.a.wagered + t.b.wagered)),
            ..claimed(t, PlayerId::B)
        },
        Outcome::War => Table { log: t.log.push(LogEntry::GameEndedInWar), ..t },
    }
}

/// One trick played on `t`: the table after it, and its final outcome.
pub open spec fn trick(t: Table) -> (Table, Outcome) {
    let (t1, o) = war(face_up(t), face_up_outcome(t));
    (settle(t1, o), o)
}

/// Compares A's card with B's card by rank; the suit never breaks a tie.
pub fn resolve(a: &Card, b: &Card) -> (r: Outcome)
    ensures
        r == outcome_of(*a, *b),
        (r == Outcome::War) <==> a.rank == b.rank,
{
    let x = a.rank.value();
    let y = b.rank.value();
    if x > y {
        Outcome::A
    } else if y > x {
        Outcome::B
    } else {
        Outcome::War
    }
}

fn single(c: Card) -> (v: Vec<Card>)
    ensures
        v@ == seq![c],
{
    let mut v: Vec<Card> = Vec::new();
    v.push(c);
    v
}

/// Turns up one card per player, logs and wagers them, and returns their outcome.
fn face_up_step(gs: &mut GameState) -> (r: Outcome)
    requires
        old(gs)@.a.deck.len() > 0,
        old(gs)@.b.deck.len() > 0,
    ensures
        final(gs)@ == face_up(old(gs)@),
        r == face_up_outcome(old(gs)@),
{
    let ghost t = gs@;
    let (a, b) = gs.draw_pair();
    gs.log(GameLogEvent::DrewCard(PlayerId::A, a));
    gs.log(GameLogEvent::DrewCard(PlayerId::B, b));
    let outcome = resolve(&a, &b);
    gs.log(GameLogEvent::ComparedMatch(Comparison { a_card: a, b_card: b }));
    gs.log(GameLogEvent::ResolvedMatch(outcome));
    gs.wager(single(a), single(b));
    gs.log(GameLogEvent::WageredVisible(Wager { player: PlayerId::A, cards: single(a) }));
    gs.log(GameLogEvent::WageredVisible(Wager { player: PlayerId::B, cards: single(b) }));
    assert(gs@.log =~= face_up(t).log);
    assert(gs@.a.wagered =~= face_up(t).a.wagered);
    assert(gs@.b.wagered =~= face_up(t).b.wagered);
    outcome
}

/// The blind part of a war round (see `blind_round`).
fn blind_step(gs: &mut GameState)
    requires
        old(gs)@.a.deck.len() > 0,
        old(gs)@.b.deck.len() > 0,
    ensures
        final(gs)@ == blind_round(old(gs)@),
{
    let ghost t = gs@;
    let ghost k = blind_count(t);
    let mut wagered: usize = 0;
    let mut a_w: Vec<Card> = Vec::new();
    let mut b_w: Vec<Card> = Vec::new();
    let (mut na, mut nb) = gs.pile_sizes();
    assert(t.a.deck.take(t.a.deck.len() as int) =~= t.a.deck);
    assert(t.b.deck.take(t.b.deck.len() as int) =~= t.b.deck);
    assert(t.a.wagered + a_w@ =~= t.a.wagered);
    assert(t.b.wagered + b_w@ =~= t.b.wagered);
    while na > 1 && nb > 1 && wagered < BLIND_CAP
        invariant
            k == blind_count(t),
            wagered <= k,
            na == t.a.deck.len() - wagered,
            nb == t.b.deck.len() - wagered,
            gs@.a == (PlayerView {
                deck: t.a.deck.take(t.a.deck.len() - wagered),
                wagered: t.a.wagered + a_w@,
                won: t.a.won,
            }),
            gs@.b == (PlayerView {
                deck: t.b.deck.take(t.b.deck.len() - wagered),
                wagered: t.b.wagered + b_w@,
                won: t.b.won,
            }),
            gs@.log == t.log,
            a_w@ == top_cards(t.a.deck, wagered as int),
            b_w@ == top_cards(t.b.deck, wagered as int),
        decreases BLIND_CAP - wagered,
    {
        let (a, b) = gs.blind_pair();
        a_w.push(a);
        b_w.push(b);
        wagered = wagered + 1;
        na = na - 1;
        nb = nb - 1;
        assert(a_w@ =~= top_cards(t.a.deck, wagered as int));
        assert(b_w@ =~= top_cards(t.b.deck, wagered as int));
        assert(gs@.a.deck =~= t.a.deck.take(t.a.deck.len() - wagered));
        assert(gs@.b.deck =~= t.b.deck.take(t.b.deck.len() - wagered));
        assert(gs@.a.wagered =~= t.a.wagered + a_w@);
        assert(gs@.b.wagered =~= t.b.wagered + b_w@);
    }
    assert(wagered == k);
    let ghost xa = a_w@;
    let ghost xb = b_w@;
    gs.log(GameLogEvent::WageredHidden(Wager { player: PlayerId::A, cards: a_w }));
    gs.log(GameLogEvent::WageredHidden(Wager { player: PlayerId::B, cards: b_w }));
    assert(gs@.log =~= blind_round(t).log);
}

/// Advances the match by one trick: one face-up comparison, then war rounds while
/// it is tied and cards remain, then the claim of all wagered cards by the winner
/// (or, with the draw piles exhausted in a tie, the end of the game in war).
/// Returns the trick's final outcome: `War` means that nobody won it.
pub fn turn(gs: &mut GameState) -> (r: Outcome)
    requires
        old(gs)@.a.deck.len() > 0,
        old(gs)@.a.deck.len() == old(gs)@.b.deck.len(),
    ensures
        (final(gs)@, r) == trick(old(gs)@),
        all_cards(final(gs)@).to_multiset() == all_cards(old(gs)@).to_multiset(),
        final(gs)@.a.deck.len() < old(gs)@.a.deck.len(),
        final(gs)@.a.deck.len() == final(gs)@.b.deck.len(),
        r == Outcome::War ==> exhausted(final(gs)@),
        playable(old(gs)@) ==> playable(final(gs)@),
{
    let ghost t0 = gs@;
    let mut outcome = face_up_step(gs);
    while outcome == Outcome::War && !gs.deck_is_empty()
        invariant
            gs@.a.deck.len() == gs@.b.deck.len(),
            war(gs@, outcome) == war(face_up(t0), face_up_outcome(t0)),
        decreases gs@.a.deck.len(),
    {
        blind_step(gs);
        outcome = face_up_step(gs);
    }
    assert(outcome == Outcome::War ==> exhausted(gs@));
    match outcome {
        Outcome::A => {
            let winnings = gs.claim(PlayerId::A);
            gs.log(GameLogEvent::ClaimedWager(Wager { player: PlayerId::A, cards: winnings }));
        },
        Outcome::B => {
            let winnings = gs.claim(PlayerId::B);
            gs.log(GameLogEvent::ClaimedWager(Wager { player: PlayerId::B, cards: winnings }));
        },
        Outcome::War => {
            gs.log(GameLogEvent::GameEndedInWar);
        },
    }
    proof {
        law_trick_keeps_cards(t0);
        law_progress(t0);
    }
    outcome
}

} // verus!
