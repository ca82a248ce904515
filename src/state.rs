use rand::rngs::StdRng;
use rand::SeedableRng;
use vstd::prelude::*;

use crate::card::{canonical_deck, lemma_canonical_deck_distinct, Card};
use crate::deck::Deck;
use crate::laws::law_deal_playable;
use crate::log::{GameLog, GameLogEvent, LogEntry, PlayerId};

verus! {

/// Relies on rand's `SeedableRng::from_entropy` for `StdRng`: a generator seeded
/// from the operating system (which panics only if the system has no entropy to give).
#[verifier::external_body]
fn fresh_rng() -> (r: StdRng) {
    StdRng::from_entropy()
}

/// One player's cards: the draw pile, the cards at risk in the current trick,
/// and the cards captured so far.
pub struct PlayerState {
    pub deck: Deck,
    pub wagered: Vec<Card>,
    pub won: Vec<Card>,
}

/// The three piles of a player, each bottom first.
pub struct PlayerView {
    pub deck: Seq<Card>,
    pub wagered: Seq<Card>,
    pub won: Seq<Card>,
}

impl View for PlayerState {
    type V = PlayerView;

    open spec fn view(&self) -> PlayerView {
        PlayerView { deck: self.deck@, wagered: self.wagered@, won: self.won@ }
    }
}

impl PlayerState {
    /// Moves the top card of the draw pile, unseen, onto the wagered pile.
    pub fn blind_wager(&mut self) -> (r: Card)
        requires
            old(self)@.deck.len() > 0,
        ensures
            r == old(self)@.deck.last(),
            final(self)@ == (PlayerView {
                deck: old(self)@.deck.drop_last(),
                wagered: old(self)@.wagered.push(r),
                won: old(self)@.won,
            }),
    {
        let card = self.deck.draw().unwrap();
        self.wagered.push(card);
        card
    }
}

/// The whole table: both players' piles and the events logged so far.
pub struct Table {
    pub a: PlayerView,
    pub b: PlayerView,
    pub log: Seq<LogEntry>,
}

/// Every card on the table, pile after pile.
pub open spec fn all_cards(t: Table) -> Seq<Card> {
    t.a.deck + t.a.wagered + t.a.won + t.b.deck + t.b.wagered + t.b.won
}

/// The sum of the sizes of the six piles.
pub open spec fn total(t: Table) -> nat {
    t.a.deck.len() + t.a.wagered.len() + t.a.won.len() + t.b.deck.len() + t.b.wagered.len()
        + t.b.won.len()
}

/// No card lies in two piles, nor twice in one.
pub open spec fn disjoint(t: Table) -> bool {
    all_cards(t).no_duplicates()
}

/// Both draw piles are empty.
pub open spec fn exhausted(t: Table) -> bool {
    t.a.deck.len() == 0 && t.b.deck.len() == 0
}

/// A table on which play can go on: no card twice, and draw piles of equal size,
/// as every deal leaves them and every trick keeps them.
pub open spec fn playable(t: Table) -> bool {
    disjoint(t) && t.a.deck.len() == t.b.deck.len()
}

/// The `k`-th packet of 13 cards dealt from the top of `d`, in the order they come off.
pub open spec fn packet(d: Seq<Card>, k: int) -> Seq<Card> {
    Seq::new(13, |j: int| d[d.len() - 1 - (13 * k + j)])
}

/// The draw pile that player `p` gets when `d` is dealt from the top in packets
/// of 13, alternately to A and to B, each card going on top of the receiver's pile.
pub open spec fn dealt_pile(d: Seq<Card>, p: PlayerId) -> Seq<Card> {
    match p {
        PlayerId::A => packet(d, 0) + packet(d, 2),
        PlayerId::B => packet(d, 1) + packet(d, 3),
    }
}

/// The table right after `d` has been dealt, with the history `log`.
pub open spec fn dealt_table(d: Seq<Card>, log: Seq<LogEntry>) -> Table {
    Table {
        a: PlayerView { deck: dealt_pile(d, PlayerId::A), wagered: seq![], won: seq![] },
        b: PlayerView { deck: dealt_pile(d, PlayerId::B), wagered: seq![], won: seq![] },
        log,
    }
}

/// The table after every wagered card, A's first, has gone to the won pile of `winner`.
pub open spec fn claimed(t: Table, winner: PlayerId) -> Table {
    let winnings = t.a.wagered + t.b.wagered;
    Table {
        a: PlayerView {
            deck: t.a.deck,
            wagered: seq![],
            won: if winner == PlayerId::A { t.a.won + winnings } else { t.a.won },
        },
        b: PlayerView {
            deck: t.b.deck,
            wagered: seq![],
            won: if winner == PlayerId::B { t.b.won + winnings } else { t.b.won },
        },
        log: t.log,
    }
}

/// Pushes packet `k` of `cards` onto `pile`.
fn push_packet(pile: &mut Vec<Card>, cards: &Vec<Card>, k: usize)
    requires
        cards@.len() == 52,
        k < 4,
    ensures
        final(pile)@ == old(pile)@ + packet(cards@, k as int),
{
    let mut j: usize = 0;
    while j < 13
        invariant
            j <= 13,
            k < 4,
            cards@.len() == 52,
            pile@ == old(pile)@ + packet(cards@, k as int).take(j as int),
        decreases 13 - j,
    {
        pile.push(cards[51 - 13 * k - j]);
        j = j + 1;
        assert(packet(cards@, k as int).take(j as int) =~= packet(cards@, k as int).take(
            j - 1,
        ).push(cards@[51 - 13 * k - (j - 1)]));
    }
    assert(packet(cards@, k as int).take(13) =~= packet(cards@, k as int));
}

/// Appends the cards of `src` to `dst`.
fn append_cards(dst: &mut Vec<Card>, src: &Vec<Card>)
    ensures
        final(dst)@ == old(dst)@ + src@,
{
    let mut i: usize = 0;
    while i < src.len()
        invariant
            i <= src@.len(),
            dst@ == old(dst)@ + src@.take(i as int),
        decreases src@.len() - i,
    {
        dst.push(src[i]);
        i = i + 1;
        assert(src@.take(i as int) =~= src@.take(i - 1).push(src@[i - 1]));
    }
    assert(src@.take(src@.len() as int) =~= src@);
}

/// Whether no card occurs twice in `cards`.
fn no_repeats(cards: &Vec<Card>) -> (r: bool)
    ensures
        r == cards@.no_duplicates(),
{
    let n = cards.len();
    let mut i: usize = 0;
    while i < n
        invariant
            i <= n,
            n == cards@.len(),
            forall|p: int, q: int| 0 <= p < i && p < q < n ==> cards@[p] != cards@[q],
        decreases n - i,
    {
        let mut j: usize = i + 1;
        while j < n
            invariant
                i < j <= n,
                n == cards@.len(),
                forall|q: int| i < q < j ==> cards@[i as int] != cards@[q],
            decreases n - j,
        {
            if cards[i] == cards[j] {
                return false;
            }
            j = j + 1;
        }
        i = i + 1;
    }
    true
}

/// The state of one match: both players and the match's log.
pub struct GameState {
    pub a: PlayerState,
    pub b: PlayerState,
    game_log: GameLog,
}

impl View for GameState {
    type V = Table;

    closed spec fn view(&self) -> Table {
        Table { a: self.a@, b: self.b@, log: self.game_log@ }
    }
}

impl GameState {

    /// Deals `deck` to the two players (see `dealt_pile`); nothing wagered or won yet.
    pub fn deal(deck: Deck, log: GameLog) -> (r: GameState)
        requires
            deck@.len() == 52,
        ensures
            r@ == dealt_table(deck@, log@),
    {
        let cards = deck.cards();
        let mut a_pile: Vec<Card> = Vec::new();
        let mut b_pile: Vec<Card> = Vec::new();
        push_packet(&mut a_pile, cards, 0);
        push_packet(&mut b_pile, cards, 1);
        push_packet(&mut a_pile, cards, 2);
        push_packet(&mut b_pile, cards, 3);
        assert(a_pile@ =~= dealt_pile(deck@, PlayerId::A));
        assert(b_pile@ =~= dealt_pile(deck@, PlayerId::B));
        let r = GameState {
            a: PlayerState { deck: Deck::from_cards(a_pile), wagered: Vec::new(), won: Vec::new() },
            b: PlayerState { deck: Deck::from_cards(b_pile), wagered: Vec::new(), won: Vec::new() },
            game_log: log,
        };
        assert(r@.a == dealt_table(deck@, log@).a);
        assert(r@.b == dealt_table(deck@, log@).b);
        r
    }

    /// A match on a fresh, unshuffled deck.
    pub fn new(log: GameLog) -> (r: GameState)
        ensures
            r@ == dealt_table(canonical_deck(), log@),
            playable(r@),
            total(r@) == 52,
    {
        proof {
            lemma_canonical_deck_distinct();
            law_deal_playable(canonical_deck(), log@);
        }
        GameState::deal(Deck::new(), log)
    }

    /// A match on a fresh deck put in an order that `rng` picks.
    pub fn shuffled(log: GameLog, rng: &mut StdRng) -> (r: GameState)
        ensures
            exists|d: Seq<Card>|
                d.to_multiset() == canonical_deck().to_multiset() && r@ == dealt_table(d, log@),
            playable(r@),
            total(r@) == 52,
    {
        let mut deck = Deck::new();
        deck.shuffle(rng);
        proof {
            deck@.to_multiset_ensures();
            canonical_deck().to_multiset_ensures();
            lemma_canonical_deck_distinct();
            canonical_deck().lemma_multiset_has_no_duplicates();
            deck@.lemma_multiset_has_no_duplicates_conv();
            law_deal_playable(deck@, log@);
        }
        GameState::deal(deck, log)
    }

    /// A match in which A's draw pile is `a_deck` and B's is `b_deck`, with nothing
    /// wagered or won.
    pub fn from_piles(a_deck: Deck, b_deck: Deck, log: GameLog) -> (r: GameState)
        ensures
            r@ == (Table {
                a: PlayerView { deck: a_deck@, wagered: seq![], won: seq![] },
                b: PlayerView { deck: b_deck@, wagered: seq![], won: seq![] },
                log: log@,
            }),
    {
        GameState {
            a: PlayerState { deck: a_deck, wagered: Vec::new(), won: Vec::new() },
            b: PlayerState { deck: b_deck, wagered: Vec::new(), won: Vec::new() },
            game_log: log,
        }
    }

    /// Whether both draw piles are empty.
    pub fn deck_is_empty(&self) -> (r: bool)
        ensures
            r == exhausted(self@),
    {
        self.a.deck.is_empty() && self.b.deck.is_empty()
    }

    /// The sizes of A's and B's draw piles.
    pub fn pile_sizes(&self) -> (r: (usize, usize))
        ensures
            r.0 == self@.a.deck.len(),
            r.1 == self@.b.deck.len(),
    {
        (self.a.deck.len(), self.b.deck.len())
    }

    /// Draws the top card of each draw pile: A's first, then B's.
    pub fn draw_pair(&mut self) -> (r: (Card, Card))
        requires
            old(self)@.a.deck.len() > 0,
            old(self)@.b.deck.len() > 0,
        ensures
            r.0 == old(self)@.a.deck.last(),
            r.1 == old(self)@.b.deck.last(),
            final(self)@ == (Table {
                a: PlayerView { deck: old(self)@.a.deck.drop_last(), ..old(self)@.a },
                b: PlayerView { deck: old(self)@.b.deck.drop_last(), ..old(self)@.b },
                ..old(self)@
            }),
    {
        let a = self.a.deck.draw().unwrap();
        let b = self.b.deck.draw().unwrap();
        (a, b)
    }

    /// Each player moves the top card of the draw pile, unseen, onto the wagered pile.
    pub fn blind_pair(&mut self) -> (r: (Card, Card))
        requires
            old(self)@.a.deck.len() > 0,
            old(self)@.b.deck.len() > 0,
        ensures
            r.0 == old(self)@.a.deck.last(),
            r.1 == old(self)@.b.deck.last(),
            final(self)@ == (Table {
                a: PlayerView {
                    deck: old(self)@.a.deck.drop_last(),
                    wagered: old(self)@.a.wagered.push(r.0),
                    won: old(self)@.a.won,
                },
                b: PlayerView {
                    deck: old(self)@.b.deck.drop_last(),
                    wagered: old(self)@.b.wagered.push(r.1),
                    won: old(self)@.b.won,
                },
                ..old(self)@
            }),
    {
        let a = self.a.blind_wager();
        let b = self.b.blind_wager();
        (a, b)
    }

    /// Moves every wagered card, A's first, onto the won pile of `winner` and
    /// returns them in that order; both wagered piles end empty.
    pub fn claim(&mut self, winner: PlayerId) -> (r: Vec<Card>)
        ensures
            r@ == old(self)@.a.wagered + old(self)@.b.wagered,
            final(self)@ == claimed(old(self)@, winner),
    {
        let mut winnings: Vec<Card> = Vec::new();
        winnings.append(&mut self.a.wagered);
        winnings.append(&mut self.b.wagered);
        match winner {
            PlayerId::A => append_cards(&mut self.a.won, &winnings),
            PlayerId::B => append_cards(&mut self.b.won, &winnings),
        }
        assert(winnings@ =~= old(self)@.a.wagered + old(self)@.b.wagered);
        winnings
    }

    /// Whether play can go on from here: no card twice, draw piles of equal size.
    pub fn is_playable(&self) -> (r: bool)
        ensures
            r == playable(self@),
    {
        let mut all: Vec<Card> = Vec::new();
        append_cards(&mut all, self.a.deck.cards());
        append_cards(&mut all, &self.a.wagered);
        append_cards(&mut all, &self.a.won);
        append_cards(&mut all, self.b.deck.cards());
        append_cards(&mut all, &self.b.wagered);
        append_cards(&mut all, &self.b.won);
        assert(all@ =~= all_cards(self@));
        no_repeats(&all) && self.a.deck.len() == self.b.deck.len()
    }

    /// Puts `a_wagers` at risk for A and `b_wagers` for B.
    pub fn wager(&mut self, a_wagers: Vec<Card>, b_wagers: Vec<Card>)
        ensures
            final(self)@ == (Table {
                a: PlayerView { wagered: old(self)@.a.wagered + a_wagers@, ..old(self)@.a },
                b: PlayerView { wagered: old(self)@.b.wagered + b_wagers@, ..old(self)@.b },
                ..old(self)@
            }),
    {
        let mut a_wagers = a_wagers;
        let mut b_wagers = b_wagers;
        self.a.wagered.append(&mut a_wagers);
        self.b.wagered.append(&mut b_wagers);
    }

    /// Shuffles each draw pile with `rng`; no card changes pile.
    pub fn shuffle(&mut self, rng: &mut StdRng)
        ensures
            final(self)@.a.deck.to_multiset() == old(self)@.a.deck.to_multiset(),
            final(self)@.b.deck.to_multiset() == old(self)@.b.deck.to_multiset(),
            final(self)@.a.wagered == old(self)@.a.wagered,
            final(self)@.a.won == old(self)@.a.won,
            final(self)@.b.wagered == old(self)@.b.wagered,
            final(self)@.b.won == old(self)@.b.won,
            final(self)@.log == old(self)@.log,
    {
        self.a.deck.shuffle(rng);
        self.b.deck.shuffle(rng);
    }

    /// Appends `event` to the match's log and publishes it.
    pub fn log(&mut self, event: GameLogEvent)
        ensures
            final(self)@ == (Table { log: old(self)@.log.push(event@), ..old(self)@ }),
    {
        self.game_log.log(event);
    }

    /// The events logged so far, oldest first.
    pub fn events(&self) -> (r: &Vec<GameLogEvent>)
        ensures
            crate::log::entries_of(r@) == self@.log,
    {
        self.game_log.events()
    }
}

/// A match on a freshly shuffled deck, seeded from the operating system.
pub fn init_gamestate(log: GameLog) -> (r: GameState)
    ensures
        exists|d: Seq<Card>|
            d.to_multiset() == canonical_deck().to_multiset() && r@ == dealt_table(d, log@),
        playable(r@),
        total(r@) == 52,
{
    let mut rng = fresh_rng();
    GameState::shuffled(log, &mut rng)
}

} // verus!
