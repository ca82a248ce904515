use vstd::arithmetic::div_mod::lemma_fundamental_div_mod;
use vstd::prelude::*;

verus! {

/// The four suits, in the order in which a fresh deck holds them.
#[derive(Debug, Clone, Copy, PartialEq, Eq, Hash, Structural)]
pub enum Suit {
    Diamonds,
    Clubs,
    Hearts,
    Spades,
}

/// The thirteen ranks, from lowest to highest.
#[derive(Debug, Clone, Copy, PartialEq, Eq, Hash, PartialOrd, Ord, Structural)]
pub enum Rank {
    Two,
    Three,
    Four,
    Five,
    Six,
    Seven,
    Eight,
    Nine,
    Ten,
    Jack,
    Queen,
    King,
    Ace,
}

/// A playing card; its identity is the pair of rank and suit.
#[derive(Debug, Clone, Copy, PartialEq, Eq, Hash, Structural)]
pub struct Card {
    pub rank: Rank,
    pub suit: Suit,
}

/// The suits in enumeration order.
pub open spec fn suits_in_order() -> Seq<Suit> {
    seq![Suit::Diamonds, Suit::Clubs, Suit::Hearts, Suit::Spades]
}

/// The ranks from lowest to highest.
pub open spec fn ranks_in_order() -> Seq<Rank> {
    seq![
        Rank::Two,
        Rank::Three,
        Rank::Four,
        Rank::Five,
        Rank::Six,
        Rank::Seven,
        Rank::Eight,
        Rank::Nine,
        Rank::Ten,
        Rank::Jack,
        Rank::Queen,
        Rank::King,
        Rank::Ace,
    ]
}

/// The card at position `i` of a fresh deck: suit-major, rank-minor.
pub open spec fn canonical_card(i: int) -> Card {
    Card { rank: ranks_in_order()[i % 13], suit: suits_in_order()[i / 13] }
}

/// A fresh deck of 52 cards, position 0 at the bottom.
pub open spec fn canonical_deck() -> Seq<Card> {
    Seq::new(52, |i: int| canonical_card(i))
}

/// Rank values rise by one along `ranks_in_order`.
proof fn lemma_rank_values(k: int)
    requires
        0 <= k < 13,
    ensures
        ranks_in_order()[k].spec_value() == k + 2,
{
    let r = ranks_in_order();
    assert(r[0] == Rank::Two && r[1] == Rank::Three && r[2] == Rank::Four && r[3] == Rank::Five);
    assert(r[4] == Rank::Six && r[5] == Rank::Seven && r[6] == Rank::Eight && r[7] == Rank::Nine);
    assert(r[8] == Rank::Ten && r[9] == Rank::Jack && r[10] == Rank::Queen && r[11] == Rank::King);
    assert(r[12] == Rank::Ace);
}

/// Suit indices rise by one along `suits_in_order`.
proof fn lemma_suit_indices(k: int)
    requires
        0 <= k < 4,
    ensures
        suits_in_order()[k].index() == k,
{
    let s = suits_in_order();
    assert(s[0] == Suit::Diamonds && s[1] == Suit::Clubs && s[2] == Suit::Hearts && s[3]
        == Suit::Spades);
}

/// No card occurs twice in a fresh deck.
pub proof fn lemma_canonical_deck_distinct()
    ensures
        canonical_deck().no_duplicates(),
{
    assert forall|i: int, j: int|
        0 <= i < 52 && 0 <= j < 52 && i != j implies canonical_deck()[i]
        != canonical_deck()[j] by {
        lemma_fundamental_div_mod(i, 13);
        lemma_fundamental_div_mod(j, 13);
        assert(0 <= i / 13 < 4 && 0 <= j / 13 < 4) by (nonlinear_arith)
            requires
                0 <= i < 52,
                0 <= j < 52,
        ;
        lemma_rank_values(i % 13);
        lemma_rank_values(j % 13);
        lemma_suit_indices(i / 13);
        lemma_suit_indices(j / 13);
    }
}

impl Suit {
    /// Position of the suit in enumeration order.
    pub open spec fn index(self) -> int {
        match self {
            Suit::Diamonds => 0,
            Suit::Clubs => 1,
            Suit::Hearts => 2,
            Suit::Spades => 3,
        }
    }

    pub open spec fn spec_name(self) -> Seq<char> {
        match self {
            Suit::Diamonds => "Diamonds"@,
            Suit::Clubs => "Clubs"@,
            Suit::Hearts => "Hearts"@,
            Suit::Spades => "Spades"@,
        }
    }

    pub fn all() -> (r: [Suit; 4])
        ensures
            r@ == suits_in_order(),
    {
        let r = [Suit::Diamonds, Suit::Clubs, Suit::Hearts, Suit::Spades];
        assert(r@ =~= suits_in_order());
        r
    }

    /// The suit's English name.
    pub fn name(&self) -> (s: &'static str)
        ensures
            s@ == self.spec_name(),
    {
        match self {
            Suit::Diamonds => "Diamonds",
            Suit::Clubs => "Clubs",
            Suit::Hearts => "Hearts",
            Suit::Spades => "Spades",
        }
    }
}

impl Rank {
    /// The rank's ordinal, from 2 (Two) to 14 (Ace).
    pub open spec fn spec_value(self) -> u8 {
        match self {
            Rank::Two => 2,
            Rank::Three => 3,
            Rank::Four => 4,
            Rank::Five => 5,
            Rank::Six => 6,
            Rank::Seven => 7,
            Rank::Eight => 8,
            Rank::Nine => 9,
            Rank::Ten => 10,
            Rank::Jack => 11,
            Rank::Queen => 12,
            Rank::King => 13,
            Rank::Ace => 14,
        }
    }

    pub open spec fn spec_name(self) -> Seq<char> {
        match self {
            Rank::Two => "Two"@,
            Rank::Three => "Three"@,
            Rank::Four => "Four"@,
            Rank::Five => "Five"@,
            Rank::Six => "Six"@,
            Rank::Seven => "Seven"@,
            Rank::Eight => "Eight"@,
            Rank::Nine => "Nine"@,
            Rank::Ten => "Ten"@,
            Rank::Jack => "Jack"@,
            Rank::Queen => "Queen"@,
            Rank::King => "King"@,
            Rank::Ace => "Ace"@,
        }
    }

    pub fn all() -> (r: [Rank; 13])
        ensures
            r@ == ranks_in_order(),
    {
        let r = [
            Rank::Two,
            Rank::Three,
            Rank::Four,
            Rank::Five,
            Rank::Six,
            Rank::Seven,
            Rank::Eight,
            Rank::Nine,
            Rank::Ten,
            Rank::Jack,
            Rank::Queen,
            Rank::King,
            Rank::Ace,
        ];
        assert(r@ =~= ranks_in_order());
        r
    }

    #[verifier::when_used_as_spec(spec_value)]
    pub fn value(self) -> (v: u8)
        ensures
            v == self.spec_value(),
    {
        match self {
            Rank::Two => 2,
            Rank::Three => 3,
            Rank::Four => 4,
            Rank::Five => 5,
            Rank::Six => 6,
            Rank::Seven => 7,
            Rank::Eight => 8,
            Rank::Nine => 9,
            Rank::Ten => 10,
            Rank::Jack => 11,
            Rank::Queen => 12,
            Rank::King => 13,
            Rank::Ace => 14,
        }
    }

    /// The rank's English name.
    pub fn name(&self) -> (s: &'static str)
        ensures
            s@ == self.spec_name(),
    {
        match self {
            Rank::Two => "Two",
            Rank::Three => "Three",
            Rank::Four => "Four",
            Rank::Five => "Five",
            Rank::Six => "Six",
            Rank::Seven => "Seven",
            Rank::Eight => "Eight",
            Rank::Nine => "Nine",
            Rank::Ten => "Ten",
            Rank::Jack => "Jack",
            Rank::Queen => "Queen",
            Rank::King => "King",
            Rank::Ace => "Ace",
        }
    }
}

/// Offset of a rank inside a suit's block of the Unicode playing cards; the ace comes first.
pub open spec fn glyph_rank_offset(r: Rank) -> u32 {
    if r == Rank::Ace {
        1
    } else {
        r.spec_value() as u32
    }
}

/// Offset of a suit's block among the Unicode playing cards.
pub open spec fn glyph_suit_offset(s: Suit) -> u32 {
    match s {
        Suit::Spades => 0x0,
        Suit::Hearts => 0x10,
        Suit::Diamonds => 0x20,
        Suit::Clubs => 0x30,
    }
}

/// First code point of the Unicode playing-card block.
pub const GLYPH_BASE: u32 = 0x1F0A0;

impl Card {
    /// "<rank> of <suit>", e.g. "Ace of Spades".
    pub open spec fn spec_description(self) -> Seq<char> {
        self.rank.spec_name() + " of "@ + self.suit.spec_name()
    }

    /// The Unicode code point that depicts the card.
    pub open spec fn spec_code_point(self) -> u32 {
        (GLYPH_BASE + glyph_rank_offset(self.rank) + glyph_suit_offset(self.suit)) as u32
    }

    /// The card's name, "<rank> of <suit>".
    pub fn describe(&self) -> (s: String)
        ensures
            s@ == self.spec_description(),
    {
        let s = String::from_str(self.rank.name());
        let s = s.concat(" of ");
        s.concat(self.suit.name())
    }

    /// The Unicode code point of the card's playing-card symbol.
    pub fn code_point(&self) -> (r: u32)
        ensures
            r == self.spec_code_point(),
            0x1F0A1 <= r <= 0x1F0DE,
    {
        let rank_offset: u32 = match self.rank {
            Rank::Ace => 1,
            _ => self.rank.value() as u32,
        };
        let suit_offset: u32 = match self.suit {
            Suit::Spades => 0x0,
            Suit::Hearts => 0x10,
            Suit::Diamonds => 0x20,
            Suit::Clubs => 0x30,
        };
        GLYPH_BASE + rank_offset + suit_offset
    }
}

} // verus!
