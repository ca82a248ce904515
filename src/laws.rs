use vstd::multiset::Multiset;
use vstd::prelude::*;
use vstd::seq_lib::{group_to_multiset_ensures, lemma_multiset_commutative};

use crate::card::Card;
use crate::engine::{
    blind_count, blind_round, face_up, face_up_outcome, outcome_of, settle, top_cards, trick, war,
    Outcome, BLIND_CAP,
};
use crate::log::{LogEntry, PlayerId};
use crate::state::{
    all_cards, dealt_table, disjoint, exhausted, packet, playable, total, PlayerView, Table,
};

verus! {

broadcast use {group_to_multiset_ensures, lemma_multiset_commutative};

/// The cards of one player, as a multiset.
pub open spec fn player_cards(p: PlayerView) -> Multiset<Card> {
    p.deck.to_multiset().add(p.wagered.to_multiset()).add(p.won.to_multiset())
}

/// The cards on the table, as a multiset.
pub open spec fn table_cards(t: Table) -> Multiset<Card> {
    player_cards(t.a).add(player_cards(t.b))
}

/// A blind batch holds at most the cap; any other entry holds no blind batch.
pub open spec fn within_cap(e: LogEntry) -> bool {
    match e {
        LogEntry::WageredHidden(_, cards) => cards.len() <= BLIND_CAP,
        _ => true,
    }
}

/// `u`'s log extends `t`'s, and every blind batch among the new entries is within the cap.
pub open spec fn log_extends_within_cap(t: Table, u: Table) -> bool {
    &&& t.log.len() <= u.log.len()
    &&& u.log.take(t.log.len() as int) == t.log
    &&& forall|i: int| t.log.len() <= i < u.log.len() ==> within_cap(#[trigger] u.log[i])
}

/// The table after `n` more tricks, or after fewer if the draw piles run out first.
pub open spec fn after_tricks(t: Table, n: nat) -> Table
    decreases n,
{
    if n == 0 || exhausted(t) {
        t
    } else {
        after_tricks(trick(t).0, (n - 1) as nat)
    }
}

proof fn lemma_all_cards_multiset(t: Table)
    ensures
        all_cards(t).to_multiset() == table_cards(t),
{
    assert(all_cards(t).to_multiset() =~= table_cards(t));
}

proof fn lemma_face_up(t: Table)
    requires
        t.a.deck.len() > 0,
        t.b.deck.len() > 0,
    ensures
        table_cards(face_up(t)) == table_cards(t),
        face_up(t).a.deck.len() == t.a.deck.len() - 1,
        face_up(t).b.deck.len() == t.b.deck.len() - 1,
        log_extends_within_cap(t, face_up(t)),
{
    let u = face_up(t);
    assert(t.a.deck =~= t.a.deck.drop_last().push(t.a.deck.last()));
    assert(t.b.deck =~= t.b.deck.drop_last().push(t.b.deck.last()));
    assert(table_cards(u) =~= table_cards(t));
    assert(u.log.take(t.log.len() as int) =~= t.log);
}

proof fn lemma_top_cards(s: Seq<Card>, k: int)
    requires
        0 <= k <= s.len(),
    ensures
        s.take(s.len() - k).to_multiset().add(top_cards(s, k).to_multiset()) == s.to_multiset(),
{
    let rest = s.subrange(s.len() - k, s.len() as int);
    assert(top_cards(s, k) =~= rest.reverse());
    rest.lemma_reverse_to_multiset();
    assert(s =~= s.take(s.len() - k) + rest);
}

proof fn lemma_blind_round(t: Table)
    requires
        t.a.deck.len() == t.b.deck.len(),
        t.a.deck.len() > 0,
    ensures
        table_cards(blind_round(t)) == table_cards(t),
        blind_round(t).a.deck.len() == t.a.deck.len() - blind_count(t),
        blind_round(t).b.deck.len() == t.b.deck.len() - blind_count(t),
        blind_round(t).a.deck.len() > 0,
        log_extends_within_cap(t, blind_round(t)),
{
    let u = blind_round(t);
    let k = blind_count(t);
    lemma_top_cards(t.a.deck, k);
    lemma_top_cards(t.b.deck, k);
    assert(table_cards(u) =~= table_cards(t));
    assert(u.log.take(t.log.len() as int) =~= t.log);
    assert forall|i: int| t.log.len() <= i < u.log.len() implies within_cap(#[trigger] u.log[i]) by {
        if i == t.log.len() {
            assert(u.log[i] == LogEntry::WageredHidden(PlayerId::A, top_cards(t.a.deck, k)));
        } else {
            assert(u.log[i] == LogEntry::WageredHidden(PlayerId::B, top_cards(t.b.deck, k)));
        }
    }
}

proof fn lemma_log_extends_trans(t: Table, u: Table, v: Table)
    requires
        log_extends_within_cap(t, u),
        log_extends_within_cap(u, v),
    ensures
        log_extends_within_cap(t, v),
{
    assert(v.log.take(t.log.len() as int) =~= v.log.take(u.log.len() as int).take(
        t.log.len() as int,
    ));
    assert forall|i: int| t.log.len() <= i < v.log.len() implies within_cap(#[trigger] v.log[i]) by {
        if i < u.log.len() {
            assert(v.log[i] == v.log.take(u.log.len() as int)[i]);
            assert(within_cap(u.log[i]));
        }
    }
}

proof fn lemma_war(t: Table, o: Outcome)
    requires
        t.a.deck.len() == t.b.deck.len(),
    ensures
        table_cards(war(t, o).0) == table_cards(t),
        war(t, o).0.a.deck.len() == war(t, o).0.b.deck.len(),
        war(t, o).0.a.deck.len() <= t.a.deck.len(),
        log_extends_within_cap(t, war(t, o).0),
    decreases t.a.deck.len(),
{
    if o == Outcome::War && !exhausted(t) {
        let t1 = blind_round(t);
        lemma_blind_round(t);
        let t2 = face_up(t1);
        lemma_face_up(t1);
        lemma_log_extends_trans(t, t1, t2);
        lemma_war(t2, face_up_outcome(t1));
        lemma_log_extends_trans(t, t2, war(t2, face_up_outcome(t1)).0);
    } else {
        assert(t.log.take(t.log.len() as int) =~= t.log);
    }
}

proof fn lemma_settle(t: Table, o: Outcome)
    ensures
        table_cards(settle(t, o)) == table_cards(t),
        settle(t, o).a.deck == t.a.deck,
        settle(t, o).b.deck == t.b.deck,
        log_extends_within_cap(t, settle(t, o)),
{
    let u = settle(t, o);
    assert(table_cards(u) =~= table_cards(t));
    assert(u.log.take(t.log.len() as int) =~= t.log);
}

proof fn lemma_trick(t: Table)
    requires
        t.a.deck.len() > 0,
        t.a.deck.len() == t.b.deck.len(),
    ensures
        table_cards(trick(t).0) == table_cards(t),
        trick(t).0.a.deck.len() == trick(t).0.b.deck.len(),
        trick(t).0.a.deck.len() < t.a.deck.len(),
        log_extends_within_cap(t, trick(t).0),
{
    let t1 = face_up(t);
    lemma_face_up(t);
    let (t2, o) = war(t1, face_up_outcome(t));
    lemma_war(t1, face_up_outcome(t));
    lemma_settle(t2, o);
    lemma_log_extends_trans(t, t1, t2);
    lemma_log_extends_trans(t, t2, settle(t2, o));
}

/// One trick neither creates nor loses a card: the six piles hold the same cards
/// before and after, so their sizes have the same sum, and a table on which no
/// card lies twice stays so.
pub proof fn law_trick_keeps_cards(t: Table)
    requires
        t.a.deck.len() > 0,
        t.a.deck.len() == t.b.deck.len(),
    ensures
        all_cards(trick(t).0).to_multiset() == all_cards(t).to_multiset(),
        total(trick(t).0) == total(t),
        disjoint(t) ==> disjoint(trick(t).0),
{
    let u = trick(t).0;
    lemma_trick(t);
    lemma_all_cards_multiset(t);
    lemma_all_cards_multiset(u);
    assert(total(u) == all_cards(u).len());
    assert(total(t) == all_cards(t).len());
    assert(all_cards(u).to_multiset().len() == all_cards(u).len());
    assert(all_cards(t).to_multiset().len() == all_cards(t).len());
    if disjoint(t) {
        all_cards(t).lemma_multiset_has_no_duplicates();
        all_cards(u).lemma_multiset_has_no_duplicates_conv();
    }
}

proof fn lemma_dealt_cards(d: Seq<Card>, log: Seq<LogEntry>)
    requires
        d.len() == 52,
    ensures
        all_cards(dealt_table(d, log)).to_multiset() == d.to_multiset(),
{
    let t = dealt_table(d, log);
    assert forall|k: int| 0 <= k < 4 implies #[trigger] packet(d, k).to_multiset() == d.subrange(
        39 - 13 * k,
        52 - 13 * k,
    ).to_multiset() by {
        let s = d.subrange(39 - 13 * k, 52 - 13 * k);
        assert(packet(d, k) =~= s.reverse());
        s.lemma_reverse_to_multiset();
    }
    assert(d =~= d.subrange(0, 13) + d.subrange(13, 26) + d.subrange(26, 39) + d.subrange(39, 52));
    lemma_all_cards_multiset(t);
    assert(all_cards(t).to_multiset() =~= d.to_multiset());
}

/// Invariant of play: from a deal of a 52-card deck, after any number of tricks,
/// the six piles hold the deck's cards, so their sizes sum to 52, and the two draw
/// piles are of equal size.
pub proof fn law_conservation(d: Seq<Card>, log: Seq<LogEntry>, n: nat)
    requires
        d.len() == 52,
    ensures
        all_cards(after_tricks(dealt_table(d, log), n)).to_multiset() == d.to_multiset(),
        total(after_tricks(dealt_table(d, log), n)) == 52,
        after_tricks(dealt_table(d, log), n).a.deck.len() == after_tricks(
            dealt_table(d, log),
            n,
        ).b.deck.len(),
{
    lemma_dealt_cards(d, log);
    lemma_after_tricks(dealt_table(d, log), n);
    let u = after_tricks(dealt_table(d, log), n);
    assert(total(u) == all_cards(u).len());
    assert(all_cards(u).to_multiset().len() == all_cards(u).len());
    assert(d.to_multiset().len() == d.len());
}

proof fn lemma_after_tricks(t: Table, n: nat)
    requires
        t.a.deck.len() == t.b.deck.len(),
    ensures
        all_cards(after_tricks(t, n)).to_multiset() == all_cards(t).to_multiset(),
        after_tricks(t, n).a.deck.len() == after_tricks(t, n).b.deck.len(),
        n >= t.a.deck.len() ==> exhausted(after_tricks(t, n)),
    decreases n,
{
    if n == 0 || exhausted(t) {
    } else {
        law_trick_keeps_cards(t);
        lemma_trick(t);
        lemma_after_tricks(trick(t).0, (n - 1) as nat);
    }
}

/// Invariant of play: from a deal of a deck in which no card occurs twice, after
/// any number of tricks, no card lies in two piles (nor twice in one).
pub proof fn law_disjointness(d: Seq<Card>, log: Seq<LogEntry>, n: nat)
    requires
        d.len() == 52,
        d.no_duplicates(),
    ensures
        disjoint(after_tricks(dealt_table(d, log), n)),
{
    law_conservation(d, log, n);
    let u = after_tricks(dealt_table(d, log), n);
    d.lemma_multiset_has_no_duplicates();
    all_cards(u).lemma_multiset_has_no_duplicates_conv();
}

/// A deal of 52 cards, none twice, gives a playable table holding all of them.
pub proof fn law_deal_playable(d: Seq<Card>, log: Seq<LogEntry>)
    requires
        d.len() == 52,
        d.no_duplicates(),
    ensures
        playable(dealt_table(d, log)),
        total(dealt_table(d, log)) == 52,
{
    law_conservation(d, log, 0);
    law_disjointness(d, log, 0);
}

/// Every trick takes at least one card from each draw pile and keeps them of equal
/// size; each war round takes the blind cards and one more from each; so at most
/// as many tricks as a draw pile holds cards empty both draw piles.
pub proof fn law_progress(t: Table)
    requires
        t.a.deck.len() > 0,
        t.a.deck.len() == t.b.deck.len(),
    ensures
        trick(t).0.a.deck.len() < t.a.deck.len(),
        trick(t).0.b.deck.len() < t.b.deck.len(),
        trick(t).0.a.deck.len() == trick(t).0.b.deck.len(),
        face_up(blind_round(t)).a.deck.len() == t.a.deck.len() - blind_count(t) - 1,
        face_up(blind_round(t)).b.deck.len() == t.b.deck.len() - blind_count(t) - 1,
        exhausted(after_tricks(t, t.a.deck.len())),
{
    lemma_trick(t);
    lemma_blind_round(t);
    lemma_face_up(blind_round(t));
    lemma_after_tricks(t, t.a.deck.len());
}

/// In a trick, each blind batch holds at most the cap, and the cap is reached
/// whenever both players keep a card to turn up afterwards.
pub proof fn law_war_cap(t: Table)
    requires
        t.a.deck.len() > 0,
        t.a.deck.len() == t.b.deck.len(),
    ensures
        forall|i: int|
            t.log.len() <= i < trick(t).0.log.len() ==> within_cap(#[trigger] trick(t).0.log[i]),
        blind_count(t) <= BLIND_CAP,
        t.a.deck.len() > BLIND_CAP ==> blind_count(t) == BLIND_CAP,
{
    lemma_trick(t);
}

/// The outcome of a comparison depends on the two ranks only, and it is a war
/// exactly when the ranks are equal.
pub proof fn law_tie_break(a: Card, b: Card, a2: Card, b2: Card)
    requires
        a.rank == a2.rank,
        b.rank == b2.rank,
    ensures
        outcome_of(a, b) == outcome_of(a2, b2),
        (outcome_of(a, b) == Outcome::War) <==> a.rank == b.rank,
{
}

} // verus!
