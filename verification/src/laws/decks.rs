//! Laws of the standard decks, of the trump rule and of the operations
//! that make one deck of another.

use crate::objects::card::Card;
use crate::objects::deck::rotated;
use crate::objects::deck_ops::{repeated, without_each};
use crate::objects::rank::Rank;
use crate::objects::suit::Suit;
use crate::traits::comparator::{CardComparator, TrumpComparator};
use crate::utils::standard::{standard_52, standard_54};
use std::cmp::Ordering;
use vstd::prelude::*;

verus! {

/// The standard deck holds 52 cards, none of them twice and none a joker:
/// every card that is no joker, once.
pub proof fn lemma_standard_52_cards()
    ensures
        standard_52().len() == 52,
        standard_52().no_duplicates(),
        forall|i: int| 0 <= i < 52 ==> (#[trigger] standard_52()[i]).rank != Rank::Joker,
        forall|card: Card| card.rank != Rank::Joker ==> standard_52().contains(card),
{
    let deck = standard_52();
    assert forall|card: Card| card.rank != Rank::Joker implies deck.contains(card) by {
        let i = card.rank.spec_value() * 4 + card.suit.spec_value();
        assert(deck[i] == card);
    }
    assert forall|i: int, j: int| 0 <= i < deck.len() && 0 <= j < deck.len() && i != j implies deck[i]
        != deck[j] by {
        assert(deck[i].rank.spec_value() == i / 4 && deck[i].suit.spec_value() == i % 4);
        assert(deck[j].rank.spec_value() == j / 4 && deck[j].suit.spec_value() == j % 4);
    }
}

/// The deck with jokers holds 54 cards, none of them twice: the standard
/// deck, and then the two jokers, which are its only jokers.
pub proof fn lemma_standard_54_cards()
    ensures
        standard_54().len() == 54,
        standard_54().no_duplicates(),
        standard_54().subrange(0, 52) == standard_52(),
        forall|i: int|
            0 <= i < 54 ==> ((#[trigger] standard_54()[i]).rank == Rank::Joker <==> i >= 52),
        standard_54().filter(|card: Card| card.rank == Rank::Joker).len() == 2,
{
    let deck = standard_54();
    let is_joker = |card: Card| card.rank == Rank::Joker;
    lemma_standard_52_cards();
    assert(deck.subrange(0, 52) =~= standard_52());
    assert forall|i: int| 0 <= i < 54 implies ((#[trigger] deck[i]).rank == Rank::Joker <==> i
        >= 52) by {
        if i < 52 {
            assert(deck[i] == standard_52()[i]);
        }
    }
    assert forall|i: int, j: int| 0 <= i < deck.len() && 0 <= j < deck.len() && i != j implies deck[i]
        != deck[j] by {
        if i < 52 && j < 52 {
            assert(deck[i] == standard_52()[i] && deck[j] == standard_52()[j]);
        }
    }
    assert(standard_52().filter(is_joker).len() == 0) by {
        standard_52().lemma_all_neg_filter_empty(is_joker);
    }
    let first = standard_52().push(Card { suit: Suit::Hearts, rank: Rank::Joker });
    standard_52().lemma_filter_len_push(is_joker, Card { suit: Suit::Hearts, rank: Rank::Joker });
    first.lemma_filter_len_push(is_joker, Card { suit: Suit::Spades, rank: Rank::Joker });
}

/// Under the trump rule a card of the trump suit is greater than any card of
/// another suit, whatever their ranks.
pub proof fn lemma_trump_outranks(trump: Suit, a: Card, b: Card)
    requires
        a.suit == trump,
        b.suit != trump,
    ensures
        (TrumpComparator { trump }).order(a, b) == Ordering::Greater,
        (TrumpComparator { trump }).order(b, a) == Ordering::Less,
{
}

/// A cut deck holds the cards that it held before, each as often as before.
pub proof fn lemma_rotated_keeps_cards(s: Seq<Card>, at: int)
    requires
        0 <= at <= s.len(),
    ensures
        rotated(s, at).len() == s.len(),
        rotated(s, at).to_multiset() == s.to_multiset(),
{
    let upper = s.subrange(0, at);
    let lower = s.subrange(at, s.len() as int);
    assert(s =~= upper + lower);
    vstd::seq_lib::lemma_multiset_commutative(upper, lower);
    vstd::seq_lib::lemma_multiset_commutative(lower, upper);
    assert(lower.to_multiset().add(upper.to_multiset()) =~= upper.to_multiset().add(
        lower.to_multiset(),
    )) by {
        broadcast use vstd::multiset::group_multiset_axioms;

    }
}

/// A deck turned over holds the cards that it held before, each as often as
/// before, and turned over again it is the deck that it was.
pub proof fn lemma_reversed_keeps_cards(s: Seq<Card>)
    ensures
        s.reverse().len() == s.len(),
        s.reverse().to_multiset() == s.to_multiset(),
        s.reverse().reverse() == s,
{
    s.lemma_reverse_to_multiset();
    assert(s.reverse().reverse() =~= s);
}

/// A sequence repeated holds as many cards as the sequence, times the number
/// of copies, and each copy holds the cards of the sequence in their order.
pub proof fn lemma_repeated(s: Seq<Card>, times: nat)
    ensures
        repeated(s, times).len() == times * s.len(),
        forall|i: int|
            0 <= i < times * s.len() ==> (#[trigger] repeated(s, times)[i]) == s[i % (
            s.len() as int)],
    decreases times,
{
    if times == 0 {
        assert(times * s.len() == 0) by (nonlinear_arith)
            requires
                times == 0,
        ;
    } else {
        let before = (times - 1) as nat;
        lemma_repeated(s, before);
        assert(times * s.len() == before * s.len() + s.len()) by (nonlinear_arith)
            requires
                times == before + 1,
        ;
        assert forall|i: int| 0 <= i < times * s.len() implies (#[trigger] repeated(s, times)[i])
            == s[i % (s.len() as int)] by {
            if i >= before * s.len() {
                let k = i - before * s.len();
                assert(repeated(s, times)[i] == s[k]);
                assert(i % (s.len() as int) == k) by (nonlinear_arith)
                    requires
                        i == before * s.len() + k,
                        0 <= k < s.len(),
                ;
            } else {
                assert(repeated(s, times)[i] == repeated(s, before)[i]);
            }
        }
    }
}

/// Taking a card away removes exactly one card equal to it, where there is
/// one, however many there are; and nothing, where there is none.
pub proof fn lemma_remove_value_once(s: Seq<Card>, card: Card)
    ensures
        s.contains(card) ==> s.remove_value(card).len() == s.len() - 1 && s.remove_value(
            card,
        ).to_multiset() == s.to_multiset().remove(card),
        !s.contains(card) ==> s.remove_value(card) == s,
{
    s.index_of_first_ensures(card);
    if s.contains(card) {
        let i = s.index_of_first(card)->Some_0;
        vstd::seq_lib::to_multiset_remove(s, i);
    }
}

/// Taking the cards of `taken` away, one after the other, leaves each card
/// as often as `s` held it more often than `taken`.
pub proof fn lemma_without_each(s: Seq<Card>, taken: Seq<Card>)
    ensures
        without_each(s, taken).to_multiset() == s.to_multiset().sub(taken.to_multiset()),
    decreases taken.len(),
{
    broadcast use vstd::multiset::group_multiset_axioms;
    broadcast use vstd::seq_lib::group_to_multiset_ensures;

    if taken.len() == 0 {
        assert(taken.to_multiset() =~= vstd::multiset::Multiset::<Card>::empty());
        assert(s.to_multiset().sub(taken.to_multiset()) =~= s.to_multiset());
    } else {
        let card = taken[0];
        let rest = taken.drop_first();
        lemma_remove_value_once(s, card);
        lemma_without_each(s.remove_value(card), rest);
        assert(taken =~= seq![card] + rest);
        vstd::seq_lib::lemma_multiset_commutative(seq![card], rest);
        assert(seq![card].to_multiset() =~= vstd::multiset::Multiset::<Card>::singleton(card)) by {
            assert(seq![card] =~= Seq::<Card>::empty().push(card));
        }
        assert(s.remove_value(card).to_multiset().sub(rest.to_multiset()) =~= s.to_multiset().sub(
            taken.to_multiset(),
        ));
    }
}

} // verus!
