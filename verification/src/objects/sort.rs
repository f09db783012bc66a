//! Sorting a deck, by a rule for cards or by a judge of the caller's.

use crate::objects::card::Card;
use crate::objects::deck::Deck;
use crate::traits::comparator::CardComparator;
use std::cmp::Ordering;
use vstd::prelude::*;

verus! {

/// Whether the judge has put `a` before `b`: asked about `a` and `b` it did
/// not answer "greater", or asked about `b` and `a` it answered "greater".
pub open spec fn judged_in_order<F: Fn(&Card, &Card) -> Ordering>(
    judge: F,
    a: Card,
    b: Card,
) -> bool {
    (exists|order: Ordering| judge.ensures((&a, &b), order) && order != Ordering::Greater)
        || judge.ensures((&b, &a), Ordering::Greater)
}

/// Whether the judge has put the card at `i` before the card that follows
/// it.
pub open spec fn in_order_at<F: Fn(&Card, &Card) -> Ordering>(
    judge: F,
    s: Seq<Card>,
    i: int,
) -> bool {
    judged_in_order(judge, s[i], s[i + 1])
}

/// Whether the judge has put each card of `s` before the card that follows
/// it.
pub open spec fn neighbours_in_order<F: Fn(&Card, &Card) -> Ordering>(
    judge: F,
    s: Seq<Card>,
) -> bool {
    forall|i: int| 0 <= i && i + 1 < s.len() ==> #[trigger] in_order_at(judge, s, i)
}

/// Whether no card of `s` is greater, under the rule, than a card behind it.
pub open spec fn sorted_by<C: CardComparator>(rule: &C, s: Seq<Card>) -> bool {
    forall|i: int, j: int| 0 <= i <= j < s.len() ==> rule.order(s[i], s[j]) != Ordering::Greater
}

/// Where no card is greater than its neighbour behind it, none is greater
/// than any card behind it: the rule's order is a total preorder.
pub proof fn lemma_neighbours_sorted<C: CardComparator>(rule: &C, s: Seq<Card>)
    requires
        forall|i: int|
            0 <= i && i + 1 < s.len() ==> rule.order(#[trigger] s[i], s[i + 1])
                != Ordering::Greater,
    ensures
        sorted_by(rule, s),
{
    assert forall|i: int, j: int| 0 <= i <= j < s.len() implies rule.order(s[i], s[j])
        != Ordering::Greater by {
        lemma_reaches(rule, s, i, j);
    }
}

/// One pair of the lemma above, by induction on the distance.
proof fn lemma_reaches<C: CardComparator>(rule: &C, s: Seq<Card>, i: int, j: int)
    requires
        forall|k: int|
            0 <= k && k + 1 < s.len() ==> rule.order(#[trigger] s[k], s[k + 1])
                != Ordering::Greater,
        0 <= i <= j < s.len(),
    ensures
        rule.order(s[i], s[j]) != Ordering::Greater,
    decreases j - i,
{
    if i == j {
        rule.order_reverses(s[i], s[i]);
    } else {
        lemma_reaches(rule, s, i, j - 1);
        assert(rule.order(s[j - 1], s[j - 1 + 1]) != Ordering::Greater);
        rule.order_transitive(s[i], s[j - 1], s[j]);
    }
}

/// Where a judge answers as a rule does, and has put each card before the
/// card that follows it, no card is greater under the rule than a card
/// behind it.
pub proof fn lemma_judged_sorted<F: Fn(&Card, &Card) -> Ordering, C: CardComparator>(
    judge: F,
    rule: &C,
    s: Seq<Card>,
)
    requires
        forall|a: &Card, b: &Card, order: Ordering|
            judge.ensures((a, b), order) ==> order == rule.order(*a, *b),
        neighbours_in_order(judge, s),
    ensures
        sorted_by(rule, s),
{
    assert forall|i: int| 0 <= i && i + 1 < s.len() implies rule.order(#[trigger] s[i], s[i + 1])
        != Ordering::Greater by {
        assert(in_order_at(judge, s, i));
        rule.order_reverses(s[i + 1], s[i]);
    }
    lemma_neighbours_sorted(rule, s);
}

/// The cards in the order that the judge gives them: each card is inserted,
/// one after the other, below the cards that the judge calls greater.
pub fn sort_cards_by<F: Fn(&Card, &Card) -> Ordering>(cards: &Vec<Card>, judge: F) -> (sorted: Vec<
    Card,
>)
    requires
        forall|a: &Card, b: &Card| judge.requires((a, b)),
    ensures
        sorted@.to_multiset() == cards@.to_multiset(),
        sorted@.len() == cards@.len(),
        neighbours_in_order(judge, sorted@),
{
    let n = cards.len();
    let mut sorted: Vec<Card> = Vec::new();
    let mut taken: usize = 0;
    let ghost mut count: int = 0;
    proof {
        assert(cards@.subrange(0, 0) =~= Seq::<Card>::empty());
    }
    while taken < n
        invariant
            taken <= n,
            count == taken,
            n == cards@.len(),
            forall|a: &Card, b: &Card| judge.requires((a, b)),
            sorted@.to_multiset() == cards@.subrange(0, count).to_multiset(),
            sorted@.len() == count,
            neighbours_in_order(judge, sorted@),
        decreases n - taken,
    {
        let card = cards[taken];
        let mut place: usize = sorted.len();
        let mut placed = false;
        while place > 0 && !placed
            invariant
                place <= sorted@.len(),
                forall|a: &Card, b: &Card| judge.requires((a, b)),
                forall|j: int|
                    place <= j < sorted@.len() ==> judge.ensures(
                        (&#[trigger] sorted@[j], &card),
                        Ordering::Greater,
                    ),
                placed ==> place >= 1 && judged_in_order(judge, sorted@[place - 1], card),
            decreases place + (if placed { 0int } else { 1int }),
        {
            let order = judge(&sorted[place - 1], &card);
            if matches!(order, Ordering::Greater) {
                place = place - 1;
            } else {
                placed = true;
            }
        }
        let ghost before = sorted@;
        sorted.insert(place, card);
        proof {
            broadcast use vstd::seq_lib::group_to_multiset_ensures;

            assert(cards@.subrange(0, count + 1) =~= cards@.subrange(0, count).push(card));
            assert forall|i: int| 0 <= i && i + 1 < sorted@.len() implies #[trigger] in_order_at(
                judge,
                sorted@,
                i,
            ) by {
                if i + 1 < place {
                    assert(in_order_at(judge, before, i));
                } else if i + 1 == place {
                    assert(sorted@[i] == before[place - 1]);
                } else if i == place {
                    assert(sorted@[i + 1] == before[i]);
                } else {
                    assert(in_order_at(judge, before, i - 1));
                }
            }
        }
        taken = taken + 1;
        proof {
            count = count + 1;
        }
    }
    proof {
        assert(cards@.subrange(0, count) =~= cards@);
    }
    sorted
}

impl Deck {
    /// Sorts the deck by a judge of the caller's: a function that says of two
    /// cards whether the first is less than, equal to or greater than the
    /// second. The deck holds the same cards afterwards, and the judge has put
    /// each card before the one that follows it.
    pub fn sort_by<F: Fn(&Card, &Card) -> Ordering>(&mut self, judge: F)
        requires
            forall|a: &Card, b: &Card| judge.requires((a, b)),
        ensures
            final(self)@.to_multiset() == old(self)@.to_multiset(),
            final(self)@.len() == old(self)@.len(),
            neighbours_in_order(judge, final(self)@),
    {
        let cards = self.to_vec();
        let sorted = sort_cards_by(&cards, judge);
        *self = Deck::from_vec(sorted);
    }

    /// Sorts the deck by a rule, lowest card on top. The deck holds the same
    /// cards afterwards, and no card is greater than a card below it.
    pub fn sort_by_comparator<C: CardComparator>(&mut self, rule: &C)
        ensures
            final(self)@.to_multiset() == old(self)@.to_multiset(),
            final(self)@.len() == old(self)@.len(),
            sorted_by(rule, final(self)@),
    {
        let judge = |a: &Card, b: &Card| -> (order: Ordering)
            ensures
                order == rule.order(*a, *b),
            { rule.compare(a, b) };
        let cards = self.to_vec();
        let sorted = sort_cards_by(&cards, judge);
        proof {
            lemma_judged_sorted(judge, rule, sorted@);
        }
        *self = Deck::from_vec(sorted);
    }
}

} // verus!
