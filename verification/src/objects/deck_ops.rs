//! Equality and copies of decks, indexing, and the operators that make a
//! deck of a deck and a card, of two decks, or of a deck and a number.

use crate::objects::card::Card;
use crate::objects::deck::Deck;
use std::ops::{Add, AddAssign, Index, Mul, MulAssign, Sub, SubAssign};
use vstd::prelude::*;
use vstd::std_specs::cmp::PartialEqSpecImpl;
use vstd::std_specs::ops::{AddSpecImpl, MulSpecImpl, SubSpecImpl};

verus! {

/// The sequence without one card for each card of `taken`, the cards of
/// `taken` removed one after the other, each time the first equal card.
pub open spec fn without_each(s: Seq<Card>, taken: Seq<Card>) -> Seq<Card>
    decreases taken.len(),
{
    if taken.len() == 0 {
        s
    } else {
        without_each(s.remove_value(taken[0]), taken.drop_first())
    }
}

/// The sequence `times` times in a row.
pub open spec fn repeated(s: Seq<Card>, times: nat) -> Seq<Card>
    decreases times,
{
    if times == 0 {
        Seq::<Card>::empty()
    } else {
        repeated(s, (times - 1) as nat) + s
    }
}

impl Deck {
    /// Removes the first card equal to `card`, if the deck holds one, and
    /// says whether it did.
    pub fn remove_card(&mut self, card: &Card) -> (removed: bool)
        ensures
            removed == old(self)@.contains(*card),
            final(self)@ == old(self)@.remove_value(*card),
    {
        proof {
            old(self)@.index_of_first_ensures(*card);
        }
        match self.find(card) {
            Some(position) => {
                let _ = self.remove_at(position);
                true
            },
            None => false,
        }
    }

    /// Removes one card for each card of `taken`, going through `taken` from
    /// its top and removing each time the first equal card, if there is one.
    pub fn remove_cards(&mut self, taken: &Deck)
        ensures
            final(self)@ == without_each(old(self)@, taken@),
    {
        let n = taken.len();
        let mut i: usize = 0;
        proof {
            assert(taken@.subrange(0, n as int) =~= taken@);
        }
        while i < n
            invariant
                i <= n,
                n == taken@.len(),
                without_each(self@, taken@.subrange(i as int, n as int)) == without_each(
                    old(self)@,
                    taken@,
                ),
            decreases n - i,
        {
            let card = taken.peek_at(i);
            proof {
                let left = taken@.subrange(i as int, n as int);
                assert(left.drop_first() =~= taken@.subrange(i + 1, n as int));
            }
            self.remove_card(card.unwrap());
            i = i + 1;
        }
    }

    /// Puts the cards of `other` on top of the deck, one after the other
    /// from the top of `other`: they end up in reverse order.
    pub fn stack(&mut self, other: &Deck)
        ensures
            final(self)@ == other@.reverse() + old(self)@,
    {
        let n = other.len();
        let mut i: usize = 0;
        while i < n
            invariant
                i <= n,
                n == other@.len(),
                self@ == other@.subrange(0, i as int).reverse() + old(self)@,
            decreases n - i,
        {
            let card = other.peek_at(i);
            self.add_card(*card.unwrap());
            proof {
                assert(self@ =~= other@.subrange(0, i + 1).reverse() + old(self)@);
            }
            i = i + 1;
        }
        proof {
            assert(other@.subrange(0, n as int) =~= other@);
        }
    }

    /// A deck of `times` copies of this deck, one after the other.
    pub fn repeat(&self, times: usize) -> (copies: Deck)
        ensures
            copies@ == repeated(self@, times as nat),
    {
        let mut copies = Deck::from_vec(Vec::new());
        let mut done: usize = 0;
        while done < times
            invariant
                done <= times,
                copies@ == repeated(self@, done as nat),
            decreases times - done,
        {
            copies.add_cards_bottom(self.to_vec());
            done = done + 1;
        }
        copies
    }
}

impl Default for Deck {
    /// The empty deck.
    fn default() -> (deck: Deck)
        ensures
            deck@ == Seq::<Card>::empty(),
    {
        Deck::from_vec(Vec::new())
    }
}

impl Clone for Deck {
    /// A deck of the same cards in the same order.
    fn clone(&self) -> (copy: Deck)
        ensures
            copy@ == self@,
    {
        Deck::from_vec(self.to_vec())
    }
}

impl PartialEq for Deck {
    /// Two decks are equal when they hold the same cards in the same order.
    fn eq(&self, other: &Deck) -> (equal: bool) {
        let n = self.len();
        if other.len() != n {
            return false;
        }
        let mut i: usize = 0;
        while i < n
            invariant
                i <= n,
                n == self@.len(),
                n == other@.len(),
                forall|j: int| 0 <= j < i ==> self@[j] == other@[j],
            decreases n - i,
        {
            let mine = self.peek_at(i);
            let theirs = other.peek_at(i);
            if *mine.unwrap() != *theirs.unwrap() {
                return false;
            }
            i = i + 1;
        }
        proof {
            assert(self@ =~= other@);
        }
        true
    }
}

impl Eq for Deck {

}

impl PartialEqSpecImpl for Deck {
    open spec fn obeys_eq_spec() -> bool {
        true
    }

    open spec fn eq_spec(&self, other: &Deck) -> bool {
        self@ == other@
    }
}

impl Index<usize> for Deck {
    type Output = Card;

    /// The card at `index`, which must be a position of the deck.
    fn index(&self, index: usize) -> (card: &Card)
        ensures
            *card == self@[index as int],
    {
        match self.peek_at(index) {
            Some(card) => card,
            None => vstd::pervasive::unreached(),
        }
    }
}

impl vstd::std_specs::core::IndexSpecImpl<usize> for Deck {
    open spec fn index_req(&self, index: &usize) -> bool {
        *index < self@.len()
    }
}

impl Add<Card> for Deck {
    type Output = Deck;

    /// The deck with the card put on top.
    fn add(self, card: Card) -> (sum: Deck)
        ensures
            sum@ == seq![card] + self@,
    {
        let mut sum = self;
        sum.add_card(card);
        sum
    }
}

/// The result of this operator is stated by the operator itself, over the
/// views of the decks. A deck is more than its view, so no spec function
/// names the deck that comes out, and `obeys` says so.
impl AddSpecImpl<Card> for Deck {
    open spec fn obeys_add_spec() -> bool {
        false
    }

    open spec fn add_req(self, card: Card) -> bool {
        true
    }

    open spec fn add_spec(self, card: Card) -> Deck {
        self
    }
}

impl AddAssign<Card> for Deck {
    /// Puts the card on top of the deck.
    fn add_assign(&mut self, card: Card)
        ensures
            final(self)@ == seq![card] + old(self)@,
    {
        self.add_card(card);
    }
}

impl Sub<Card> for Deck {
    type Output = Deck;

    /// The deck without the first card equal to `card`; the deck as it is
    /// where it holds no such card.
    fn sub(self, card: Card) -> (rest: Deck)
        ensures
            rest@ == self@.remove_value(card),
    {
        let mut rest = self;
        rest.remove_card(&card);
        rest
    }
}

/// The result of this operator is stated by the operator itself, over the
/// views of the decks. A deck is more than its view, so no spec function
/// names the deck that comes out, and `obeys` says so.
impl SubSpecImpl<Card> for Deck {
    open spec fn obeys_sub_spec() -> bool {
        false
    }

    open spec fn sub_req(self, card: Card) -> bool {
        true
    }

    open spec fn sub_spec(self, card: Card) -> Deck {
        self
    }
}

impl SubAssign<Card> for Deck {
    /// Removes the first card equal to `card`, if there is one.
    fn sub_assign(&mut self, card: Card)
        ensures
            final(self)@ == old(self)@.remove_value(card),
    {
        self.remove_card(&card);
    }
}

impl Add<Deck> for Deck {
    type Output = Deck;

    /// The deck with the cards of `other` put on top one after the other,
    /// so that they lie in reverse order.
    fn add(self, other: Deck) -> (sum: Deck)
        ensures
            sum@ == other@.reverse() + self@,
    {
        let mut sum = self;
        sum.stack(&other);
        sum
    }
}

/// The result of this operator is stated by the operator itself, over the
/// views of the decks. A deck is more than its view, so no spec function
/// names the deck that comes out, and `obeys` says so.
impl AddSpecImpl<Deck> for Deck {
    open spec fn obeys_add_spec() -> bool {
        false
    }

    open spec fn add_req(self, other: Deck) -> bool {
        true
    }

    open spec fn add_spec(self, other: Deck) -> Deck {
        self
    }
}

impl AddAssign<Deck> for Deck {
    /// Puts the cards of `other` on top one after the other, so that they
    /// lie in reverse order.
    fn add_assign(&mut self, other: Deck)
        ensures
            final(self)@ == other@.reverse() + old(self)@,
    {
        self.stack(&other);
    }
}

impl Sub<Deck> for Deck {
    type Output = Deck;

    /// The deck without one card for each card of `other`.
    fn sub(self, other: Deck) -> (rest: Deck)
        ensures
            rest@ == without_each(self@, other@),
    {
        let mut rest = self;
        rest.remove_cards(&other);
        rest
    }
}

/// The result of this operator is stated by the operator itself, over the
/// views of the decks. A deck is more than its view, so no spec function
/// names the deck that comes out, and `obeys` says so.
impl SubSpecImpl<Deck> for Deck {
    open spec fn obeys_sub_spec() -> bool {
        false
    }

    open spec fn sub_req(self, other: Deck) -> bool {
        true
    }

    open spec fn sub_spec(self, other: Deck) -> Deck {
        self
    }
}

impl SubAssign<Deck> for Deck {
    /// Removes one card for each card of `other`.
    fn sub_assign(&mut self, other: Deck)
        ensures
            final(self)@ == without_each(old(self)@, other@),
    {
        self.remove_cards(&other);
    }
}

impl Mul<usize> for Deck {
    type Output = Deck;

    /// A deck of `times` copies of this deck, one after the other.
    fn mul(self, times: usize) -> (copies: Deck)
        ensures
            copies@ == repeated(self@, times as nat),
    {
        self.repeat(times)
    }
}

/// The result of this operator is stated by the operator itself, over the
/// views of the decks. A deck is more than its view, so no spec function
/// names the deck that comes out, and `obeys` says so.
impl MulSpecImpl<usize> for Deck {
    open spec fn obeys_mul_spec() -> bool {
        false
    }

    open spec fn mul_req(self, times: usize) -> bool {
        true
    }

    open spec fn mul_spec(self, times: usize) -> Deck {
        self
    }
}

impl MulAssign<usize> for Deck {
    /// Replaces the deck by `times` copies of itself, one after the other.
    fn mul_assign(&mut self, times: usize)
        ensures
            final(self)@ == repeated(old(self)@, times as nat),
    {
        let copies = self.repeat(times);
        *self = copies;
    }
}

impl IntoIterator for Deck {
    type Item = Card;

    type IntoIter = std::vec::IntoIter<Card>;

    /// An iterator that hands out the cards, top card first.
    fn into_iter(self) -> (cards: std::vec::IntoIter<Card>)
        ensures
            vstd::std_specs::vec::into_iter_elts(cards) == self@,
    {
        self.to_vec().into_iter()
    }
}

} // verus!
