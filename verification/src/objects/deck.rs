//! The deck: an ordered sequence of cards with access at both ends and at
//! any position.

use crate::objects::card::Card;
use crate::traits::factory::DeckFactory;
use std::collections::VecDeque;
use vstd::prelude::*;

verus! {

/// A deck of cards: an ordered sequence that may hold a card more than once.
/// The top of the deck is the front of the sequence, the bottom its back.
#[derive(Debug)]
pub struct Deck {
    cards: VecDeque<Card>,
}

impl View for Deck {
    type V = Seq<Card>;

    /// The cards of the deck, top card first.
    closed spec fn view(&self) -> Seq<Card> {
        self.cards@
    }
}

/// The cards `s[at..]` followed by the cards `s[..at]`.
pub open spec fn rotated(s: Seq<Card>, at: int) -> Seq<Card> {
    s.subrange(at, s.len() as int) + s.subrange(0, at)
}

/// The last `n` cards of `s`, the last of them first: the order in which
/// they leave the bottom of a deck.
pub open spec fn dealt_from_bottom(s: Seq<Card>, n: int) -> Seq<Card> {
    Seq::new(n as nat, |k: int| s[s.len() - 1 - k])
}

impl Deck {
    /// A deck of the given cards, in their order.
    pub fn new(cards: VecDeque<Card>) -> (deck: Deck)
        ensures
            deck@ == cards@,
    {
        Deck { cards }
    }

    /// A deck of the cards that the factory yields.
    pub fn from_factory<F: DeckFactory>(factory: F) -> (deck: Deck)
        ensures
            deck@ == factory.cards(),
    {
        Deck { cards: factory.generate() }
    }

    /// The number of cards in the deck.
    pub fn len(&self) -> (len: usize)
        ensures
            len == self@.len(),
    {
        self.cards.len()
    }

    /// Whether the deck holds no card.
    pub fn is_empty(&self) -> (empty: bool)
        ensures
            empty == (self@.len() == 0),
    {
        self.cards.len() == 0
    }

    /// Cuts the deck at `index`: the cards from `index` on come to the top,
    /// followed by those that were above them. An index that is no position
    /// of the deck leaves it as it is and returns `false`.
    pub fn cut(&mut self, index: usize) -> (done: bool)
        ensures
            done == (index < old(self)@.len()),
            done ==> final(self)@ == rotated(old(self)@, index as int),
            !done ==> final(self)@ == old(self)@,
    {
        if index >= self.cards.len() {
            return false;
        }
        let mut top = self.cards.split_off(index);
        top.append(&mut self.cards);
        self.cards = top;
        true
    }

    /// Removes the top card and returns it; `None` on an empty deck.
    pub fn deal(&mut self) -> (card: Option<Card>)
        ensures
            old(self)@.len() == 0 ==> card is None && final(self)@ == old(self)@,
            old(self)@.len() > 0 ==> card == Some(old(self)@[0]) && final(self)@ == old(
                self,
            )@.drop_first(),
    {
        self.cards.pop_front()
    }

    /// Removes the bottom card and returns it; `None` on an empty deck.
    pub fn deal_bottom(&mut self) -> (card: Option<Card>)
        ensures
            old(self)@.len() == 0 ==> card is None && final(self)@ == old(self)@,
            old(self)@.len() > 0 ==> card == Some(old(self)@.last()) && final(self)@ == old(
                self,
            )@.drop_last(),
    {
        self.cards.pop_back()
    }

    /// Puts a card on top of the deck.
    pub fn add_card(&mut self, card: Card)
        ensures
            final(self)@ == seq![card] + old(self)@,
    {
        self.cards.push_front(card);
    }

    /// Puts a card under the deck.
    pub fn add_card_bottom(&mut self, card: Card)
        ensures
            final(self)@ == old(self)@.push(card),
    {
        self.cards.push_back(card);
    }

    /// The top card, which stays in the deck; `None` on an empty deck.
    pub fn peek(&self) -> (card: Option<&Card>)
        ensures
            self@.len() == 0 ==> card is None,
            self@.len() > 0 ==> card == Some(&self@[0]),
    {
        if self.cards.len() > 0 {
            Some(&self.cards[0])
        } else {
            None
        }
    }

    /// The bottom card, which stays in the deck; `None` on an empty deck.
    pub fn peek_bottom(&self) -> (card: Option<&Card>)
        ensures
            self@.len() == 0 ==> card is None,
            self@.len() > 0 ==> card == Some(&self@.last()),
    {
        let n = self.cards.len();
        if n > 0 {
            Some(&self.cards[n - 1])
        } else {
            None
        }
    }

    /// The card at `index`, which stays in the deck; `None` where `index` is
    /// no position of the deck.
    pub fn peek_at(&self, index: usize) -> (card: Option<&Card>)
        ensures
            index >= self@.len() ==> card is None,
            index < self@.len() ==> card == Some(&self@[index as int]),
    {
        if index < self.cards.len() {
            Some(&self.cards[index])
        } else {
            None
        }
    }

    /// Replaces the card at `index`, which must be a position of the deck.
    pub fn set_at(&mut self, index: usize, card: Card)
        requires
            index < old(self)@.len(),
        ensures
            final(self)@ == old(self)@.update(index as int, card),
    {
        let _ = self.cards.remove(index);
        self.cards.insert(index, card);
        proof {
            assert(self.cards@ =~= old(self)@.update(index as int, card));
        }
    }

    /// Removes every card.
    pub fn clear(&mut self)
        ensures
            final(self)@ == Seq::<Card>::empty(),
    {
        self.cards.clear();
    }

    /// Inserts a card at `index`, before the card that was there. An index
    /// beyond the length leaves the deck as it is and returns `false`.
    pub fn insert_at(&mut self, card: Card, index: usize) -> (done: bool)
        ensures
            done == (index <= old(self)@.len()),
            done ==> final(self)@ == old(self)@.insert(index as int, card),
            !done ==> final(self)@ == old(self)@,
    {
        if index > self.cards.len() {
            return false;
        }
        self.cards.insert(index, card);
        true
    }

    /// Removes the card at `index` and returns it. An index that is no
    /// position of the deck leaves it as it is and returns `None`.
    pub fn remove_at(&mut self, index: usize) -> (card: Option<Card>)
        ensures
            index >= old(self)@.len() ==> card is None && final(self)@ == old(self)@,
            index < old(self)@.len() ==> card == Some(old(self)@[index as int]) && final(self)@
                == old(self)@.remove(index as int),
    {
        self.cards.remove(index)
    }

    /// Removes the card at `index` and returns it; the same as `remove_at`.
    pub fn deal_from(&mut self, index: usize) -> (card: Option<Card>)
        ensures
            index >= old(self)@.len() ==> card is None && final(self)@ == old(self)@,
            index < old(self)@.len() ==> card == Some(old(self)@[index as int]) && final(self)@
                == old(self)@.remove(index as int),
    {
        self.remove_at(index)
    }

    /// Removes the top `n` cards and returns them, the top card first. Where
    /// the deck holds fewer than `n` cards it stays as it is and the result is
    /// `None`.
    pub fn deal_n(&mut self, n: usize) -> (cards: Option<Vec<Card>>)
        ensures
            n > old(self)@.len() ==> cards is None && final(self)@ == old(self)@,
            n <= old(self)@.len() ==> cards is Some && cards->Some_0@ == old(self)@.subrange(
                0,
                n as int,
            ) && final(self)@ == old(self)@.subrange(n as int, old(self)@.len() as int),
    {
        self.deal_n_from(0, n)
    }

    /// Removes the bottom `n` cards and returns them, the bottom card first.
    /// Where the deck holds fewer than `n` cards it stays as it is and the
    /// result is `None`.
    pub fn deal_n_bottom(&mut self, n: usize) -> (cards: Option<Vec<Card>>)
        ensures
            n > old(self)@.len() ==> cards is None && final(self)@ == old(self)@,
            n <= old(self)@.len() ==> cards is Some && cards->Some_0@ == dealt_from_bottom(
                old(self)@,
                n as int,
            ) && final(self)@ == old(self)@.subrange(0, old(self)@.len() - n),
    {
        let len = self.cards.len();
        if n > len {
            return None;
        }
        let mut dealt: Vec<Card> = Vec::new();
        let mut k: usize = 0;
        while k < n
            invariant
                k <= n <= len,
                len == old(self)@.len(),
                self.cards@ == old(self)@.subrange(0, len - k),
                dealt@ == dealt_from_bottom(old(self)@, k as int),
            decreases n - k,
        {
            let card = self.cards.pop_back();
            match card {
                Some(c) => {
                    dealt.push(c);
                },
                None => {},
            }
            proof {
                assert(self.cards@ =~= old(self)@.subrange(0, len - k - 1));
                assert(dealt@ =~= dealt_from_bottom(old(self)@, k + 1));
            }
            k = k + 1;
        }
        Some(dealt)
    }

    /// Removes the `n` cards from `index` on and returns them in their
    /// order. Where the deck does not hold `n` cards from `index` on it stays
    /// as it is and the result is `None`.
    pub fn deal_n_from(&mut self, index: usize, n: usize) -> (cards: Option<Vec<Card>>)
        ensures
            index + n > old(self)@.len() ==> cards is None && final(self)@ == old(self)@,
            index + n <= old(self)@.len() ==> cards is Some && cards->Some_0@ == old(
                self,
            )@.subrange(index as int, index + n) && final(self)@ == old(self)@.subrange(
                0,
                index as int,
            ) + old(self)@.subrange(index + n, old(self)@.len() as int),
    {
        let len = self.cards.len();
        if n > len || index > len - n {
            return None;
        }
        let mut dealt: Vec<Card> = Vec::new();
        let mut k: usize = 0;
        while k < n
            invariant
                k <= n,
                index + n <= len,
                len == old(self)@.len(),
                dealt@ == old(self)@.subrange(index as int, index + k),
                self.cards@ == old(self)@.subrange(0, index as int) + old(self)@.subrange(
                    index + k,
                    len as int,
                ),
            decreases n - k,
        {
            let card = self.cards.remove(index);
            match card {
                Some(c) => {
                    dealt.push(c);
                },
                None => {},
            }
            proof {
                assert(dealt@ =~= old(self)@.subrange(index as int, index + k + 1));
                assert(self.cards@ =~= old(self)@.subrange(0, index as int) + old(
                    self,
                )@.subrange(index + k + 1, len as int));
            }
            k = k + 1;
        }
        proof {
            assert(old(self)@ =~= old(self)@.subrange(0, 0) + old(self)@.subrange(
                0,
                len as int,
            ));
        }
        Some(dealt)
    }

    /// Puts the cards on top of the deck, in their order: the first of them
    /// becomes the top card.
    pub fn add_cards(&mut self, cards: Vec<Card>)
        ensures
            final(self)@ == cards@ + old(self)@,
    {
        let n = cards.len();
        let mut k: usize = n;
        while k > 0
            invariant
                k <= n,
                n == cards@.len(),
                self.cards@ == cards@.subrange(k as int, n as int) + old(self)@,
            decreases k,
        {
            k = k - 1;
            self.cards.push_front(cards[k]);
            proof {
                assert(self.cards@ =~= cards@.subrange(k as int, n as int) + old(self)@);
            }
        }
        proof {
            assert(cards@.subrange(0, n as int) =~= cards@);
        }
    }

    /// Puts the cards under the deck, in their order: the last of them
    /// becomes the bottom card.
    pub fn add_cards_bottom(&mut self, cards: Vec<Card>)
        ensures
            final(self)@ == old(self)@ + cards@,
    {
        let n = cards.len();
        let mut k: usize = 0;
        while k < n
            invariant
                k <= n,
                n == cards@.len(),
                self.cards@ == old(self)@ + cards@.subrange(0, k as int),
            decreases n - k,
        {
            self.cards.push_back(cards[k]);
            proof {
                assert(self.cards@ =~= old(self)@ + cards@.subrange(0, k + 1));
            }
            k = k + 1;
        }
        proof {
            assert(cards@.subrange(0, n as int) =~= cards@);
        }
    }

    /// The position of the first card equal to `card`; `None` where the deck
    /// holds no such card.
    pub fn find(&self, card: &Card) -> (position: Option<usize>)
        ensures
            position is Some == self@.contains(*card),
            match position {
                Some(i) => i < self@.len() && self@[i as int] == *card && forall|j: int|
                    0 <= j < i ==> self@[j] != *card,
                None => true,
            },
    {
        let n = self.cards.len();
        let mut i: usize = 0;
        while i < n
            invariant
                i <= n,
                n == self.cards@.len(),
                forall|j: int| 0 <= j < i ==> self.cards@[j] != *card,
            decreases n - i,
        {
            if self.cards[i] == *card {
                return Some(i);
            }
            i = i + 1;
        }
        None
    }

    /// Whether the deck holds a card equal to `card`.
    pub fn contains(&self, card: &Card) -> (found: bool)
        ensures
            found == self@.contains(*card),
    {
        self.find(card).is_some()
    }

    /// How many cards of the deck are equal to `card`.
    pub fn count(&self, card: &Card) -> (count: usize)
        ensures
            count == self@.to_multiset().count(*card),
    {
        let n = self.cards.len();
        let mut count: usize = 0;
        let mut i: usize = 0;
        proof {
            assert(self.cards@.subrange(0, 0) =~= Seq::<Card>::empty());
            broadcast use vstd::seq_lib::group_to_multiset_ensures;
        }
        while i < n
            invariant
                i <= n,
                n == self.cards@.len(),
                count <= i,
                count == self.cards@.subrange(0, i as int).to_multiset().count(*card),
            decreases n - i,
        {
            proof {
                broadcast use vstd::seq_lib::group_to_multiset_ensures;
                assert(self.cards@.subrange(0, i + 1) =~= self.cards@.subrange(0, i as int).push(
                    self.cards@[i as int],
                ));
            }
            if self.cards[i] == *card {
                count = count + 1;
            }
            i = i + 1;
        }
        proof {
            assert(self.cards@.subrange(0, n as int) =~= self.cards@);
        }
        count
    }

    /// Turns the deck over: the bottom card becomes the top card.
    pub fn reverse(&mut self)
        ensures
            final(self)@ == old(self)@.reverse(),
    {
        let n = self.cards.len();
        let mut turned: VecDeque<Card> = VecDeque::new();
        let mut i: usize = 0;
        while i < n
            invariant
                i <= n,
                n == self.cards@.len(),
                self.cards@ == old(self)@,
                turned@ == self.cards@.subrange(0, i as int).reverse(),
            decreases n - i,
        {
            turned.push_front(self.cards[i]);
            proof {
                assert(turned@ =~= self.cards@.subrange(0, i + 1).reverse());
            }
            i = i + 1;
        }
        proof {
            assert(self.cards@.subrange(0, n as int) =~= self.cards@);
        }
        self.cards = turned;
    }

    /// Two new decks: the cards above `index`, and the cards from `index`
    /// on. An index beyond the length counts as the length.
    pub fn split_at(&self, index: usize) -> (halves: (Deck, Deck))
        ensures
            index <= self@.len() ==> halves.0@ == self@.subrange(0, index as int) && halves.1@
                == self@.subrange(index as int, self@.len() as int),
            index > self@.len() ==> halves.0@ == self@ && halves.1@ == Seq::<Card>::empty(),
    {
        let n = self.cards.len();
        let at = if index < n {
            index
        } else {
            n
        };
        let mut left: VecDeque<Card> = VecDeque::new();
        let mut right: VecDeque<Card> = VecDeque::new();
        let mut i: usize = 0;
        while i < n
            invariant
                i <= n,
                at <= n,
                n == self.cards@.len(),
                i <= at ==> left@ == self.cards@.subrange(0, i as int) && right@ == Seq::<
                    Card,
                >::empty(),
                i > at ==> left@ == self.cards@.subrange(0, at as int) && right@
                    == self.cards@.subrange(at as int, i as int),
            decreases n - i,
        {
            if i < at {
                left.push_back(self.cards[i]);
                proof {
                    assert(left@ =~= self.cards@.subrange(0, i + 1));
                }
            } else {
                right.push_back(self.cards[i]);
                proof {
                    assert(right@ =~= self.cards@.subrange(at as int, i + 1));
                }
            }
            i = i + 1;
        }
        proof {
            assert(self.cards@.subrange(0, n as int) =~= self.cards@);
            assert(self.cards@.subrange(n as int, n as int) =~= Seq::<Card>::empty());
        }
        (Deck { cards: left }, Deck { cards: right })
    }

    /// An iterator over the cards, top card first.
    pub fn iter(&self) -> (cards: std::collections::vec_deque::Iter<'_, Card>)
        ensures
            vstd::std_specs::vecdeque::into_iter_elts(cards) == self@.as_ref(),
    {
        proof {
            broadcast use vstd::std_specs::vecdeque::axiom_spec_iter;

        }
        self.cards.iter()
    }

    /// The cards of the deck, top card first, as a vector of their own.
    pub fn to_vec(&self) -> (cards: Vec<Card>)
        ensures
            cards@ == self@,
    {
        let n = self.cards.len();
        let mut cards: Vec<Card> = Vec::new();
        let mut i: usize = 0;
        while i < n
            invariant
                i <= n,
                n == self.cards@.len(),
                cards@ == self.cards@.subrange(0, i as int),
            decreases n - i,
        {
            cards.push(self.cards[i]);
            proof {
                assert(cards@ =~= self.cards@.subrange(0, i + 1));
            }
            i = i + 1;
        }
        proof {
            assert(self.cards@.subrange(0, n as int) =~= self.cards@);
        }
        cards
    }

    /// A deck of the given cards, the first of them on top.
    pub fn from_vec(cards: Vec<Card>) -> (deck: Deck)
        ensures
            deck@ == cards@,
    {
        let mut deck = Deck { cards: VecDeque::new() };
        deck.add_cards_bottom(cards);
        deck
    }
}

} // verus!
