//! Rules that order cards: the trait of such a rule, and the standard,
//! ace-low, bridge and trump rules.

use crate::objects::card::Card;
use crate::objects::rank::Rank;
use crate::objects::suit::Suit;
use std::cmp::Ordering;
use vstd::prelude::*;

verus! {

/// The order seen from the other side: less for greater and greater for less.
pub open spec fn reversed(order: Ordering) -> Ordering {
    match order {
        Ordering::Less => Ordering::Greater,
        Ordering::Equal => Ordering::Equal,
        Ordering::Greater => Ordering::Less,
    }
}

/// How two weights compare.
pub open spec fn weight_order(a: i32, b: i32) -> Ordering {
    if a < b {
        Ordering::Less
    } else if a > b {
        Ordering::Greater
    } else {
        Ordering::Equal
    }
}

/// How two weights compare.
pub fn compare_weights(a: i32, b: i32) -> (order: Ordering)
    ensures
        order == weight_order(a, b),
{
    if a < b {
        Ordering::Less
    } else if a > b {
        Ordering::Greater
    } else {
        Ordering::Equal
    }
}

/// A rule that orders cards. A rule gives each rank and each suit a weight
/// and says how any two cards compare; the comparison must be a total
/// preorder, which `order_reverses` and `order_transitive` have every rule
/// prove.
pub trait CardComparator {
    /// The weight of a rank under this rule.
    spec fn rank_weight(&self, rank: Rank) -> i32;

    /// The weight of a suit under this rule.
    spec fn suit_weight(&self, suit: Suit) -> i32;

    /// How `a` compares to `b` under this rule.
    spec fn order(&self, a: Card, b: Card) -> Ordering;

    /// Swapping the two cards reverses the outcome; so a card compares equal
    /// to itself.
    proof fn order_reverses(&self, a: Card, b: Card)
        ensures
            self.order(b, a) == reversed(self.order(a, b)),
    ;

    /// "Not greater" is transitive.
    proof fn order_transitive(&self, a: Card, b: Card, c: Card)
        requires
            self.order(a, b) != Ordering::Greater,
            self.order(b, c) != Ordering::Greater,
        ensures
            self.order(a, c) != Ordering::Greater,
    ;

    /// The weight of a rank under this rule.
    fn rank_value(&self, rank: Rank) -> (weight: i32)
        ensures
            weight == self.rank_weight(rank),
    ;

    /// The weight of a suit under this rule.
    fn suit_value(&self, suit: Suit) -> (weight: i32)
        ensures
            weight == self.suit_weight(suit),
    ;

    /// Compares two cards under this rule.
    fn compare(&self, a: &Card, b: &Card) -> (order: Ordering)
        ensures
            order == self.order(*a, *b),
    ;

    /// Whether `a` is greater than `b`.
    fn is_greater(&self, a: &Card, b: &Card) -> (greater: bool)
        ensures
            greater == (self.order(*a, *b) == Ordering::Greater),
    {
        matches!(self.compare(a, b), Ordering::Greater)
    }

    /// Whether `a` is less than `b`.
    fn is_less(&self, a: &Card, b: &Card) -> (less: bool)
        ensures
            less == (self.order(*a, *b) == Ordering::Less),
    {
        matches!(self.compare(a, b), Ordering::Less)
    }

    /// The greater of the two cards; `a` where they compare equal.
    fn max<'a>(&self, a: &'a Card, b: &'a Card) -> (card: &'a Card)
        ensures
            *card == if self.order(*a, *b) == Ordering::Less {
                *b
            } else {
                *a
            },
    {
        if matches!(self.compare(a, b), Ordering::Less) {
            b
        } else {
            a
        }
    }

    /// The lesser of the two cards; `a` where they compare equal.
    fn min<'a>(&self, a: &'a Card, b: &'a Card) -> (card: &'a Card)
        ensures
            *card == if self.order(*a, *b) == Ordering::Greater {
                *b
            } else {
                *a
            },
    {
        if matches!(self.compare(a, b), Ordering::Greater) {
            b
        } else {
            a
        }
    }
}

/// The common way to order two cards, given their weights: by rank weight,
/// and by suit weight where the rank weights are equal.
pub open spec fn order_by_weights(rank_a: i32, rank_b: i32, suit_a: i32, suit_b: i32) -> Ordering {
    if rank_a != rank_b {
        weight_order(rank_a, rank_b)
    } else {
        weight_order(suit_a, suit_b)
    }
}

/// Compares two cards, given their weights: by rank weight, then by suit
/// weight.
pub fn compare_by_weights(rank_a: i32, rank_b: i32, suit_a: i32, suit_b: i32) -> (order: Ordering)
    ensures
        order == order_by_weights(rank_a, rank_b, suit_a, suit_b),
{
    let by_rank = compare_weights(rank_a, rank_b);
    if matches!(by_rank, Ordering::Equal) {
        compare_weights(suit_a, suit_b)
    } else {
        by_rank
    }
}

/// The weight that the ace-low rule gives a rank: the ace 1, two to king 2
/// to 13, the joker 14.
pub open spec fn ace_low_weight(rank: Rank) -> i32 {
    if rank == Rank::Ace {
        1
    } else if rank == Rank::Joker {
        14
    } else {
        (rank.spec_value() + 2) as i32
    }
}

/// The weight that the bridge rule gives a suit: clubs 1, diamonds 2,
/// hearts 3, spades 4.
pub open spec fn bridge_suit_weight(suit: Suit) -> i32 {
    match suit {
        Suit::Clubs => 1,
        Suit::Diamonds => 2,
        Suit::Hearts => 3,
        Suit::Spades => 4,
    }
}

/// The standard rule: ranks by their value, the ace high and the joker
/// highest; all suits equal.
#[derive(Debug, Clone, Copy, Default)]
pub struct StandardComparator;

impl CardComparator for StandardComparator {
    open spec fn rank_weight(&self, rank: Rank) -> i32 {
        rank.spec_value() as i32
    }

    open spec fn suit_weight(&self, suit: Suit) -> i32 {
        0
    }

    open spec fn order(&self, a: Card, b: Card) -> Ordering {
        order_by_weights(
            self.rank_weight(a.rank),
            self.rank_weight(b.rank),
            self.suit_weight(a.suit),
            self.suit_weight(b.suit),
        )
    }

    proof fn order_reverses(&self, a: Card, b: Card) {
    }

    proof fn order_transitive(&self, a: Card, b: Card, c: Card) {
    }

    fn rank_value(&self, rank: Rank) -> (weight: i32) {
        rank.value() as i32
    }

    fn suit_value(&self, suit: Suit) -> (weight: i32) {
        0
    }

    fn compare(&self, a: &Card, b: &Card) -> (order: Ordering) {
        compare_by_weights(
            self.rank_value(a.rank),
            self.rank_value(b.rank),
            self.suit_value(a.suit),
            self.suit_value(b.suit),
        )
    }
}

/// The ace-low rule: the ace below the two, the joker still highest; all
/// suits equal.
#[derive(Debug, Clone, Copy, Default)]
pub struct AceLowComparator;

impl CardComparator for AceLowComparator {
    open spec fn rank_weight(&self, rank: Rank) -> i32 {
        ace_low_weight(rank)
    }

    open spec fn suit_weight(&self, suit: Suit) -> i32 {
        0
    }

    open spec fn order(&self, a: Card, b: Card) -> Ordering {
        order_by_weights(
            self.rank_weight(a.rank),
            self.rank_weight(b.rank),
            self.suit_weight(a.suit),
            self.suit_weight(b.suit),
        )
    }

    proof fn order_reverses(&self, a: Card, b: Card) {
    }

    proof fn order_transitive(&self, a: Card, b: Card, c: Card) {
    }

    fn rank_value(&self, rank: Rank) -> (weight: i32) {
        match rank {
            Rank::Ace => 1,
            Rank::Two => 2,
            Rank::Three => 3,
            Rank::Four => 4,
            Rank::Five => 5,
            Rank::Six => 6,
            Rank::Seven => 7,
            Rank::Eight => 8,
            Rank::Nine => 9,
            Rank::Ten => 10,
            Rank::Jack => 11,
            Rank::Queen => 12,
            Rank::King => 13,
            Rank::Joker => 14,
        }
    }

    fn suit_value(&self, suit: Suit) -> (weight: i32) {
        0
    }

    fn compare(&self, a: &Card, b: &Card) -> (order: Ordering) {
        compare_by_weights(
            self.rank_value(a.rank),
            self.rank_value(b.rank),
            self.suit_value(a.suit),
            self.suit_value(b.suit),
        )
    }
}

/// The bridge rule: ranks as in the standard rule, and among equal ranks
/// clubs below diamonds below hearts below spades.
#[derive(Debug, Clone, Copy, Default)]
pub struct BridgeComparator;

impl CardComparator for BridgeComparator {
    open spec fn rank_weight(&self, rank: Rank) -> i32 {
        rank.spec_value() as i32
    }

    open spec fn suit_weight(&self, suit: Suit) -> i32 {
        bridge_suit_weight(suit)
    }

    open spec fn order(&self, a: Card, b: Card) -> Ordering {
        order_by_weights(
            self.rank_weight(a.rank),
            self.rank_weight(b.rank),
            self.suit_weight(a.suit),
            self.suit_weight(b.suit),
        )
    }

    proof fn order_reverses(&self, a: Card, b: Card) {
    }

    proof fn order_transitive(&self, a: Card, b: Card, c: Card) {
    }

    fn rank_value(&self, rank: Rank) -> (weight: i32) {
        rank.value() as i32
    }

    fn suit_value(&self, suit: Suit) -> (weight: i32) {
        match suit {
            Suit::Clubs => 1,
            Suit::Diamonds => 2,
            Suit::Hearts => 3,
            Suit::Spades => 4,
        }
    }

    fn compare(&self, a: &Card, b: &Card) -> (order: Ordering) {
        compare_by_weights(
            self.rank_value(a.rank),
            self.rank_value(b.rank),
            self.suit_value(a.suit),
            self.suit_value(b.suit),
        )
    }
}

/// The trump rule: a card of the trump suit is above every card of another
/// suit; two trumps, or two cards that are not trumps, go by standard rank.
#[derive(Debug, Clone, Copy)]
pub struct TrumpComparator {
    pub trump: Suit,
}

impl TrumpComparator {
    /// The rule with the given trump suit.
    pub fn new(trump: Suit) -> (rule: TrumpComparator)
        ensures
            rule.trump == trump,
    {
        TrumpComparator { trump }
    }

    /// The trump suit.
    pub fn trump(&self) -> (trump: Suit)
        ensures
            trump == self.trump,
    {
        self.trump
    }
}

impl CardComparator for TrumpComparator {
    open spec fn rank_weight(&self, rank: Rank) -> i32 {
        rank.spec_value() as i32
    }

    open spec fn suit_weight(&self, suit: Suit) -> i32 {
        0
    }

    open spec fn order(&self, a: Card, b: Card) -> Ordering {
        if a.suit == self.trump && b.suit != self.trump {
            Ordering::Greater
        } else if a.suit != self.trump && b.suit == self.trump {
            Ordering::Less
        } else {
            weight_order(self.rank_weight(a.rank), self.rank_weight(b.rank))
        }
    }

    proof fn order_reverses(&self, a: Card, b: Card) {
    }

    proof fn order_transitive(&self, a: Card, b: Card, c: Card) {
    }

    fn rank_value(&self, rank: Rank) -> (weight: i32) {
        rank.value() as i32
    }

    fn suit_value(&self, suit: Suit) -> (weight: i32) {
        0
    }

    fn compare(&self, a: &Card, b: &Card) -> (order: Ordering) {
        let a_is_trump = a.suit == self.trump;
        let b_is_trump = b.suit == self.trump;
        if a_is_trump && !b_is_trump {
            Ordering::Greater
        } else if !a_is_trump && b_is_trump {
            Ordering::Less
        } else {
            compare_weights(self.rank_value(a.rank), self.rank_value(b.rank))
        }
    }
}

} // verus!
