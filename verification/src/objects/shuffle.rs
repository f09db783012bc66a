//! The three shuffles of a deck: at random, by riffling, and overhand.

use crate::objects::card::Card;
use crate::objects::deck::Deck;
use rand::seq::SliceRandom;
use rand::Rng;
use vstd::prelude::*;

verus! {

/// The riffle of a sequence: the lower half and the upper half interleaved,
/// starting with the lower half; the last card of an odd sequence stays last.
pub open spec fn riffled(s: Seq<Card>) -> Seq<Card> {
    let mid = s.len() as int / 2;
    Seq::new(
        s.len(),
        |i: int|
            if i >= 2 * mid {
                s[i]
            } else if i % 2 == 0 {
                s[mid + i / 2]
            } else {
                s[i / 2]
            },
    )
}

/// The sequence after `times` riffles.
pub open spec fn riffled_times(s: Seq<Card>, times: nat) -> Seq<Card>
    decreases times,
{
    if times == 0 {
        s
    } else {
        riffled_times(riffled(s), (times - 1) as nat)
    }
}

/// Two sequences of the same length interleaved, a card of the first one
/// first.
pub open spec fn interleaved(a: Seq<Card>, b: Seq<Card>) -> Seq<Card>
    decreases a.len(),
{
    if a.len() == 0 || b.len() == 0 {
        Seq::<Card>::empty()
    } else {
        seq![a[0], b[0]] + interleaved(a.drop_first(), b.drop_first())
    }
}

/// Where two sequences of the same length are interleaved, the cards of the
/// first lie at the even positions and the cards of the second at the odd
/// ones, and the cards are those of the two together.
pub proof fn lemma_interleaved(a: Seq<Card>, b: Seq<Card>)
    requires
        a.len() == b.len(),
    ensures
        interleaved(a, b).len() == 2 * a.len(),
        forall|i: int| 0 <= i < a.len() ==> interleaved(a, b)[2 * i] == #[trigger] a[i],
        forall|i: int| 0 <= i < b.len() ==> interleaved(a, b)[2 * i + 1] == #[trigger] b[i],
        interleaved(a, b).to_multiset() == a.to_multiset().add(b.to_multiset()),
    decreases a.len(),
{
    broadcast use vstd::multiset::group_multiset_axioms;

    if a.len() == 0 {
        assert(interleaved(a, b) =~= a);
        assert(b =~= a);
        vstd::seq_lib::lemma_multiset_commutative(a, b);
        assert(a + b =~= a);
    } else {
        let head = seq![a[0], b[0]];
        let rest = interleaved(a.drop_first(), b.drop_first());
        lemma_interleaved(a.drop_first(), b.drop_first());
        assert forall|i: int| 0 <= i < a.len() implies interleaved(a, b)[2 * i] == #[trigger] a[i] by {
            if i > 0 {
                assert(rest[2 * (i - 1)] == a.drop_first()[i - 1]);
            }
        }
        assert forall|i: int| 0 <= i < b.len() implies interleaved(a, b)[2 * i + 1]
            == #[trigger] b[i] by {
            if i > 0 {
                assert(rest[2 * (i - 1) + 1] == b.drop_first()[i - 1]);
            }
        }
        let first = seq![a[0]];
        let second = seq![b[0]];
        assert(a =~= first + a.drop_first());
        assert(b =~= second + b.drop_first());
        assert(head =~= first + second);
        vstd::seq_lib::lemma_multiset_commutative(head, rest);
        vstd::seq_lib::lemma_multiset_commutative(first, a.drop_first());
        vstd::seq_lib::lemma_multiset_commutative(second, b.drop_first());
        vstd::seq_lib::lemma_multiset_commutative(first, second);
        assert(interleaved(a, b).to_multiset() == head.to_multiset().add(rest.to_multiset()));
        assert(head.to_multiset() == first.to_multiset().add(second.to_multiset()));
        assert(a.to_multiset() == first.to_multiset().add(a.drop_first().to_multiset()));
        assert(b.to_multiset() == second.to_multiset().add(b.drop_first().to_multiset()));
        assert(rest.to_multiset() == a.drop_first().to_multiset().add(
            b.drop_first().to_multiset(),
        ));
        assert(interleaved(a, b).to_multiset() =~= a.to_multiset().add(b.to_multiset()));
    }
}

/// A riffled sequence holds the cards that it held before, each as often as
/// before.
pub proof fn lemma_riffled_keeps_cards(s: Seq<Card>)
    ensures
        riffled(s).len() == s.len(),
        riffled(s).to_multiset() == s.to_multiset(),
{
    broadcast use vstd::multiset::group_multiset_axioms;

    let mid = s.len() as int / 2;
    let upper = s.subrange(0, mid);
    let lower = s.subrange(mid, 2 * mid);
    let last = s.subrange(2 * mid, s.len() as int);
    lemma_interleaved(lower, upper);
    let mixed = interleaved(lower, upper);
    assert(riffled(s) =~= mixed + last) by {
        assert forall|i: int| 0 <= i < 2 * mid implies riffled(s)[i] == mixed[i] by {
            if i % 2 == 0 {
                assert(mixed[2 * (i / 2)] == lower[i / 2]);
            } else {
                assert(mixed[2 * (i / 2) + 1] == upper[i / 2]);
            }
        }
    }
    assert(s =~= (upper + lower) + last);
    vstd::seq_lib::lemma_multiset_commutative(mixed, last);
    vstd::seq_lib::lemma_multiset_commutative(upper + lower, last);
    vstd::seq_lib::lemma_multiset_commutative(upper, lower);
    assert(riffled(s).to_multiset() =~= s.to_multiset());
}

/// The largest chunk that an overhand shuffle may take from `remaining`
/// cards: half of them, and at least one.
pub open spec fn largest_chunk(remaining: int) -> int {
    if remaining / 2 >= 1 {
        remaining / 2
    } else {
        1
    }
}

/// Whether `sizes` are chunk sizes that an overhand shuffle may draw for a
/// deck of `remaining` cards: each between one and the largest chunk for what
/// was left, and all together the whole deck.
pub open spec fn chunks_fit(remaining: int, sizes: Seq<int>) -> bool
    decreases sizes.len(),
{
    if sizes.len() == 0 {
        remaining == 0
    } else {
        1 <= sizes[0] <= largest_chunk(remaining) && sizes[0] <= remaining && chunks_fit(
            remaining - sizes[0],
            sizes.drop_first(),
        )
    }
}

/// The pile that an overhand shuffle builds from `rest` on top of `pile` with
/// the chunk sizes `sizes`: each chunk leaves the top of `rest` and goes, in
/// its order, on top of the pile.
pub open spec fn overhand_piled(rest: Seq<Card>, pile: Seq<Card>, sizes: Seq<int>) -> Seq<Card>
    decreases sizes.len(),
{
    if sizes.len() == 0 {
        pile
    } else {
        overhand_piled(
            rest.subrange(sizes[0], rest.len() as int),
            rest.subrange(0, sizes[0]) + pile,
            sizes.drop_first(),
        )
    }
}

/// Whether `after` is a deck that one overhand shuffle can make of `before`.
pub open spec fn overhand_outcome(before: Seq<Card>, after: Seq<Card>) -> bool {
    exists|sizes: Seq<int>|
        chunks_fit(before.len() as int, sizes) && after == #[trigger] overhand_piled(
            before,
            Seq::<Card>::empty(),
            sizes,
        )
}

/// Whether `after` is a deck that `times` overhand shuffles, one after the
/// other, can make of `before`.
pub open spec fn overhand_outcome_times(before: Seq<Card>, after: Seq<Card>, times: nat) -> bool
    decreases times,
{
    if times == 0 {
        after == before
    } else {
        exists|between: Seq<Card>|
            overhand_outcome_times(before, between, (times - 1) as nat) && #[trigger]
                overhand_outcome(between, after)
    }
}

/// An overhand pile holds the cards of the rest and of the pile it started
/// from, each as often as the two held it together.
pub proof fn lemma_overhand_piled_keeps_cards(rest: Seq<Card>, pile: Seq<Card>, sizes: Seq<int>)
    requires
        chunks_fit(rest.len() as int, sizes),
    ensures
        overhand_piled(rest, pile, sizes).to_multiset() == rest.to_multiset().add(
            pile.to_multiset(),
        ),
    decreases sizes.len(),
{
    broadcast use vstd::seq_lib::group_to_multiset_ensures;

    if sizes.len() == 0 {
        assert(rest =~= Seq::<Card>::empty());
        assert(rest.to_multiset().add(pile.to_multiset()) =~= pile.to_multiset());
    } else {
        let chunk = rest.subrange(0, sizes[0]);
        let left = rest.subrange(sizes[0], rest.len() as int);
        lemma_overhand_piled_keeps_cards(left, chunk + pile, sizes.drop_first());
        assert(rest =~= chunk + left);
        vstd::seq_lib::lemma_multiset_commutative(chunk, left);
        vstd::seq_lib::lemma_multiset_commutative(chunk, pile);
        assert(left.to_multiset().add((chunk + pile).to_multiset()) =~= rest.to_multiset().add(
            pile.to_multiset(),
        ));
    }
}

/// A deck of at most three cards leaves an overhand shuffle upside down:
/// every chunk is then a single card.
pub proof fn lemma_overhand_piled_small(rest: Seq<Card>, pile: Seq<Card>, sizes: Seq<int>)
    requires
        chunks_fit(rest.len() as int, sizes),
        rest.len() <= 3,
    ensures
        overhand_piled(rest, pile, sizes) == rest.reverse() + pile,
    decreases sizes.len(),
{
    if sizes.len() == 0 {
        assert(rest.reverse() + pile =~= pile);
    } else {
        let chunk = rest.subrange(0, sizes[0]);
        let left = rest.subrange(sizes[0], rest.len() as int);
        lemma_overhand_piled_small(left, chunk + pile, sizes.drop_first());
        assert(left.reverse() + (chunk + pile) =~= rest.reverse() + pile);
    }
}

/// Two sequences of at most one card that hold the same cards are the same
/// sequence.
pub proof fn lemma_small_permutation(a: Seq<Card>, b: Seq<Card>)
    requires
        a.to_multiset() == b.to_multiset(),
        a.len() <= 1,
    ensures
        a == b,
{
    broadcast use vstd::seq_lib::group_to_multiset_ensures;

    a.to_multiset_ensures();
    b.to_multiset_ensures();
    assert(a.len() == b.len());
    if a.len() == 1 {
        assert(a.contains(a[0]));
        assert(a.to_multiset().count(a[0]) > 0);
        assert(b.to_multiset().count(a[0]) > 0);
        assert(b.contains(a[0]));
        assert(b[0] == a[0]);
    }
    assert(a =~= b);
}

/// The random number generator of the current thread, as `rand` hands it
/// out. Nothing of its state is visible here.
#[verifier::external_type_specification]
#[verifier::external_body]
pub struct ExThreadRng(rand::rngs::ThreadRng);

/// `rand::thread_rng` hands out the generator of the current thread. Nothing
/// is claimed of it.
#[verifier::external_body]
fn thread_generator() -> (generator: rand::rngs::ThreadRng) {
    rand::thread_rng()
}

/// `rand::seq::SliceRandom::shuffle` shuffles the slice in place by swapping
/// pairs of its items: the items stay the same, each as often as before.
/// Which order comes out depends on the generator.
#[verifier::external_body]
fn shuffle_in_place(cards: &mut Vec<Card>, generator: &mut rand::rngs::ThreadRng)
    ensures
        final(cards)@.to_multiset() == old(cards)@.to_multiset(),
{
    cards.shuffle(generator);
}

/// `rand::Rng::gen_range` on an inclusive range returns a number of that
/// range. It panics on an empty range, which `requires` leaves out.
#[verifier::external_body]
fn random_between(generator: &mut rand::rngs::ThreadRng, low: usize, high: usize) -> (n: usize)
    requires
        low <= high,
    ensures
        low <= n <= high,
{
    generator.gen_range(low..=high)
}

impl Deck {
    /// Shuffles the deck at random. The deck holds the same cards
    /// afterwards, each as often as before.
    pub fn shuffle(&mut self)
        ensures
            final(self)@.to_multiset() == old(self)@.to_multiset(),
            final(self)@.len() == old(self)@.len(),
            old(self)@.len() <= 1 ==> final(self)@ == old(self)@,
    {
        let mut cards = self.to_vec();
        let mut generator = thread_generator();
        shuffle_in_place(&mut cards, &mut generator);
        proof {
            old(self)@.to_multiset_ensures();
            cards@.to_multiset_ensures();
            if old(self)@.len() <= 1 {
                lemma_small_permutation(old(self)@, cards@);
            }
        }
        *self = Deck::from_vec(cards);
    }

    /// Shuffles the deck at random `times` times.
    pub fn shuffle_times(&mut self, times: usize)
        ensures
            final(self)@.to_multiset() == old(self)@.to_multiset(),
            final(self)@.len() == old(self)@.len(),
            times == 0 || old(self)@.len() <= 1 ==> final(self)@ == old(self)@,
    {
        let mut done: usize = 0;
        while done < times
            invariant
                done <= times,
                self@.to_multiset() == old(self)@.to_multiset(),
                self@.len() == old(self)@.len(),
                done == 0 || old(self)@.len() <= 1 ==> self@ == old(self)@,
            decreases times - done,
        {
            self.shuffle();
            done = done + 1;
        }
    }

    /// Riffles the deck: cuts it in two at half its length and interleaves
    /// the halves, a card of the lower half first. Nothing is random here.
    pub fn riffle_shuffle(&mut self)
        ensures
            final(self)@ == riffled(old(self)@),
            final(self)@.to_multiset() == old(self)@.to_multiset(),
            final(self)@.len() == old(self)@.len(),
    {
        let cards = self.to_vec();
        let n = cards.len();
        let mid = n / 2;
        let mut mixed: Vec<Card> = Vec::new();
        let mut i: usize = 0;
        while i < mid
            invariant
                i <= mid,
                mid == n / 2,
                n == cards@.len(),
                cards@ == old(self)@,
                mixed@ == riffled(cards@).subrange(0, 2 * i),
            decreases mid - i,
        {
            mixed.push(cards[mid + i]);
            mixed.push(cards[i]);
            proof {
                assert(mixed@ =~= riffled(cards@).subrange(0, 2 * i + 2));
            }
            i = i + 1;
        }
        if 2 * mid < n {
            mixed.push(cards[n - 1]);
        }
        proof {
            assert(mixed@ =~= riffled(cards@));
            lemma_riffled_keeps_cards(cards@);
        }
        *self = Deck::from_vec(mixed);
    }

    /// Riffles the deck `times` times.
    pub fn riffle_shuffle_times(&mut self, times: usize)
        ensures
            final(self)@ == riffled_times(old(self)@, times as nat),
            final(self)@.to_multiset() == old(self)@.to_multiset(),
            final(self)@.len() == old(self)@.len(),
    {
        let mut done: usize = 0;
        while done < times
            invariant
                done <= times,
                self@.to_multiset() == old(self)@.to_multiset(),
                self@.len() == old(self)@.len(),
                riffled_times(self@, (times - done) as nat) == riffled_times(
                    old(self)@,
                    times as nat,
                ),
            decreases times - done,
        {
            self.riffle_shuffle();
            done = done + 1;
        }
    }

    /// One move of an overhand shuffle: the top `size` cards of this deck go,
    /// in their order, on top of `pile`. Where the deck holds fewer cards both
    /// decks stay as they are and the result is `false`.
    pub fn overhand_move(&mut self, pile: &mut Deck, size: usize) -> (done: bool)
        ensures
            done == (size <= old(self)@.len()),
            done ==> final(self)@ == old(self)@.subrange(size as int, old(self)@.len() as int)
                && final(pile)@ == old(self)@.subrange(0, size as int) + old(pile)@,
            !done ==> final(self)@ == old(self)@ && final(pile)@ == old(pile)@,
    {
        match self.deal_n(size) {
            Some(chunk) => {
                pile.add_cards(chunk);
                true
            },
            None => false,
        }
    }

    /// Shuffles the deck overhand: chunks of random size leave the top of the
    /// deck, one after the other, each going on top of a new pile, which
    /// becomes the deck. A chunk is at least one card and at most half of what
    /// is left, a single last card going alone.
    pub fn overhand_shuffle(&mut self)
        ensures
            overhand_outcome(old(self)@, final(self)@),
            final(self)@.to_multiset() == old(self)@.to_multiset(),
            final(self)@.len() == old(self)@.len(),
            old(self)@.len() <= 3 ==> final(self)@ == old(self)@.reverse(),
    {
        let mut generator = thread_generator();
        let mut pile = Deck::from_vec(Vec::new());
        let ghost mut sizes: Seq<int> = Seq::empty();
        let ghost start = self@;
        while self.len() > 0
            invariant
                forall|more: Seq<int>| #[trigger]
                    chunks_fit(self@.len() as int, more) ==> chunks_fit(
                        start.len() as int,
                        sizes + more,
                    ) && overhand_piled(start, Seq::<Card>::empty(), sizes + more)
                        == overhand_piled(self@, pile@, more),
            decreases self@.len(),
        {
            let left = self.len();
            let most = if left / 2 >= 1 {
                left / 2
            } else {
                1
            };
            let size = random_between(&mut generator, 1, most);
            let ghost rest_before = self@;
            let ghost pile_before = pile@;
            let ghost sizes_before = sizes;
            self.overhand_move(&mut pile, size);
            proof {
                sizes = sizes.push(size as int);
                assert forall|more: Seq<int>| #[trigger]
                    chunks_fit(self@.len() as int, more) implies chunks_fit(
                    start.len() as int,
                    sizes + more,
                ) && overhand_piled(start, Seq::<Card>::empty(), sizes + more) == overhand_piled(
                    self@,
                    pile@,
                    more,
                ) by {
                    let step = seq![size as int] + more;
                    assert(step.drop_first() =~= more);
                    assert(chunks_fit(rest_before.len() as int, step));
                    assert(sizes_before + step =~= sizes + more);
                    assert(overhand_piled(rest_before, pile_before, step) == overhand_piled(
                        self@,
                        pile@,
                        more,
                    ));
                }
            }
        }
        proof {
            let none = Seq::<int>::empty();
            assert(chunks_fit(self@.len() as int, none));
            assert(sizes + none =~= sizes);
            assert(chunks_fit(start.len() as int, sizes));
            assert(overhand_piled(start, Seq::<Card>::empty(), sizes) == pile@);
            lemma_overhand_piled_keeps_cards(start, Seq::<Card>::empty(), sizes);
            assert(start.to_multiset().add(Seq::<Card>::empty().to_multiset()) =~= start.to_multiset())
                by {
                broadcast use vstd::seq_lib::group_to_multiset_ensures;

            }
            start.to_multiset_ensures();
            pile@.to_multiset_ensures();
            if start.len() <= 3 {
                lemma_overhand_piled_small(start, Seq::<Card>::empty(), sizes);
                assert(start.reverse() + Seq::<Card>::empty() =~= start.reverse());
            }
        }
        *self = pile;
    }

    /// Shuffles the deck overhand `times` times.
    pub fn overhand_shuffle_times(&mut self, times: usize)
        ensures
            overhand_outcome_times(old(self)@, final(self)@, times as nat),
            final(self)@.to_multiset() == old(self)@.to_multiset(),
            final(self)@.len() == old(self)@.len(),
    {
        let mut done: usize = 0;
        while done < times
            invariant
                done <= times,
                overhand_outcome_times(old(self)@, self@, done as nat),
                self@.to_multiset() == old(self)@.to_multiset(),
                self@.len() == old(self)@.len(),
            decreases times - done,
        {
            let ghost between = self@;
            self.overhand_shuffle();
            proof {
                assert(overhand_outcome_times(old(self)@, between, (done + 1 - 1) as nat));
                assert(overhand_outcome(between, self@));
            }
            done = done + 1;
        }
    }
}

} // verus!
