//! Laws of the dense integer code of a card.

use crate::objects::card::Card;
use crate::objects::card_codes::InvalidIndex;
use crate::objects::deck_codes::{all_codes, cards_of, codes_of};
use vstd::prelude::*;

verus! {

/// The dense code of a card lies between 0 and 55, and decoding it gives the
/// card back.
pub proof fn lemma_decode_encode(card: Card)
    ensures
        0 <= card.spec_index() < 56,
        Card::decoded(card.spec_index()) == Ok::<Card, InvalidIndex>(card),
{
}

/// Decoding an integer between 0 and 55 gives a card whose dense code is
/// that integer.
pub proof fn lemma_encode_decode(index: int)
    requires
        0 <= index < 56,
    ensures
        Card::decoded(index) is Ok,
        Card::decoded(index)->Ok_0.spec_index() == index,
{
}

/// The dense codes of a sequence of cards are all dense codes, and they
/// stand for the cards.
pub proof fn lemma_codes_round_trip(cards: Seq<Card>)
    ensures
        all_codes(codes_of(cards)),
        cards_of(codes_of(cards)) == cards,
{
    assert forall|i: int| 0 <= i < cards.len() implies Card::of_index(
        #[trigger] codes_of(cards)[i] as int,
    ) == cards[i] by {
        lemma_decode_encode(cards[i]);
    }
    assert(cards_of(codes_of(cards)) =~= cards);
}

/// Converting an integer between 0 and 55 to a card and the card back to
/// an integer gives the integer.
pub proof fn lemma_usize_round_trip(index: usize)
    requires
        index < 56,
    ensures
        <Card as vstd::std_specs::convert::TryFromSpec<usize>>::try_from_spec(index) is Ok,
        <usize as vstd::std_specs::convert::FromSpec<Card>>::from_spec(
            <Card as vstd::std_specs::convert::TryFromSpec<usize>>::try_from_spec(index)->Ok_0,
        ) == index,
{
}

} // verus!
