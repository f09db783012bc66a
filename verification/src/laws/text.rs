//! Laws of the text forms: what is written can be read back.

use crate::objects::card::Card;
use crate::objects::deck_text::{
    csv_header, csv_rows, joined, joined_rest, parsed_cards, parsed_row, parsed_rows,
};
use crate::objects::rank::Rank;
use crate::objects::suit::Suit;
use crate::utils::text::{
    ascii_upper, is_space, leading_spaces, piece_len, trailing_spaces, trimmed, upper_form,
};
use vstd::prelude::*;

verus! {

/// The symbol of a rank stands for that rank and for no suit.
pub proof fn lemma_rank_symbol_parses(rank: Rank)
    ensures
        Rank::parsed(rank.spec_symbol()) == Some(rank),
        Suit::parsed(rank.spec_symbol()) == None::<Suit>,
{
    let text = rank.spec_symbol();
    assert(vstd::utf8::is_ascii_chars(text));
    assert(ascii_upper(text) =~= text);
    assert(upper_form(text) == text);
    reveal_strlit("2");
    reveal_strlit("3");
    reveal_strlit("4");
    reveal_strlit("5");
    reveal_strlit("6");
    reveal_strlit("7");
    reveal_strlit("8");
    reveal_strlit("9");
    reveal_strlit("T");
    reveal_strlit("J");
    reveal_strlit("Q");
    reveal_strlit("K");
    reveal_strlit("A");
    reveal_strlit("U");
    reveal_strlit("10");
    reveal_strlit("TWO");
    reveal_strlit("THREE");
    reveal_strlit("FOUR");
    reveal_strlit("FIVE");
    reveal_strlit("SIX");
    reveal_strlit("SEVEN");
    reveal_strlit("EIGHT");
    reveal_strlit("NINE");
    reveal_strlit("TEN");
    reveal_strlit("JACK");
    reveal_strlit("QUEEN");
    reveal_strlit("KING");
    reveal_strlit("ACE");
    reveal_strlit("JOKER");
    reveal_strlit("HEARTS");
    reveal_strlit("DIAMONDS");
    reveal_strlit("CLUBS");
    reveal_strlit("SPADES");
    reveal_strlit("H");
    reveal_strlit("D");
    reveal_strlit("C");
    reveal_strlit("S");
    reveal_strlit("♥");
    reveal_strlit("♦");
    reveal_strlit("♣");
    reveal_strlit("♠");
    assert(text.len() == 1 && text[0] == rank.symbol_char());
    assert("2"@.len() == 1 && "2"@[0] == '2');
    assert("3"@.len() == 1 && "3"@[0] == '3');
    assert("4"@.len() == 1 && "4"@[0] == '4');
    assert("5"@.len() == 1 && "5"@[0] == '5');
    assert("6"@.len() == 1 && "6"@[0] == '6');
    assert("7"@.len() == 1 && "7"@[0] == '7');
    assert("8"@.len() == 1 && "8"@[0] == '8');
    assert("9"@.len() == 1 && "9"@[0] == '9');
    assert("T"@.len() == 1 && "T"@[0] == 'T');
    assert("J"@.len() == 1 && "J"@[0] == 'J');
    assert("Q"@.len() == 1 && "Q"@[0] == 'Q');
    assert("K"@.len() == 1 && "K"@[0] == 'K');
    assert("A"@.len() == 1 && "A"@[0] == 'A');
    assert("U"@.len() == 1 && "U"@[0] == 'U');
    assert("H"@.len() == 1 && "H"@[0] == 'H');
    assert("D"@.len() == 1 && "D"@[0] == 'D');
    assert("C"@.len() == 1 && "C"@[0] == 'C');
    assert("S"@.len() == 1 && "S"@[0] == 'S');
    assert("♥"@.len() == 1 && "♥"@[0] == '♥');
    assert("♦"@.len() == 1 && "♦"@[0] == '♦');
    assert("♣"@.len() == 1 && "♣"@[0] == '♣');
    assert("♠"@.len() == 1 && "♠"@[0] == '♠');
    assert("10"@.len() == 2);
    assert("TWO"@.len() == 3);
    assert("THREE"@.len() == 5);
    assert("FOUR"@.len() == 4);
    assert("FIVE"@.len() == 4);
    assert("SIX"@.len() == 3);
    assert("SEVEN"@.len() == 5);
    assert("EIGHT"@.len() == 5);
    assert("NINE"@.len() == 4);
    assert("TEN"@.len() == 3);
    assert("JACK"@.len() == 4);
    assert("QUEEN"@.len() == 5);
    assert("KING"@.len() == 4);
    assert("ACE"@.len() == 3);
    assert("JOKER"@.len() == 5);
    assert("HEARTS"@.len() == 6);
    assert("DIAMONDS"@.len() == 8);
    assert("CLUBS"@.len() == 5);
    assert("SPADES"@.len() == 6);
    match rank {
        Rank::Two => assert(text =~= "2"@),
        Rank::Three => assert(text =~= "3"@),
        Rank::Four => assert(text =~= "4"@),
        Rank::Five => assert(text =~= "5"@),
        Rank::Six => assert(text =~= "6"@),
        Rank::Seven => assert(text =~= "7"@),
        Rank::Eight => assert(text =~= "8"@),
        Rank::Nine => assert(text =~= "9"@),
        Rank::Ten => assert(text =~= "T"@),
        Rank::Jack => assert(text =~= "J"@),
        Rank::Queen => assert(text =~= "Q"@),
        Rank::King => assert(text =~= "K"@),
        Rank::Ace => assert(text =~= "A"@),
        Rank::Joker => assert(text =~= "U"@),
    }
}

/// The symbol of a suit stands for that suit.
pub proof fn lemma_suit_symbol_parses(suit: Suit)
    ensures
        Suit::parsed(suit.spec_symbol()) == Some(suit),
{
    let text = suit.spec_symbol();
    reveal_strlit("HEARTS");
    reveal_strlit("DIAMONDS");
    reveal_strlit("CLUBS");
    reveal_strlit("SPADES");
    reveal_strlit("H");
    reveal_strlit("D");
    reveal_strlit("C");
    reveal_strlit("S");
    reveal_strlit("♥");
    reveal_strlit("♦");
    reveal_strlit("♣");
    reveal_strlit("♠");
    assert(text.len() == 1 && text[0] == suit.symbol_char());
    assert("H"@.len() == 1 && "H"@[0] == 'H');
    assert("D"@.len() == 1 && "D"@[0] == 'D');
    assert("C"@.len() == 1 && "C"@[0] == 'C');
    assert("S"@.len() == 1 && "S"@[0] == 'S');
    assert("♥"@.len() == 1 && "♥"@[0] == '♥');
    assert("♦"@.len() == 1 && "♦"@[0] == '♦');
    assert("♣"@.len() == 1 && "♣"@[0] == '♣');
    assert("♠"@.len() == 1 && "♠"@[0] == '♠');
    assert("HEARTS"@.len() == 6);
    assert("DIAMONDS"@.len() == 8);
    assert("CLUBS"@.len() == 5);
    assert("SPADES"@.len() == 6);
    match suit {
        Suit::Hearts => assert(text =~= "♥"@),
        Suit::Diamonds => assert(text =~= "♦"@),
        Suit::Clubs => assert(text =~= "♣"@),
        Suit::Spades => assert(text =~= "♠"@),
    }
}

/// The display form of a card stands for that card.
pub proof fn lemma_card_text_parses(card: Card)
    ensures
        Card::parsed(card.spec_text()) == Some(card),
{
    let text = card.spec_text();
    lemma_rank_symbol_parses(card.rank);
    lemma_suit_symbol_parses(card.suit);
    assert(text.subrange(0, 1) =~= card.rank.spec_symbol());
    assert(text.subrange(1, 2) =~= card.suit.spec_symbol());
    assert(Card::parsed_at(text, 1) == Some(card));
    assert(Card::parsed_from(text, 1) == Some(card));
}

/// A text that neither starts nor ends with white space is its own trimmed
/// form.
pub proof fn lemma_trimmed_plain(s: Seq<char>)
    requires
        s.len() > 0,
        !is_space(s[0]),
        !is_space(s.last()),
    ensures
        trimmed(s) == s,
{
    assert(leading_spaces(s) == 0);
    let rest = s.subrange(0, s.len() as int);
    assert(rest =~= s);
    assert(trailing_spaces(rest) == 0);
    assert(rest.subrange(0, rest.len() as int) =~= s);
}

/// The piece that a text starts with is `head`, where `head` holds no
/// delimiter and what follows it is nothing or starts with one.
pub proof fn lemma_piece_is_head(head: Seq<char>, tail: Seq<char>, delim: char)
    requires
        forall|i: int| 0 <= i < head.len() ==> head[i] != delim,
        tail.len() == 0 || tail[0] == delim,
    ensures
        piece_len(head + tail, delim) == head.len(),
    decreases head.len(),
{
    let text = head + tail;
    if head.len() == 0 {
        assert(text =~= tail);
    } else {
        assert(text[0] == head[0]);
        assert(text.drop_first() =~= head.drop_first() + tail);
        assert forall|i: int| 0 <= i < head.drop_first().len() implies head.drop_first()[i]
            != delim by {
            assert(head.drop_first()[i] == head[i + 1]);
        }
        lemma_piece_is_head(head.drop_first(), tail, delim);
    }
}

/// No symbol of a rank or a suit is white space, a comma or a line break.
pub proof fn lemma_symbols_plain(card: Card)
    ensures
        !is_space(card.rank.symbol_char()),
        !is_space(card.suit.symbol_char()),
        card.rank.symbol_char() != ',',
        card.suit.symbol_char() != ',',
        card.rank.symbol_char() != '\n',
        card.suit.symbol_char() != '\n',
        card.rank.symbol_char() != card.suit.symbol_char(),
{
}

/// Whether a character is the rank symbol or the suit symbol of one of the
/// cards.
pub open spec fn occurs_in(cards: Seq<Card>, c: char) -> bool {
    exists|i: int|
        0 <= i < cards.len() && (c == (#[trigger] cards[i]).rank.symbol_char() || c
            == cards[i].suit.symbol_char())
}

/// Reading the delimited text of a sequence of cards gives the cards back,
/// whatever the delimiter, as long as it is no symbol of one of the cards.
pub proof fn lemma_text_round_trip(cards: Seq<Card>, delim: char)
    requires
        !occurs_in(cards, delim),
    ensures
        parsed_cards(joined(cards, delim), delim) == Ok::<Seq<Card>, Seq<char>>(cards),
    decreases cards.len(),
{
    let text = joined(cards, delim);
    if cards.len() == 0 {
        assert(trimmed(text.subrange(0, 0)) =~= Seq::<char>::empty()) by {
            assert(leading_spaces(text.subrange(0, 0)) == 0);
        }
        assert(cards =~= Seq::<Card>::empty());
        assert(piece_len(text, delim) == 0);
    } else {
        let card = cards[0];
        let rest = cards.drop_first();
        let token = card.spec_text();
        let tail = joined_rest(rest, delim);
        lemma_symbols_plain(card);
        assert(!occurs_in(rest, delim)) by {
            if occurs_in(rest, delim) {
                let i = choose|i: int|
                    0 <= i < rest.len() && (delim == (#[trigger] rest[i]).rank.symbol_char()
                        || delim == rest[i].suit.symbol_char());
                assert(cards[i + 1] == rest[i]);
            }
        }
        assert(delim != card.rank.symbol_char() && delim != card.suit.symbol_char()) by {
            assert(cards[0] == card);
        }
        lemma_piece_is_head(token, tail, delim);
        assert(text.subrange(0, 2) =~= token);
        lemma_trimmed_plain(token);
        lemma_card_text_parses(card);
        lemma_text_round_trip(rest, delim);
        assert(text =~= token + tail);
        assert(piece_len(text, delim) == 2);
        assert(trimmed(text.subrange(0, 2)) == token);
        assert(token.len() == 2);
        if rest.len() == 0 {
            assert(tail =~= Seq::<char>::empty());
            assert(text =~= token);
            assert(text.len() == 2);
            assert(seq![card] + Seq::<Card>::empty() =~= cards);
        } else {
            assert(tail.len() >= 3);
            assert(text.subrange(3, text.len() as int) =~= joined(rest, delim));
            assert(seq![card] + rest =~= cards);
        }
    }
}

/// Reading the delimited text of a sequence of cards fails where the
/// delimiter is a symbol of one of the cards: the card that holds it falls
/// into pieces that are no cards.
pub proof fn lemma_text_round_trip_fails(cards: Seq<Card>, delim: char)
    requires
        occurs_in(cards, delim),
    ensures
        parsed_cards(joined(cards, delim), delim) is Err,
    decreases cards.len(),
{
    let text = joined(cards, delim);
    let card = cards[0];
    let rest = cards.drop_first();
    let token = card.spec_text();
    let tail = joined_rest(rest, delim);
    lemma_symbols_plain(card);
    assert(text =~= token + tail);
    if delim == card.rank.symbol_char() {
        // The first piece is empty, and the second is the suit's symbol alone.
        assert(piece_len(text, delim) == 0);
        assert(trimmed(text.subrange(0, 0)) =~= Seq::<char>::empty()) by {
            assert(leading_spaces(text.subrange(0, 0)) == 0);
        }
        let after_first = text.subrange(1, text.len() as int);
        let suit_text = card.suit.spec_symbol();
        assert(after_first =~= suit_text + tail);
        lemma_piece_is_head(suit_text, tail, delim);
        assert(after_first.subrange(0, 1) =~= suit_text);
        lemma_trimmed_plain(suit_text);
        assert(Card::parsed(suit_text) is None);
        assert(parsed_cards(after_first, delim) is Err);
    } else if delim == card.suit.symbol_char() {
        // The first piece is the rank's symbol alone.
        let rank_text = card.rank.spec_symbol();
        let after_rank = card.suit.spec_symbol() + tail;
        assert(text =~= rank_text + after_rank);
        lemma_piece_is_head(rank_text, after_rank, delim);
        assert(text.subrange(0, 1) =~= rank_text);
        lemma_trimmed_plain(rank_text);
        assert(Card::parsed(rank_text) is None);
    } else {
        // The first card is read, and the delimiter strikes further on.
        assert(occurs_in(rest, delim)) by {
            let i = choose|i: int|
                0 <= i < cards.len() && (delim == (#[trigger] cards[i]).rank.symbol_char() || delim
                    == cards[i].suit.symbol_char());
            assert(i > 0);
            assert(rest[i - 1] == cards[i]);
        }
        lemma_piece_is_head(token, tail, delim);
        assert(text.subrange(0, 2) =~= token);
        lemma_trimmed_plain(token);
        lemma_card_text_parses(card);
        lemma_text_round_trip_fails(rest, delim);
        assert(tail.len() >= 3);
        assert(text.subrange(3, text.len() as int) =~= joined(rest, delim));
    }
}

/// Reading the CSV rows of a sequence of cards gives the cards back,
/// whatever the number of the first of these lines, as long as it is not
/// the header's.
pub proof fn lemma_csv_rows_round_trip(cards: Seq<Card>, number: nat)
    requires
        number >= 2,
    ensures
        parsed_rows(csv_rows(cards), number) == Ok::<Seq<Card>, nat>(cards),
    decreases cards.len(),
{
    let text = csv_rows(cards);
    if cards.len() == 0 {
        assert(trimmed(text.subrange(0, 0)) =~= Seq::<char>::empty()) by {
            assert(leading_spaces(text.subrange(0, 0)) == 0);
        }
        assert(cards =~= Seq::<Card>::empty());
        assert(piece_len(text, '\n') == 0);
    } else {
        let card = cards[0];
        let rest = cards.drop_first();
        let line = seq![card.rank.symbol_char(), ',', card.suit.symbol_char()];
        lemma_symbols_plain(card);
        lemma_rank_symbol_parses(card.rank);
        lemma_suit_symbol_parses(card.suit);
        assert(text =~= line + (seq!['\n'] + csv_rows(rest)));
        lemma_piece_is_head(line, seq!['\n'] + csv_rows(rest), '\n');
        assert(text.subrange(0, 3) =~= line);
        lemma_trimmed_plain(line);
        assert(text.subrange(4, text.len() as int) =~= csv_rows(rest));
        assert(parsed_row(line) == Some(card)) by {
            let rank_text = card.rank.spec_symbol();
            let suit_text = card.suit.spec_symbol();
            assert(line =~= rank_text + (seq![','] + suit_text));
            lemma_piece_is_head(rank_text, seq![','] + suit_text, ',');
            assert(line.subrange(0, 1) =~= rank_text);
            assert(line.subrange(2, 3) =~= suit_text);
            assert(suit_text =~= suit_text + Seq::<char>::empty());
            lemma_piece_is_head(suit_text, Seq::<char>::empty(), ',');
            lemma_trimmed_plain(rank_text);
            lemma_trimmed_plain(suit_text);
        }
        lemma_csv_rows_round_trip(rest, number + 1);
        assert(piece_len(text, '\n') == 3);
        assert(trimmed(text.subrange(0, 3)) == line);
        assert(line.len() == 3);
        assert(text.len() >= 4);
        assert(seq![card] + rest =~= cards);
    }
}

/// Reading the CSV form of a sequence of cards gives the cards back.
pub proof fn lemma_csv_round_trip(cards: Seq<Card>)
    ensures
        parsed_rows(csv_header() + csv_rows(cards), 1) == Ok::<Seq<Card>, nat>(cards),
{
    let text = csv_header() + csv_rows(cards);
    reveal_strlit("Rank,Suit\n");
    let head = csv_header().subrange(0, 9);
    let tail = seq!['\n'] + csv_rows(cards);
    assert(text =~= head + tail);
    lemma_piece_is_head(head, tail, '\n');
    assert(text.subrange(10, text.len() as int) =~= csv_rows(cards));
    lemma_csv_rows_round_trip(cards, 2);
}

} // verus!
