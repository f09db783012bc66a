use crusty_cards::utils::text::{decimal_of, is_whitespace, to_upper};
use crusty_cards::{Card, Deck, InvalidIndex, Rank, Standard52, Standard54, Suit};
use std::collections::VecDeque;

fn all_cards() -> Vec<Card> {
    let mut cards = Vec::new();
    for suit in Suit::ALL {
        for rank in Rank::ALL {
            cards.push(Card::new(suit, rank));
        }
    }
    cards
}

#[test]
fn dense_code_round_trip_over_the_whole_domain() {
    for i in 0..56usize {
        let card = Card::try_from(i).unwrap();
        assert_eq!(usize::from(card), i);
        assert_eq!(card.index() as usize, i);
        assert_eq!(Card::at_index(i as u8), card);
    }
    for card in all_cards() {
        let code = u8::from(card);
        assert!(code < 56);
        assert_eq!(Card::try_from(code), Ok(card));
    }
}

#[test]
fn dense_code_is_fourteen_times_suit_plus_rank() {
    assert_eq!(u8::from(Card::new(Suit::Clubs, Rank::Seven)), 2 * 14 + 5);
    assert_eq!(Card::try_from(33u8), Ok(Card::new(Suit::Clubs, Rank::Seven)));
    assert_eq!(Card::try_from(55i64), Ok(Card::new(Suit::Spades, Rank::Joker)));
}

#[test]
fn integers_outside_the_domain_are_refused() {
    assert_eq!(Card::try_from(56usize), Err(InvalidIndex));
    assert_eq!(Card::try_from(255u8), Err(InvalidIndex));
    assert_eq!(Card::try_from(-1i8), Err(InvalidIndex));
    assert_eq!(Card::try_from(-1isize), Err(InvalidIndex));
    assert_eq!(Card::try_from(i64::MIN), Err(InvalidIndex));
    assert_eq!(Card::try_from(u64::MAX), Err(InvalidIndex));
}

#[test]
fn deck_from_codes_is_all_or_nothing() {
    let deck = Deck::try_from(vec![0usize, 12, 25]).unwrap();
    assert_eq!(
        deck.to_vec(),
        vec![
            Card::new(Suit::Hearts, Rank::Two),
            Card::new(Suit::Hearts, Rank::Ace),
            Card::new(Suit::Diamonds, Rank::King),
        ]
    );
    assert_eq!(Deck::try_from(vec![0usize, 56, 1]), Err(InvalidIndex));
    assert_eq!(Deck::from_indices(&vec![55, 56]), Err(InvalidIndex));
    assert_eq!(Deck::from_indices(&Vec::new()).unwrap().len(), 0);
    assert_eq!(deck.to_indices(), vec![0, 12, 25]);
}

#[test]
fn card_text_round_trip_for_every_card() {
    for card in all_cards() {
        assert_eq!(Card::from_str(&card.to_string()), Ok(card));
        assert_eq!(card.display(), card.to_string());
    }
}

#[test]
fn card_text_in_either_order_and_any_case() {
    let ace = Card::new(Suit::Spades, Rank::Ace);
    assert_eq!(Card::from_str("A♠"), Ok(ace));
    assert_eq!(Card::from_str("♠A"), Ok(ace));
    assert_eq!(Card::from_str("AceSpades"), Ok(ace));
    assert_eq!(Card::from_str("SpadesA"), Ok(ace));
    assert_eq!(Card::from_str("as"), Ok(ace));
    assert_eq!(Card::from_str("sa"), Ok(ace));
    assert_eq!(Card::from_str("10h"), Ok(Card::new(Suit::Hearts, Rank::Ten)));
    assert_eq!(Card::from_str("H10"), Ok(Card::new(Suit::Hearts, Rank::Ten)));
    assert_eq!(Card::from_str("tens"), Ok(Card::new(Suit::Spades, Rank::Ten)));
    assert_eq!(Card::from_str("jokerD"), Ok(Card::new(Suit::Diamonds, Rank::Joker)));
    assert_eq!("Q♦".parse::<Card>(), Ok(Card::new(Suit::Diamonds, Rank::Queen)));
}

#[test]
fn card_text_is_cut_at_the_leftmost_place_that_works() {
    // "SIXS" can only be cut after "SIX"; the cut after "S" leaves "IXS".
    assert_eq!(Card::from_str("SIXS"), Ok(Card::new(Suit::Spades, Rank::Six)));
    // Each cut is tried as suit and rank first, then as rank and suit.
    assert_eq!(
        Card::from_chars_at(&"CK".chars().collect(), 1),
        Some(Card::new(Suit::Clubs, Rank::King))
    );
    assert_eq!(
        Card::from_chars_at(&"KC".chars().collect(), 1),
        Some(Card::new(Suit::Clubs, Rank::King))
    );
    assert_eq!(Card::from_chars_at(&"KC".chars().collect(), 0), None);
    assert_eq!(Card::from_chars_at(&"KC".chars().collect(), 2), None);
}

#[test]
fn card_text_that_is_no_card_is_quoted() {
    assert_eq!(Card::from_str("A"), Err("Invalid card string: A".to_string()));
    assert_eq!(Card::from_str(""), Err("Invalid card string: ".to_string()));
    assert_eq!(Card::from_str("1♠"), Err("Invalid card string: 1♠".to_string()));
    assert_eq!(Card::from_str(" A♠"), Err("Invalid card string:  A♠".to_string()));
}

#[test]
fn rank_and_suit_errors_quote_the_text() {
    assert_eq!(Rank::from_str("1"), Err("Invalid rank string: 1".to_string()));
    assert_eq!(Rank::from_str(""), Err("Invalid rank string: ".to_string()));
    assert_eq!(Suit::from_str("hearts "), Err("Invalid suit string: hearts ".to_string()));
    assert_eq!("x".parse::<Suit>(), Err("Invalid suit string: x".to_string()));
    assert_eq!("ace".parse::<Rank>(), Ok(Rank::Ace));
}

#[test]
fn letters_outside_ascii_are_upper_cased_too() {
    // The long s has the capital S, and the ligature of f and i has "FI".
    assert_eq!(Suit::from_str("ſ"), Ok(Suit::Spades));
    assert_eq!(Suit::from_str("ſpades"), Ok(Suit::Spades));
    assert_eq!(Rank::from_str("ﬁve"), Ok(Rank::Five));
    assert_eq!(Card::from_str("ﬁveſ"), Ok(Card::new(Suit::Spades, Rank::Five)));
    let upper: Vec<char> = to_upper(&"straße".chars().collect());
    assert_eq!(upper, "STRASSE".chars().collect::<Vec<char>>());
    let ascii: Vec<char> = to_upper(&"two of ♠?".chars().filter(|c| c.is_ascii()).collect());
    assert_eq!(ascii, "TWO OF ?".chars().collect::<Vec<char>>());
}

#[test]
fn white_space_is_what_the_standard_library_calls_so() {
    for code in 0..=0x10FFFFu32 {
        if let Some(c) = char::from_u32(code) {
            assert_eq!(is_whitespace(c), c.is_whitespace(), "U+{:04X}", code);
        }
    }
}

#[test]
fn decimal_forms() {
    let text = |n: u128| decimal_of(n).into_iter().collect::<String>();
    assert_eq!(text(0), "0");
    assert_eq!(text(9), "9");
    assert_eq!(text(10), "10");
    assert_eq!(text(1203), "1203");
    assert_eq!(text(u128::MAX), u128::MAX.to_string());
}

#[test]
fn delimited_text_round_trip_for_several_delimiters() {
    let deck = Deck::from_vec(all_cards());
    for delim in [' ', ',', ';', '|', '\n', '\t', '-', 'x', '1'] {
        let text = deck.to_str_delimiter(delim);
        assert_eq!(Deck::from_str_delimiter(&text, delim), Ok(deck.clone()));
    }
    let empty = Deck::default();
    assert_eq!(empty.to_str_delimiter(','), "");
    assert_eq!(Deck::from_str_delimiter("", ','), Ok(empty));
}

#[test]
fn delimited_text_has_the_delimiter_between_the_cards_only() {
    let deck = Deck::from_vec(vec![
        Card::new(Suit::Hearts, Rank::Ten),
        Card::new(Suit::Spades, Rank::Ace),
        Card::new(Suit::Clubs, Rank::Joker),
    ]);
    assert_eq!(deck.to_str_delimiter(','), "T♥,A♠,U♣");
    assert_eq!(deck.to_string(), "T♥ A♠ U♣");
    assert_eq!(deck.display(), vec!["T♥", "A♠", "U♣"]);
    assert_eq!(Deck::from_vec(vec![Card::new(Suit::Hearts, Rank::Ten)]).to_string(), "T♥");
}

#[test]
fn a_delimiter_that_is_a_symbol_of_a_card_breaks_the_round_trip() {
    let deck = Deck::from_vec(vec![
        Card::new(Suit::Hearts, Rank::Two),
        Card::new(Suit::Spades, Rank::Ace),
    ]);
    let text = deck.to_str_delimiter('A');
    assert_eq!(text, "2♥AA♠");
    assert_eq!(
        Deck::from_str_delimiter(&text, 'A'),
        Err("Invalid card string: ♠".to_string())
    );
    // The same delimiter is harmless for a deck without an ace.
    let plain = Deck::from_vec(vec![Card::new(Suit::Hearts, Rank::Two)]);
    assert_eq!(Deck::from_str_delimiter(&plain.to_str_delimiter('A'), 'A'), Ok(plain));
}

#[test]
fn delimited_text_trims_tokens_and_passes_over_empty_ones() {
    let deck = Deck::from_str_delimiter("  2d , ,3hearts,,\t4s\n,", ',').unwrap();
    assert_eq!(
        deck.to_vec(),
        vec![
            Card::new(Suit::Diamonds, Rank::Two),
            Card::new(Suit::Hearts, Rank::Three),
            Card::new(Suit::Spades, Rank::Four),
        ]
    );
    assert_eq!("2d 3h".parse::<Deck>().unwrap().len(), 2);
}

#[test]
fn delimited_text_reports_the_first_token_that_is_no_card() {
    assert_eq!(
        Deck::from_str_delimiter("2d, invalid_card ,4s,also bad", ','),
        Err("Invalid card string: invalid_card".to_string())
    );
    assert_eq!(Deck::from_str("2d 3x"), Err("Invalid card string: 3x".to_string()));
}

#[test]
fn csv_form_is_exact() {
    let deck = Deck::from_vec(vec![
        Card::new(Suit::Hearts, Rank::Ten),
        Card::new(Suit::Clubs, Rank::Joker),
    ]);
    assert_eq!(deck.as_csv(), "Rank,Suit\nT,♥\nU,♣\n");
    assert_eq!(Deck::default().as_csv(), "Rank,Suit\n");
    assert_eq!(Deck::from_csv("Rank,Suit\n"), Ok(Deck::default()));
    assert_eq!(Deck::from_csv(""), Ok(Deck::default()));
}

#[test]
fn csv_passes_over_the_header_and_blank_lines() {
    let deck = Deck::from_csv("anything at all\r\n\r\n ace , spades \r\n\n10,h").unwrap();
    assert_eq!(
        deck.to_vec(),
        vec![Card::new(Suit::Spades, Rank::Ace), Card::new(Suit::Hearts, Rank::Ten)]
    );
    // The first line is the header even where it looks like a row.
    assert_eq!(Deck::from_csv("A,♠\nK,♥\n").unwrap().to_vec(), vec![Card::new(
        Suit::Hearts,
        Rank::King
    )]);
}

#[test]
fn csv_reports_the_number_of_the_first_bad_line() {
    assert_eq!(
        Deck::from_csv("Rank,Suit\nA,♥\nbad\nK\n"),
        Err("Invalid CSV row at line 3".to_string())
    );
    assert_eq!(
        Deck::from_csv("Rank,Suit\n\n\nA,♥,x\n"),
        Err("Invalid CSV row at line 4".to_string())
    );
    assert_eq!(Deck::from_csv("Rank,Suit\n♥,A"), Err("Invalid CSV row at line 2".to_string()));
    let mut text = String::from("Rank,Suit\n");
    for _ in 0..10 {
        text.push_str("2,♣\n");
    }
    text.push_str("2;♣\n");
    assert_eq!(Deck::from_csv(&text), Err("Invalid CSV row at line 12".to_string()));
}

#[test]
fn csv_round_trip_of_the_standard_decks() {
    for deck in [Deck::from_factory(Standard52), Deck::from_factory(Standard54), Deck::default()] {
        assert_eq!(Deck::from_csv(&deck.as_csv()), Ok(deck));
    }
}

#[test]
fn standard_52_is_thirteen_ranks_of_four_suits_without_jokers() {
    let deck = Deck::from_factory(Standard52);
    let cards = deck.to_vec();
    assert_eq!(cards.len(), 52);
    for (i, card) in cards.iter().enumerate() {
        assert_eq!(card.rank(), Rank::STANDARD[i / 4]);
        assert_eq!(card.suit(), Suit::ALL[i % 4]);
        assert!(!card.is_joker());
        assert_eq!(deck.count(card), 1);
    }
    assert_eq!(cards[0], Card::new(Suit::Hearts, Rank::Two));
    assert_eq!(cards[51], Card::new(Suit::Spades, Rank::Ace));
}

#[test]
fn standard_54_ends_with_its_two_jokers() {
    let cards = Deck::from_factory(Standard54).to_vec();
    assert_eq!(cards.len(), 54);
    assert_eq!(cards[..52], Deck::from_factory(Standard52).to_vec()[..]);
    assert_eq!(cards[52], Card::new(Suit::Hearts, Rank::Joker));
    assert_eq!(cards[53], Card::new(Suit::Spades, Rank::Joker));
    assert_eq!(cards.iter().filter(|card| card.is_joker()).count(), 2);
    let deque: VecDeque<Card> = cards.into_iter().collect();
    assert_eq!(Deck::new(deque), Deck::from_factory(Standard54));
}

#[test]
fn card_drawn_in_five_lines() {
    let card = Card::new(Suit::Clubs, Rank::Ten);
    assert_eq!(card.display_ascii(), "┌─────┐\n│T   │\n│  ♣  │\n│   T│\n└─────┘");
}
