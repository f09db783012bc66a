//! The text forms of a deck: card tokens with a delimiter between them, and
//! CSV with a line for each card.

use crate::objects::card::Card;
use crate::objects::deck::Deck;
use crate::objects::rank::Rank;
use crate::objects::suit::Suit;
use crate::utils::text::{
    append_chars, chars_of, decimal, decimal_of, piece_end, piece_len, slice_of, string_of,
    trim_bounds, trimmed,
};
use vstd::prelude::*;

verus! {

/// The display forms of the cards, each with `delim` before it.
pub open spec fn joined_rest(cards: Seq<Card>, delim: char) -> Seq<char>
    decreases cards.len(),
{
    if cards.len() == 0 {
        Seq::<char>::empty()
    } else {
        seq![delim] + cards[0].spec_text() + joined_rest(cards.drop_first(), delim)
    }
}

/// The display forms of the cards with `delim` between them.
pub open spec fn joined(cards: Seq<Card>, delim: char) -> Seq<char> {
    if cards.len() == 0 {
        Seq::<char>::empty()
    } else {
        cards[0].spec_text() + joined_rest(cards.drop_first(), delim)
    }
}

/// The cards read so far followed by what the rest of a text gives.
pub open spec fn after<E>(cards: Seq<Card>, rest: Result<Seq<Card>, E>) -> Result<Seq<Card>, E> {
    match rest {
        Ok(more) => Ok(cards + more),
        Err(error) => Err(error),
    }
}

/// What a delimited text stands for: the cards of its tokens, or the first
/// token that stands for no card. The tokens are the pieces between the
/// delimiters, trimmed; empty tokens do not count.
pub open spec fn parsed_cards(text: Seq<char>, delim: char) -> Result<Seq<Card>, Seq<char>>
    decreases text.len(),
{
    let end = piece_len(text, delim);
    let token = trimmed(text.subrange(0, end));
    let rest = if 0 <= end < text.len() {
        parsed_cards(text.subrange(end + 1, text.len() as int), delim)
    } else {
        Ok(Seq::<Card>::empty())
    };
    if token.len() == 0 {
        rest
    } else if Card::parsed(token) is None {
        Err(token)
    } else {
        after(seq![Card::parsed(token)->Some_0], rest)
    }
}

/// The first line of a deck in CSV form.
pub open spec fn csv_header() -> Seq<char> {
    "Rank,Suit\n"@
}

/// The CSV rows of the cards: for each card a line of the rank's symbol, a
/// comma and the suit's symbol.
pub open spec fn csv_rows(cards: Seq<Card>) -> Seq<char>
    decreases cards.len(),
{
    if cards.len() == 0 {
        Seq::<char>::empty()
    } else {
        seq![cards[0].rank.symbol_char(), ',', cards[0].suit.symbol_char(), '\n'] + csv_rows(
            cards.drop_first(),
        )
    }
}

/// The card of a CSV row: a rank and a suit with one comma between them,
/// each trimmed.
pub open spec fn parsed_row(line: Seq<char>) -> Option<Card> {
    let comma = piece_len(line, ',');
    if !(0 <= comma < line.len()) {
        None
    } else {
        let rest = line.subrange(comma + 1, line.len() as int);
        let rank = Rank::parsed(trimmed(line.subrange(0, comma)));
        let suit = Suit::parsed(trimmed(rest));
        if piece_len(rest, ',') < rest.len() || rank is None || suit is None {
            None
        } else {
            Some(Card { suit: suit->Some_0, rank: rank->Some_0 })
        }
    }
}

/// What the lines of a CSV text from line `number` on stand for: the cards
/// of its rows, or the number of the first line that is no row. The first
/// line of a text is its header and is passed over, as are blank lines.
pub open spec fn parsed_rows(text: Seq<char>, number: nat) -> Result<Seq<Card>, nat>
    decreases text.len(),
{
    let end = piece_len(text, '\n');
    let line = trimmed(text.subrange(0, end));
    let rest = if 0 <= end < text.len() {
        parsed_rows(text.subrange(end + 1, text.len() as int), number + 1)
    } else {
        Ok(Seq::<Card>::empty())
    };
    if number == 1 || line.len() == 0 {
        rest
    } else if parsed_row(line) is None {
        Err(number)
    } else {
        after(seq![parsed_row(line)->Some_0], rest)
    }
}

/// The message for a CSV text whose line `number` is no row.
pub open spec fn csv_error(number: nat) -> Seq<char> {
    "Invalid CSV row at line "@ + decimal(number)
}

/// The card of the CSV row `chars[from..to]`, if it is one.
pub fn row_card(chars: &Vec<char>, from: usize, to: usize) -> (card: Option<Card>)
    requires
        from <= to <= chars@.len(),
    ensures
        card == parsed_row(chars@.subrange(from as int, to as int)),
{
    let ghost line = chars@.subrange(from as int, to as int);
    let comma = piece_end(chars, from, to, ',');
    if comma >= to {
        return None;
    }
    proof {
        assert(line.subrange(comma + 1 - from, line.len() as int) =~= chars@.subrange(
            comma + 1,
            to as int,
        ));
        assert(line.subrange(0, comma - from) =~= chars@.subrange(from as int, comma as int));
    }
    let second = piece_end(chars, comma + 1, to, ',');
    if second < to {
        return None;
    }
    let (rank_from, rank_to) = trim_bounds(chars, from, comma);
    let (suit_from, suit_to) = trim_bounds(chars, comma + 1, to);
    let rank = Rank::from_chars(&slice_of(chars, rank_from, rank_to));
    let suit = Suit::from_chars(&slice_of(chars, suit_from, suit_to));
    match (rank, suit) {
        (Some(rank), Some(suit)) => Some(Card { suit, rank }),
        _ => None,
    }
}

impl Deck {
    /// The display forms of the cards, top card first.
    pub fn display(&self) -> (texts: Vec<String>)
        ensures
            texts@.len() == self@.len(),
            forall|i: int| 0 <= i < self@.len() ==> (#[trigger] texts@[i])@ == self@[i].spec_text(),
    {
        let cards = self.to_vec();
        let mut texts: Vec<String> = Vec::new();
        let mut i: usize = 0;
        while i < cards.len()
            invariant
                i <= cards@.len(),
                cards@ == self@,
                texts@.len() == i,
                forall|j: int| 0 <= j < i ==> (#[trigger] texts@[j])@ == self@[j].spec_text(),
            decreases cards@.len() - i,
        {
            texts.push(cards[i].to_string());
            i = i + 1;
        }
        texts
    }

    /// The display forms of the cards with `delim` between them.
    pub fn to_str_delimiter(&self, delim: char) -> (text: String)
        ensures
            text@ == joined(self@, delim),
    {
        let cards = self.to_vec();
        let n = cards.len();
        let mut chars: Vec<char> = Vec::new();
        let mut i: usize = 0;
        while i < n
            invariant
                i <= n,
                n == cards@.len(),
                cards@ == self@,
                i == 0 ==> chars@ == Seq::<char>::empty(),
                i > 0 ==> joined(cards@, delim) == chars@ + joined_rest(
                    cards@.subrange(i as int, n as int),
                    delim,
                ),
            decreases n - i,
        {
            if i > 0 {
                chars.push(delim);
            }
            let symbol = chars_of(cards[i].to_string().as_str());
            let ghost before = chars@;
            append_chars(&mut chars, &symbol);
            proof {
                let left = cards@.subrange(i as int, n as int);
                assert(left.drop_first() =~= cards@.subrange(i + 1, n as int));
                if i == 0 {
                    assert(left =~= cards@);
                    assert(chars@ =~= cards@[0].spec_text());
                } else {
                    assert(chars@ + joined_rest(left.drop_first(), delim) =~= (before.drop_last()
                        + joined_rest(left, delim)));
                }
            }
            i = i + 1;
        }
        proof {
            if n > 0 {
                assert(cards@.subrange(n as int, n as int) =~= Seq::<Card>::empty());
                assert(chars@ + Seq::<char>::empty() =~= chars@);
            }
        }
        string_of(&chars, 0, chars.len())
    }

    /// The display forms of the cards with a space between them.
    pub fn to_string(&self) -> (text: String)
        ensures
            text@ == joined(self@, ' '),
    {
        self.to_str_delimiter(' ')
    }

    /// Reads a deck from a text of card tokens with `delim` between them.
    /// White space around a token does not count, nor does an empty token.
    /// The first token that stands for no card is an error that quotes it,
    /// and no deck is made.
    pub fn from_str_delimiter(s: &str, delim: char) -> (result: Result<Deck, String>)
        ensures
            match parsed_cards(s@, delim) {
                Ok(cards) => result is Ok && result->Ok_0@ == cards,
                Err(token) => result is Err && result->Err_0@ == Card::parse_error(token),
            },
    {
        let chars = chars_of(s);
        let n = chars.len();
        let mut cards: Vec<Card> = Vec::new();
        let mut from: usize = 0;
        let mut done = false;
        proof {
            assert(chars@.subrange(0, n as int) =~= chars@);
            assert(cards@ + Seq::<Card>::empty() =~= cards@);
        }
        while !done
            invariant
                from <= n,
                n == chars@.len(),
                chars@ == s@,
                !done ==> parsed_cards(s@, delim) == after(
                    cards@,
                    parsed_cards(chars@.subrange(from as int, n as int), delim),
                ),
                done ==> parsed_cards(s@, delim) == Ok::<Seq<Card>, Seq<char>>(cards@),
            decreases n - from + (if done { 0int } else { 1int }),
        {
            let ghost text = chars@.subrange(from as int, n as int);
            let end = piece_end(&chars, from, n, delim);
            let (lo, hi) = trim_bounds(&chars, from, end);
            proof {
                assert(text.subrange(0, end - from) =~= chars@.subrange(from as int, end as int));
                if end < n {
                    assert(text.subrange(end - from + 1, text.len() as int) =~= chars@.subrange(
                        end + 1,
                        n as int,
                    ));
                }
            }
            let ghost before = cards@;
            if lo < hi {
                let token = slice_of(&chars, lo, hi);
                match Card::from_chars(&token) {
                    Some(card) => {
                        cards.push(card);
                    },
                    None => {
                        let mut message = String::from_str("Invalid card string: ");
                        message.append(string_of(&chars, lo, hi).as_str());
                        return Err(message);
                    },
                }
            }
            proof {
                let rest = if end < n {
                    parsed_cards(chars@.subrange(end + 1, n as int), delim)
                } else {
                    Ok(Seq::<Card>::empty())
                };
                assert(parsed_cards(text, delim) == after(cards@.subrange(
                    before.len() as int,
                    cards@.len() as int,
                ), rest)) by {
                    if lo < hi {
                        assert(cards@.subrange(before.len() as int, cards@.len() as int)
                            =~= seq![cards@.last()]);
                    } else {
                        assert(cards@.subrange(before.len() as int, cards@.len() as int)
                            =~= Seq::<Card>::empty());
                        assert forall|more: Seq<Card>| Seq::<Card>::empty() + more =~= more by {}
                    }
                }
                assert(parsed_cards(s@, delim) == after(cards@, rest)) by {
                    let added = cards@.subrange(before.len() as int, cards@.len() as int);
                    assert(before + added =~= cards@);
                    assert forall|more: Seq<Card>| before + (added + more) =~= cards@ + more by {}
                }
            }
            if end < n {
                from = end + 1;
            } else {
                proof {
                    assert(cards@ + Seq::<Card>::empty() =~= cards@);
                }
                done = true;
            }
        }
        Ok(Deck::from_vec(cards))
    }

    /// Reads a deck from a text of card tokens with spaces between them.
    pub fn from_str(s: &str) -> (result: Result<Deck, String>)
        ensures
            match parsed_cards(s@, ' ') {
                Ok(cards) => result is Ok && result->Ok_0@ == cards,
                Err(token) => result is Err && result->Err_0@ == Card::parse_error(token),
            },
    {
        Deck::from_str_delimiter(s, ' ')
    }

    /// The deck in CSV form: the header "Rank,Suit", then a line for each
    /// card with the rank's symbol, a comma and the suit's symbol.
    pub fn as_csv(&self) -> (text: String)
        ensures
            text@ == csv_header() + csv_rows(self@),
    {
        let cards = self.to_vec();
        let n = cards.len();
        let mut chars: Vec<char> = chars_of("Rank,Suit\n");
        let mut i: usize = 0;
        proof {
            assert(cards@.subrange(0, n as int) =~= cards@);
        }
        while i < n
            invariant
                i <= n,
                n == cards@.len(),
                cards@ == self@,
                csv_header() + csv_rows(cards@) == chars@ + csv_rows(
                    cards@.subrange(i as int, n as int),
                ),
            decreases n - i,
        {
            let rank = chars_of(cards[i].rank.symbol());
            let suit = chars_of(cards[i].suit.symbol());
            let ghost before = chars@;
            append_chars(&mut chars, &rank);
            chars.push(',');
            append_chars(&mut chars, &suit);
            chars.push('\n');
            proof {
                let left = cards@.subrange(i as int, n as int);
                assert(left.drop_first() =~= cards@.subrange(i + 1, n as int));
                assert(chars@ =~= before + seq![
                    left[0].rank.symbol_char(),
                    ',',
                    left[0].suit.symbol_char(),
                    '\n',
                ]);
                assert(chars@ + csv_rows(left.drop_first()) =~= before + csv_rows(left));
            }
            i = i + 1;
        }
        proof {
            assert(cards@.subrange(n as int, n as int) =~= Seq::<Card>::empty());
            assert(chars@ + Seq::<char>::empty() =~= chars@);
        }
        string_of(&chars, 0, chars.len())
    }

    /// Reads a deck from its CSV form. The first line is taken for the
    /// header and passed over, as are blank lines; every other line must hold
    /// a rank and a suit with a comma between them. The first line that does
    /// not is an error that gives its number, counted from 1, and no deck is
    /// made.
    pub fn from_csv(s: &str) -> (result: Result<Deck, String>)
        ensures
            match parsed_rows(s@, 1) {
                Ok(cards) => result is Ok && result->Ok_0@ == cards,
                Err(number) => result is Err && result->Err_0@ == csv_error(number),
            },
    {
        let chars = chars_of(s);
        let n = chars.len();
        let mut cards: Vec<Card> = Vec::new();
        let mut from: usize = 0;
        let mut lines_before: usize = 0;
        let mut done = false;
        proof {
            assert(chars@.subrange(0, n as int) =~= chars@);
            assert(cards@ + Seq::<Card>::empty() =~= cards@);
        }
        while !done
            invariant
                from <= n,
                lines_before <= from,
                n == chars@.len(),
                chars@ == s@,
                !done ==> parsed_rows(s@, 1) == after(
                    cards@,
                    parsed_rows(
                        chars@.subrange(from as int, n as int),
                        (lines_before + 1) as nat,
                    ),
                ),
                done ==> parsed_rows(s@, 1) == Ok::<Seq<Card>, nat>(cards@),
            decreases n - from + (if done { 0int } else { 1int }),
        {
            let ghost text = chars@.subrange(from as int, n as int);
            let end = piece_end(&chars, from, n, '\n');
            let (lo, hi) = trim_bounds(&chars, from, end);
            proof {
                assert(text.subrange(0, end - from) =~= chars@.subrange(from as int, end as int));
                if end < n {
                    assert(text.subrange(end - from + 1, text.len() as int) =~= chars@.subrange(
                        end + 1,
                        n as int,
                    ));
                }
            }
            let ghost before = cards@;
            if lines_before > 0 && lo < hi {
                match row_card(&chars, lo, hi) {
                    Some(card) => {
                        cards.push(card);
                    },
                    None => {
                        let number: u128 = lines_before as u128 + 1;
                        let digits = decimal_of(number);
                        let mut message = String::from_str("Invalid CSV row at line ");
                        message.append(string_of(&digits, 0, digits.len()).as_str());
                        proof {
                            assert(digits@.subrange(0, digits@.len() as int) =~= digits@);
                        }
                        return Err(message);
                    },
                }
            }
            proof {
                let rest = if end < n {
                    parsed_rows(chars@.subrange(end + 1, n as int), (lines_before + 2) as nat)
                } else {
                    Ok(Seq::<Card>::empty())
                };
                let added = cards@.subrange(before.len() as int, cards@.len() as int);
                assert(parsed_rows(text, (lines_before + 1) as nat) == after(added, rest)) by {
                    if lines_before > 0 && lo < hi {
                        assert(added =~= seq![cards@.last()]);
                    } else {
                        assert(added =~= Seq::<Card>::empty());
                        assert forall|more: Seq<Card>| Seq::<Card>::empty() + more =~= more by {}
                    }
                }
                assert(parsed_rows(s@, 1) == after(cards@, rest)) by {
                    assert(before + added =~= cards@);
                    assert forall|more: Seq<Card>| before + (added + more) =~= cards@ + more by {}
                }
            }
            if end < n {
                from = end + 1;
                lines_before = lines_before + 1;
            } else {
                proof {
                    assert(cards@ + Seq::<Card>::empty() =~= cards@);
                }
                done = true;
            }
        }
        Ok(Deck::from_vec(cards))
    }
}

impl std::str::FromStr for Deck {
    type Err = String;

    /// Reads a deck as `Deck::from_str` does.
    fn from_str(s: &str) -> (result: Result<Deck, String>)
        ensures
            match parsed_cards(s@, ' ') {
                Ok(cards) => result is Ok && result->Ok_0@ == cards,
                Err(token) => result is Err && result->Err_0@ == Card::parse_error(token),
            },
    {
        Deck::from_str(s)
    }
}

} // verus!
