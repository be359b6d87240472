use vstd::prelude::*;

use core::cmp::Ordering;

verus! {

/// One of the four French suits.  When two cards share a rank, the suit
/// breaks the tie: Spade > Heart > Diamond > Club.
#[derive(Debug, Clone, Copy, PartialEq, Eq, Structural)]
pub enum Suit {
    Spade,
    Heart,
    Diamond,
    Club,
}

impl Suit {
    /// Tie-break weight of the suit: Spade 4, Heart 3, Diamond 2, Club 1.
    pub open spec fn spec_weight(self) -> int {
        match self {
            Suit::Spade => 4,
            Suit::Heart => 3,
            Suit::Diamond => 2,
            Suit::Club => 1,
        }
    }

    pub open spec fn spec_str(self) -> Seq<char> {
        match self {
            Suit::Spade => "\u{2660}"@,
            Suit::Heart => "\u{2665}"@,
            Suit::Diamond => "\u{2666}"@,
            Suit::Club => "\u{2663}"@,
        }
    }

    pub fn to_string(&self) -> (r: String)
        ensures
            r@ == self.spec_str(),
    {
        match self {
            Suit::Spade => "\u{2660}".to_string(),
            Suit::Heart => "\u{2665}".to_string(),
            Suit::Diamond => "\u{2666}".to_string(),
            Suit::Club => "\u{2663}".to_string(),
        }
    }
}

/// The thirteen card ranks, A (numeric value 1) up to K (numeric value 13).
#[derive(Debug, Clone, Copy, PartialEq, Eq, Structural)]
pub enum Rank {
    A,
    Two,
    Three,
    Four,
    Five,
    Six,
    Seven,
    Eight,
    Nine,
    Ten,
    J,
    Q,
    K,
}

impl Rank {
    /// Numeric value of the rank: A is 1, number cards carry their number,
    /// J 11, Q 12, K 13.
    pub open spec fn spec_value(self) -> int {
        match self {
            Rank::A => 1,
            Rank::Two => 2,
            Rank::Three => 3,
            Rank::Four => 4,
            Rank::Five => 5,
            Rank::Six => 6,
            Rank::Seven => 7,
            Rank::Eight => 8,
            Rank::Nine => 9,
            Rank::Ten => 10,
            Rank::J => 11,
            Rank::Q => 12,
            Rank::K => 13,
        }
    }

    pub fn value(&self) -> (r: u8)
        ensures
            r as int == self.spec_value(),
    {
        match self {
            Rank::A => 1,
            Rank::Two => 2,
            Rank::Three => 3,
            Rank::Four => 4,
            Rank::Five => 5,
            Rank::Six => 6,
            Rank::Seven => 7,
            Rank::Eight => 8,
            Rank::Nine => 9,
            Rank::Ten => 10,
            Rank::J => 11,
            Rank::Q => 12,
            Rank::K => 13,
        }
    }

    pub open spec fn spec_str(self) -> Seq<char> {
        match self {
            Rank::A => "A"@,
            Rank::Two => "2"@,
            Rank::Three => "3"@,
            Rank::Four => "4"@,
            Rank::Five => "5"@,
            Rank::Six => "6"@,
            Rank::Seven => "7"@,
            Rank::Eight => "8"@,
            Rank::Nine => "9"@,
            Rank::Ten => "10"@,
            Rank::J => "J"@,
            Rank::Q => "Q"@,
            Rank::K => "K"@,
        }
    }

    pub fn to_string(&self) -> (r: String)
        ensures
            r@ == self.spec_str(),
    {
        match self {
            Rank::A => "A".to_string(),
            Rank::Two => "2".to_string(),
            Rank::Three => "3".to_string(),
            Rank::Four => "4".to_string(),
            Rank::Five => "5".to_string(),
            Rank::Six => "6".to_string(),
            Rank::Seven => "7".to_string(),
            Rank::Eight => "8".to_string(),
            Rank::Nine => "9".to_string(),
            Rank::Ten => "10".to_string(),
            Rank::J => "J".to_string(),
            Rank::Q => "Q".to_string(),
            Rank::K => "K".to_string(),
        }
    }
}

/// An immutable card value.  Cards carry no intrinsic order: comparison is
/// contextual, over the whole set of cards played this round (see
/// [`Card::compare`]).
#[derive(Debug, Clone, Copy, PartialEq, Eq, Structural)]
pub struct Card {
    pub rank: Rank,
    pub suit: Suit,
}

/// Whether some card of the sequence has the given rank.
pub open spec fn has_rank(cards: Seq<Card>, rk: Rank) -> bool {
    exists|i: int| 0 <= i < cards.len() && cards[i].rank == rk
}

/// The Ace/King override is active exactly when the round's played cards
/// contain both an Ace and a King.
pub open spec fn ak_override(cards: Seq<Card>) -> bool {
    has_rank(cards, Rank::A) && has_rank(cards, Rank::K)
}

/// Total strength of a card under a given override context.  Without the
/// override the class is the plain numeric rank value; with it, every Ace is
/// lifted above every King, and every King above all remaining cards.  The
/// suit weight breaks ties between equal classes, so distinct cards always
/// have distinct keys.
pub open spec fn card_key(c: Card, ovr: bool) -> int {
    let class = if ovr && c.rank == Rank::A {
        15
    } else if ovr && c.rank == Rank::K {
        14
    } else {
        c.rank.spec_value()
    };
    class * 8 + c.suit.spec_weight()
}

/// Executable form of [`card_key`].
pub fn key_of(c: &Card, ovr: bool) -> (k: u8)
    ensures
        k as int == card_key(*c, ovr),
{
    let class: u8 = if ovr && matches!(c.rank, Rank::A) {
        15
    } else if ovr && matches!(c.rank, Rank::K) {
        14
    } else {
        c.rank.value()
    };
    let w: u8 = match c.suit {
        Suit::Spade => 4,
        Suit::Heart => 3,
        Suit::Diamond => 2,
        Suit::Club => 1,
    };
    class * 8 + w
}

/// Suit tie-break: Spade > Heart > Diamond > Club.
pub fn suit_cmp(a: Suit, b: Suit) -> (r: Ordering)
    ensures
        r == Ordering::Less <==> a.spec_weight() < b.spec_weight(),
        r == Ordering::Equal <==> a.spec_weight() == b.spec_weight(),
        r == Ordering::Greater <==> a.spec_weight() > b.spec_weight(),
{
    let va: u8 = match a {
        Suit::Spade => 4,
        Suit::Heart => 3,
        Suit::Diamond => 2,
        Suit::Club => 1,
    };
    let vb: u8 = match b {
        Suit::Spade => 4,
        Suit::Heart => 3,
        Suit::Diamond => 2,
        Suit::Club => 1,
    };
    if va < vb {
        Ordering::Less
    } else if va == vb {
        Ordering::Equal
    } else {
        Ordering::Greater
    }
}

impl Card {
    /// Contextual comparison used at settlement, never as an intrinsic
    /// order.  `table` is the full set of cards played this round: when it
    /// holds both an Ace and a King, Aces outrank everything and Kings rank
    /// second-highest; otherwise plain numeric rank order applies.  Equal
    /// ranks are resolved by suit.
    pub fn compare(a: &Card, b: &Card, table: &[Card]) -> (r: Ordering)
        ensures
            r == Ordering::Less <==> card_key(*a, ak_override(table@)) < card_key(
                *b,
                ak_override(table@),
            ),
            r == Ordering::Equal <==> card_key(*a, ak_override(table@)) == card_key(
                *b,
                ak_override(table@),
            ),
            r == Ordering::Greater <==> card_key(*a, ak_override(table@)) > card_key(
                *b,
                ak_override(table@),
            ),
    {
        let ovr = table_has_override(table);
        let ka = key_of(a, ovr);
        let kb = key_of(b, ovr);
        if ka < kb {
            Ordering::Less
        } else if ka == kb {
            Ordering::Equal
        } else {
            Ordering::Greater
        }
    }

    /// Short text form of the card, suit glyph first.
    pub fn to_string(&self) -> (r: String)
        ensures
            r@ == self.suit.spec_str() + self.rank.spec_str(),
    {
        let mut s = self.suit.to_string();
        let rank_str = self.rank.to_string();
        s.append(rank_str.as_str());
        s
    }
}

/// Whether the played cards activate the Ace/King override.
pub fn table_has_override(table: &[Card]) -> (r: bool)
    ensures
        r == ak_override(table@),
{
    let mut has_a = false;
    let mut has_k = false;
    let mut i: usize = 0;
    while i < table.len()
        invariant
            0 <= i <= table@.len(),
            has_a == has_rank(table@.take(i as int), Rank::A),
            has_k == has_rank(table@.take(i as int), Rank::K),
        decreases table@.len() - i,
    {
        if matches!(table[i].rank, Rank::A) {
            has_a = true;
        }
        if matches!(table[i].rank, Rank::K) {
            has_k = true;
        }
        proof {
            assert(table@.take(i + 1).drop_last() =~= table@.take(i as int));
            assert(table@.take(i + 1).last() == table@[i as int]);
            assert forall|rk: Rank| has_rank(table@.take(i + 1), rk) implies has_rank(
                table@.take(i as int),
                rk,
            ) || table@[i as int].rank == rk by {
                let j = choose|j: int|
                    0 <= j < table@.take(i + 1).len() && (#[trigger] table@.take(i + 1)[j]).rank
                        == rk;
                if j < i {
                    assert(table@.take(i as int)[j].rank == rk);
                }
            }
        }
        i += 1;
    }
    proof {
        assert(table@.take(table@.len() as int) =~= table@);
    }
    has_a && has_k
}

} // verus!
