//! Card, [`Rank`], and [`Suit`] types.
use vstd::prelude::*;

verus! {

/// The four suits of a standard 52-card deck.
#[derive(Debug, Clone, Copy, PartialEq, Eq, Structural, Hash)]
pub enum Suit {
    /// Hearts, shown as ♥.
    Hearts,
    /// Diamonds, shown as ♦.
    Diamonds,
    /// Clubs, shown as ♣.
    Clubs,
    /// Spades, shown as ♠.
    Spades,
}

/// The thirteen ranks of a standard 52-card deck.
#[derive(Debug, Clone, Copy, PartialEq, Eq, Structural, PartialOrd, Ord, Hash)]
pub enum Rank {
    /// The two.
    Two,
    /// The three.
    Three,
    /// The four.
    Four,
    /// The five.
    Five,
    /// The six.
    Six,
    /// The seven.
    Seven,
    /// The eight.
    Eight,
    /// The nine.
    Nine,
    /// The ten.
    Ten,
    /// The jack, worth 10.
    Jack,
    /// The queen, worth 10.
    Queen,
    /// The king, worth 10.
    King,
    /// The ace, worth 11 or 1 (soft handling happens in the hand).
    Ace,
}

/// The suit at position `i` of the iteration order Hearts, Diamonds, Clubs, Spades.
pub open spec fn suit_at(i: int) -> Suit {
    if i == 0 {
        Suit::Hearts
    } else if i == 1 {
        Suit::Diamonds
    } else if i == 2 {
        Suit::Clubs
    } else {
        Suit::Spades
    }
}

/// The rank at position `i` of the ascending order Two, ..., King, Ace.
pub open spec fn rank_at(i: int) -> Rank {
    if i == 0 {
        Rank::Two
    } else if i == 1 {
        Rank::Three
    } else if i == 2 {
        Rank::Four
    } else if i == 3 {
        Rank::Five
    } else if i == 4 {
        Rank::Six
    } else if i == 5 {
        Rank::Seven
    } else if i == 6 {
        Rank::Eight
    } else if i == 7 {
        Rank::Nine
    } else if i == 8 {
        Rank::Ten
    } else if i == 9 {
        Rank::Jack
    } else if i == 10 {
        Rank::Queen
    } else if i == 11 {
        Rank::King
    } else {
        Rank::Ace
    }
}

/// The base blackjack value of a rank: aces 11, faces 10, pips their number.
pub open spec fn rank_value(r: Rank) -> nat {
    match r {
        Rank::Ace => 11,
        Rank::Two => 2,
        Rank::Three => 3,
        Rank::Four => 4,
        Rank::Five => 5,
        Rank::Six => 6,
        Rank::Seven => 7,
        Rank::Eight => 8,
        Rank::Nine => 9,
        Rank::Ten | Rank::Jack | Rank::Queen | Rank::King => 10,
    }
}

/// The short label of a rank, as printed on a card ("2" .. "10", "J", "Q", "K", "A").
pub open spec fn rank_label(r: Rank) -> Seq<char> {
    match r {
        Rank::Two => seq!['2'],
        Rank::Three => seq!['3'],
        Rank::Four => seq!['4'],
        Rank::Five => seq!['5'],
        Rank::Six => seq!['6'],
        Rank::Seven => seq!['7'],
        Rank::Eight => seq!['8'],
        Rank::Nine => seq!['9'],
        Rank::Ten => seq!['1', '0'],
        Rank::Jack => seq!['J'],
        Rank::Queen => seq!['Q'],
        Rank::King => seq!['K'],
        Rank::Ace => seq!['A'],
    }
}

/// The symbol of a suit (♥ ♦ ♣ ♠).
pub open spec fn suit_symbol(s: Suit) -> Seq<char> {
    match s {
        Suit::Hearts => seq!['\u{2665}'],
        Suit::Diamonds => seq!['\u{2666}'],
        Suit::Clubs => seq!['\u{2663}'],
        Suit::Spades => seq!['\u{2660}'],
    }
}

impl Suit {
    /// All suits in iteration order.
    pub const ALL: [Suit; 4] = [Suit::Hearts, Suit::Diamonds, Suit::Clubs, Suit::Spades];

    /// The suit at position `i` of the iteration order.
    pub fn from_index(i: usize) -> (s: Suit)
        requires
            i < 4,
        ensures
            s == suit_at(i as int),
    {
        if i == 0 {
            Suit::Hearts
        } else if i == 1 {
            Suit::Diamonds
        } else if i == 2 {
            Suit::Clubs
        } else {
            Suit::Spades
        }
    }

    /// The symbol printed for the suit.
    pub fn symbol(self) -> (s: &'static str)
        ensures
            s@ == suit_symbol(self),
    {
        proof {
            reveal_strlit("\u{2665}");
            reveal_strlit("\u{2666}");
            reveal_strlit("\u{2663}");
            reveal_strlit("\u{2660}");
        }
        match self {
            Suit::Hearts => "\u{2665}",
            Suit::Diamonds => "\u{2666}",
            Suit::Clubs => "\u{2663}",
            Suit::Spades => "\u{2660}",
        }
    }
}

impl Rank {
    /// All ranks in ascending order.
    pub const ALL: [Rank; 13] = [
        Rank::Two,
        Rank::Three,
        Rank::Four,
        Rank::Five,
        Rank::Six,
        Rank::Seven,
        Rank::Eight,
        Rank::Nine,
        Rank::Ten,
        Rank::Jack,
        Rank::Queen,
        Rank::King,
        Rank::Ace,
    ];

    /// The rank at position `i` of the ascending order.
    pub fn from_index(i: usize) -> (r: Rank)
        requires
            i < 13,
        ensures
            r == rank_at(i as int),
    {
        if i == 0 {
            Rank::Two
        } else if i == 1 {
            Rank::Three
        } else if i == 2 {
            Rank::Four
        } else if i == 3 {
            Rank::Five
        } else if i == 4 {
            Rank::Six
        } else if i == 5 {
            Rank::Seven
        } else if i == 6 {
            Rank::Eight
        } else if i == 7 {
            Rank::Nine
        } else if i == 8 {
            Rank::Ten
        } else if i == 9 {
            Rank::Jack
        } else if i == 10 {
            Rank::Queen
        } else if i == 11 {
            Rank::King
        } else {
            Rank::Ace
        }
    }

    /// The base blackjack value of the rank. Aces count as 11; a hand
    /// downgrades aces to 1 as needed (see [`crate::models::hand::Hand`]).
    pub fn value(self) -> (v: u32)
        ensures
            v == rank_value(self),
    {
        match self {
            Rank::Ace => 11,
            Rank::Two => 2,
            Rank::Three => 3,
            Rank::Four => 4,
            Rank::Five => 5,
            Rank::Six => 6,
            Rank::Seven => 7,
            Rank::Eight => 8,
            Rank::Nine => 9,
            Rank::Ten | Rank::Jack | Rank::Queen | Rank::King => 10,
        }
    }

    /// Whether the rank is an ace.
    pub fn is_ace(self) -> (b: bool)
        ensures
            b == (self == Rank::Ace),
    {
        self == Rank::Ace
    }

    /// The label printed for the rank.
    pub fn label(self) -> (s: &'static str)
        ensures
            s@ == rank_label(self),
    {
        proof {
            reveal_strlit("2");
            reveal_strlit("3");
            reveal_strlit("4");
            reveal_strlit("5");
            reveal_strlit("6");
            reveal_strlit("7");
            reveal_strlit("8");
            reveal_strlit("9");
            reveal_strlit("10");
            reveal_strlit("J");
            reveal_strlit("Q");
            reveal_strlit("K");
            reveal_strlit("A");
        }
        match self {
            Rank::Two => "2",
            Rank::Three => "3",
            Rank::Four => "4",
            Rank::Five => "5",
            Rank::Six => "6",
            Rank::Seven => "7",
            Rank::Eight => "8",
            Rank::Nine => "9",
            Rank::Ten => "10",
            Rank::Jack => "J",
            Rank::Queen => "Q",
            Rank::King => "K",
            Rank::Ace => "A",
        }
    }
}

/// A single playing card.
#[derive(Debug, Clone, Copy, PartialEq, Eq, Structural, Hash)]
pub struct Card {
    /// Rank of the card.
    pub rank: Rank,
    /// Suit of the card.
    pub suit: Suit,
}

/// The label of a card: its rank label followed by its suit symbol, e.g. "A♠".
pub open spec fn card_label(c: Card) -> Seq<char> {
    rank_label(c.rank) + suit_symbol(c.suit)
}

impl Card {
    /// Creates a new card with the given rank and suit.
    pub fn new(rank: Rank, suit: Suit) -> (c: Card)
        ensures
            c.rank == rank,
            c.suit == suit,
    {
        Card { rank, suit }
    }

    /// Whether the card is an ace.
    pub fn is_ace(&self) -> (b: bool)
        ensures
            b == (self.rank == Rank::Ace),
    {
        self.rank.is_ace()
    }

    /// The base blackjack value of the card.
    pub fn value(&self) -> (v: u32)
        ensures
            v == rank_value(self.rank),
    {
        self.rank.value()
    }

    /// The printed form of the card, e.g. "A♠" or "10♥".
    pub fn label(&self) -> (s: String)
        ensures
            s@ == card_label(*self),
    {
        let mut s = String::from_str(self.rank.label());
        s.append(self.suit.symbol());
        s
    }
}

} // verus!
