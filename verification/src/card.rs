//! Cards and the deck: suits, ranks with their integer strengths, and the
//! ordered card sequence that the game deals from and returns fled cards to.

use vstd::prelude::*;
use rand::seq::SliceRandom;

verus! {

#[derive(Debug, Copy, Clone, Eq, PartialEq, Structural)]
pub enum Suit {
    Diamonds,
    Hearts,
    Clubs,
    Spades,
}

#[derive(Debug, Copy, Clone, Eq, PartialEq, Structural, Ord, PartialOrd)]
pub enum Rank {
    Two,
    Three,
    Four,
    Five,
    Six,
    Seven,
    Eight,
    Nine,
    Ten,
    Jack,
    Queen,
    King,
    Ace,
}

impl Rank {
    /// The integer strength of a rank: 2 for Two up to 14 for Ace.
    pub open spec fn strength(self) -> int {
        match self {
            Rank::Two => 2,
            Rank::Three => 3,
            Rank::Four => 4,
            Rank::Five => 5,
            Rank::Six => 6,
            Rank::Seven => 7,
            Rank::Eight => 8,
            Rank::Nine => 9,
            Rank::Ten => 10,
            Rank::Jack => 11,
            Rank::Queen => 12,
            Rank::King => 13,
            Rank::Ace => 14,
        }
    }

    pub fn value(self) -> (v: u8)
        ensures
            v as int == self.strength(),
            2 <= v <= 14,
    {
        match self {
            Rank::Two => 2,
            Rank::Three => 3,
            Rank::Four => 4,
            Rank::Five => 5,
            Rank::Six => 6,
            Rank::Seven => 7,
            Rank::Eight => 8,
            Rank::Nine => 9,
            Rank::Ten => 10,
            Rank::Jack => 11,
            Rank::Queen => 12,
            Rank::King => 13,
            Rank::Ace => 14,
        }
    }
}

#[derive(Debug, Copy, Clone, Eq, PartialEq, Structural)]
pub struct Card {
    pub suit: Suit,
    pub rank: Rank,
}

impl Card {
    pub open spec fn strength(self) -> int {
        self.rank.strength()
    }

    /// Clubs and Spades are monsters to be fought.
    pub open spec fn is_monster(self) -> bool {
        self.suit == Suit::Clubs || self.suit == Suit::Spades
    }

    /// Hearts are potions.
    pub open spec fn is_potion(self) -> bool {
        self.suit == Suit::Hearts
    }

    /// Diamonds are weapons.
    pub open spec fn is_weapon(self) -> bool {
        self.suit == Suit::Diamonds
    }

    pub fn new(suit: Suit, rank: Rank) -> (c: Card)
        ensures
            c == (Card { suit, rank }),
    {
        Card { suit, rank }
    }
}

/// The rank dealt at position `i` of a suit's run, in ascending order.
pub open spec fn rank_of_index(i: int) -> Rank {
    if i == 0 {
        Rank::Two
    } else if i == 1 {
        Rank::Three
    } else if i == 2 {
        Rank::Four
    } else if i == 3 {
        Rank::Five
    } else if i == 4 {
        Rank::Six
    } else if i == 5 {
        Rank::Seven
    } else if i == 6 {
        Rank::Eight
    } else if i == 7 {
        Rank::Nine
    } else if i == 8 {
        Rank::Ten
    } else if i == 9 {
        Rank::Jack
    } else if i == 10 {
        Rank::Queen
    } else if i == 11 {
        Rank::King
    } else {
        Rank::Ace
    }
}

/// The first `n` ranks of one suit, in ascending rank order.
pub open spec fn suit_run(suit: Suit, n: int) -> Seq<Card> {
    Seq::new(n as nat, |i: int| Card { suit, rank: rank_of_index(i) })
}

/// The full 44-card starting deck: a standard deck without the red face
/// cards and red aces, in construction order (Diamonds and Hearts hold only
/// Two..Ten; Clubs and Spades hold all 13 ranks).
pub open spec fn full_deck() -> Seq<Card> {
    suit_run(Suit::Diamonds, 9) + suit_run(Suit::Hearts, 9) + suit_run(Suit::Clubs, 13)
        + suit_run(Suit::Spades, 13)
}

/// The smaller of two integers.
pub open spec fn min_int(a: int, b: int) -> int {
    if a <= b {
        a
    } else {
        b
    }
}

/// An ordered sequence of cards. The "top" (where `deal` removes) is the
/// end of the sequence; fled cards re-enter at the front ("the bottom").
#[derive(Debug, Clone)]
pub struct Deck {
    pub cards: Vec<Card>,
}

fn rank_of(i: usize) -> (r: Rank)
    requires
        i < 13,
    ensures
        r == rank_of_index(i as int),
{
    match i {
        0 => Rank::Two,
        1 => Rank::Three,
        2 => Rank::Four,
        3 => Rank::Five,
        4 => Rank::Six,
        5 => Rank::Seven,
        6 => Rank::Eight,
        7 => Rank::Nine,
        8 => Rank::Ten,
        9 => Rank::Jack,
        10 => Rank::Queen,
        11 => Rank::King,
        _ => Rank::Ace,
    }
}

fn push_suit_run(cards: &mut Vec<Card>, suit: Suit, n: usize)
    requires
        n <= 13,
        old(cards)@.len() <= 44,
    ensures
        final(cards)@ == old(cards)@ + suit_run(suit, n as int),
{
    let mut i: usize = 0;
    while i < n
        invariant
            i <= n <= 13,
            old(cards)@.len() <= 44,
            cards@ == old(cards)@ + suit_run(suit, i as int),
        decreases n - i,
    {
        let r = rank_of(i);
        cards.push(Card { suit, rank: r });
        proof {
            assert(cards@ =~= old(cards)@ + suit_run(suit, i + 1));
        }
        i = i + 1;
    }
    proof {
        assert(cards@ =~= old(cards)@ + suit_run(suit, n as int));
    }
}

impl Deck {
    /// Build the 44-card starting deck in construction order.
    pub fn new() -> (d: Deck)
        ensures
            d.cards@ == full_deck(),
            d.cards@.len() == 44,
    {
        let mut cards: Vec<Card> = Vec::new();
        push_suit_run(&mut cards, Suit::Diamonds, 9);
        push_suit_run(&mut cards, Suit::Hearts, 9);
        push_suit_run(&mut cards, Suit::Clubs, 13);
        push_suit_run(&mut cards, Suit::Spades, 13);
        proof {
            assert(cards@ =~= full_deck());
        }
        Deck { cards }
    }

    /// Relies on rand's `SliceRandom::shuffle` (with the generator from
    /// `rand::rng()`): it replaces the slice with a permutation of itself
    /// chosen uniformly at random, so the same cards remain, in some order.
    #[verifier::external_body]
    pub fn shuffle(&mut self)
        ensures
            final(self).cards@.to_multiset() == old(self).cards@.to_multiset(),
            final(self).cards@.len() == old(self).cards@.len(),
    {
        let mut prng = rand::rng();
        self.cards.shuffle(&mut prng);
    }

    /// Remove and return up to `n` cards from the top (the end), keeping
    /// their relative order; if fewer than `n` remain, empty the deck.
    pub fn deal(&mut self, n: usize) -> (dealt: Vec<Card>)
        ensures
            ({
                let len: int = old(self).cards@.len() as int;
                let k: int = min_int(n as int, len);
                final(self).cards@ == old(self).cards@.take(len - k) && dealt@ == old(
                    self,
                ).cards@.skip(len - k)
            }),
    {
        let len: usize = self.cards.len();
        let at: usize = if n >= len {
            0
        } else {
            len - n
        };
        self.cards.split_off(at)
    }

    pub fn len(&self) -> (n: usize)
        ensures
            n == self.cards@.len(),
    {
        self.cards.len()
    }

    pub fn is_empty(&self) -> (b: bool)
        ensures
            b == (self.cards@.len() == 0),
    {
        self.cards.is_empty()
    }
}

} // verus!
