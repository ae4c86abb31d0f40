//! Cards: a color and a face, with the rule that says which card may follow
//! which.

pub mod color;
pub mod face;

use crate::card::color::Color;
use crate::card::face::Face;
use core::str::FromStr;
use vstd::prelude::*;
use vstd::string::StringExecFns;

verus! {

/// A playing card. The color of a wild card takes no part in telling cards
/// apart: two wild cards with the same face are the same card.
#[derive(Copy, Clone, Eq, Debug)]
pub struct Card {
    pub color: Color,
    pub face: Face,
}

impl Card {
    /// Whether the card can be played whatever lies on the discard pile.
    pub open spec fn is_wild(self) -> bool {
        self.face.is_wild()
    }

    /// Whether two cards are the same card: the faces agree, and so do the
    /// colors unless the face is wild.
    pub open spec fn same_card(self, other: Card) -> bool {
        self.face == other.face && (self.face.is_wild() || self.color == other.color)
    }

    /// The card with the color of a wild card set to red, the color under
    /// which wild cards are kept in a fresh deck.
    pub open spec fn canon(self) -> Card {
        if self.face.is_wild() {
            Card { color: Color::Red, face: self.face }
        } else {
            self
        }
    }

    /// The rule of play: a wild card may follow any card, another card only
    /// one that shares its color or its face.
    pub open spec fn playable_on(self, top: Card) -> bool {
        self.face.is_wild() || self.color == top.color || self.face == top.face
    }

    /// The card's name as it is shown to the players.
    pub open spec fn display_name_spec(self) -> Seq<char> {
        if self.face.is_wild() {
            self.face.name()
        } else {
            self.color.name() + " "@ + self.face.name()
        }
    }

    /// What parsing a text as a card gives: the color from its first
    /// character and the face from its second, whatever follows them.
    pub open spec fn parsed(s: Seq<char>) -> Result<Card, &'static str> {
        if !(s.len() > 0 && Color::of_char(s[0]) is Some) {
            Err("Could not parse color.")
        } else if !(s.len() > 1 && Face::of_char(s[1]) is Some) {
            Err("Invalid face identifier")
        } else {
            Ok(Card { color: Color::of_char(s[0])->0, face: Face::of_char(s[1])->0 })
        }
    }

    /// Makes a card.
    pub fn new(color: Color, face: Face) -> (r: Card)
        ensures
            r == (Card { color, face }),
    {
        Card { color, face }
    }

    /// The card's name for the players: the face alone for a wild card, else
    /// the color and the face.
    pub fn display_name(&self) -> (r: String)
        ensures
            r@ == self.display_name_spec(),
    {
        match self.face {
            Face::DrawFour | Face::ColorCard => self.face.label().to_owned(),
            _ => {
                let mut name = self.color.label().to_owned();
                name.append(" ");
                name.append(self.face.label());
                name
            },
        }
    }

    /// Whether this card may be played on `other`.
    pub fn can_play_on(&self, other: Card) -> (r: bool)
        ensures
            r == self.playable_on(other),
    {
        match self.face {
            Face::ColorCard | Face::DrawFour => true,
            _ => self.color == other.color || self.face == other.face,
        }
    }
}

impl PartialEq for Card {
    fn eq(&self, other: &Self) -> (r: bool) {
        match other.face {
            Face::ColorCard | Face::DrawFour => self.face == other.face,
            _ => self.face == other.face && self.color == other.color,
        }
    }
}

impl vstd::std_specs::cmp::PartialEqSpecImpl for Card {
    open spec fn obeys_eq_spec() -> bool {
        true
    }

    open spec fn eq_spec(&self, other: &Self) -> bool {
        self.same_card(*other)
    }
}

impl FromStr for Card {
    type Err = &'static str;

    /// Reads a card from the first two characters of `s`.
    fn from_str(s: &str) -> (r: Result<Card, &'static str>)
        ensures
            r == Card::parsed(s@),
    {
        let color = match Color::from_str(s) {
            Ok(color) => color,
            Err(_) => {
                return Err("Could not parse color.");
            },
        };
        if s.unicode_len() < 2 {
            return Err("Invalid face identifier");
        }
        let face = match Face::from(s.get_char(1)) {
            Some(face) => face,
            None => {
                return Err("Invalid face identifier");
            },
        };
        Ok(Card::new(color, face))
    }
}

/// Two cards are the same card exactly when their canonical forms are equal.
pub proof fn lemma_same_card_is_canon_eq(a: Card, b: Card)
    ensures
        a.same_card(b) <==> a.canon() == b.canon(),
{
}

/// Being the same card is an equivalence.
pub proof fn lemma_same_card_equivalence(a: Card, b: Card, c: Card)
    ensures
        a.same_card(a),
        a.same_card(b) ==> b.same_card(a),
        a.same_card(b) && b.same_card(c) ==> a.same_card(c),
{
}

/// A wild card may follow any card; a card that is not wild may follow
/// exactly the cards that share its color or its face.
pub proof fn lemma_legality(a: Card, b: Card)
    ensures
        a.is_wild() ==> a.playable_on(b),
        !a.is_wild() ==> (a.playable_on(b) <==> a.color == b.color || a.face == b.face),
{
}

} // verus!
