//! The four card colors and their one-letter codes.

use vstd::prelude::*;

verus! {

/// The color of a card. On a wild card the color is what the player called.
#[derive(Copy, Clone, PartialEq, Eq, Structural, Debug)]
pub enum Color {
    Red,
    Green,
    Blue,
    Yellow,
}

impl Color {
    /// The color that a letter stands for, in upper or lower case.
    pub open spec fn of_char(ch: char) -> Option<Color> {
        if ch == 'y' || ch == 'Y' {
            Some(Color::Yellow)
        } else if ch == 'r' || ch == 'R' {
            Some(Color::Red)
        } else if ch == 'b' || ch == 'B' {
            Some(Color::Blue)
        } else if ch == 'g' || ch == 'G' {
            Some(Color::Green)
        } else {
            None
        }
    }

    /// The upper-case letter that stands for the color.
    pub open spec fn code(self) -> char {
        match self {
            Color::Red => 'R',
            Color::Green => 'G',
            Color::Blue => 'B',
            Color::Yellow => 'Y',
        }
    }

    /// The color's name as it is shown to the players.
    pub open spec fn name(self) -> Seq<char> {
        match self {
            Color::Red => "Red"@,
            Color::Green => "Green"@,
            Color::Blue => "Blue"@,
            Color::Yellow => "Yellow"@,
        }
    }

    /// What parsing a text as a color gives: the color of its first
    /// character, whatever follows it.
    pub open spec fn parsed(s: Seq<char>) -> Result<Color, &'static str> {
        if s.len() > 0 && Color::of_char(s[0]) is Some {
            Ok(Color::of_char(s[0])->0)
        } else {
            Err("Colors must be one of Y, R, G, or B.")
        }
    }

    /// The color's name.
    pub fn label(self) -> (r: &'static str)
        ensures
            r@ == self.name(),
    {
        match self {
            Color::Red => "Red",
            Color::Green => "Green",
            Color::Blue => "Blue",
            Color::Yellow => "Yellow",
        }
    }
}

impl core::str::FromStr for Color {
    type Err = &'static str;

    /// Reads a color from the first character of `s`.
    fn from_str(s: &str) -> (r: Result<Color, &'static str>)
        ensures
            r == Color::parsed(s@),
    {
        if s.unicode_len() == 0 {
            return Err("Colors must be one of Y, R, G, or B.");
        }
        match s.get_char(0) {
            'y' | 'Y' => Ok(Color::Yellow),
            'r' | 'R' => Ok(Color::Red),
            'b' | 'B' => Ok(Color::Blue),
            'g' | 'G' => Ok(Color::Green),
            _ => Err("Colors must be one of Y, R, G, or B."),
        }
    }
}

impl Into<char> for Color {
    /// The color's letter.
    fn into(self) -> (r: char) {
        match self {
            Color::Red => 'R',
            Color::Green => 'G',
            Color::Blue => 'B',
            Color::Yellow => 'Y',
        }
    }
}

impl vstd::std_specs::convert::IntoSpecImpl<char> for Color {
    open spec fn obeys_into_spec() -> bool {
        true
    }

    open spec fn into_spec(self) -> char {
        self.code()
    }
}

/// The letter of a color reads back as that color.
pub proof fn lemma_color_code_round_trip(color: Color)
    ensures
        Color::of_char(color.code()) == Some(color),
{
}

} // verus!
