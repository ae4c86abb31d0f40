//! The faces a card can show and their one-character codes.

use vstd::prelude::*;

verus! {

/// What a card shows: a number, an action, or one of the two wild faces.
#[derive(Copy, Clone, PartialEq, Eq, Structural, Debug)]
pub enum Face {
    DrawFour,
    ColorCard,
    DrawTwo,
    Skip,
    Reverse,
    Zero,
    One,
    Two,
    Three,
    Four,
    Five,
    Six,
    Seven,
    Eight,
    Nine,
}

impl Face {
    /// The wild faces, which can be played whatever lies on the discard pile.
    pub open spec fn is_wild(self) -> bool {
        self == Face::DrawFour || self == Face::ColorCard
    }

    /// The face that a character stands for.
    pub open spec fn of_char(ch: char) -> Option<Face> {
        if ch == '0' {
            Some(Face::Zero)
        } else if ch == '1' {
            Some(Face::One)
        } else if ch == '2' {
            Some(Face::Two)
        } else if ch == '3' {
            Some(Face::Three)
        } else if ch == '4' {
            Some(Face::Four)
        } else if ch == '5' {
            Some(Face::Five)
        } else if ch == '6' {
            Some(Face::Six)
        } else if ch == '7' {
            Some(Face::Seven)
        } else if ch == '8' {
            Some(Face::Eight)
        } else if ch == '9' {
            Some(Face::Nine)
        } else if ch == 'S' {
            Some(Face::Skip)
        } else if ch == 'R' {
            Some(Face::Reverse)
        } else if ch == 'D' {
            Some(Face::DrawFour)
        } else if ch == 'T' {
            Some(Face::DrawTwo)
        } else if ch == 'C' {
            Some(Face::ColorCard)
        } else {
            None
        }
    }

    /// The character that stands for the face.
    pub open spec fn code(self) -> char {
        match self {
            Face::DrawFour => 'D',
            Face::ColorCard => 'C',
            Face::Reverse => 'R',
            Face::Skip => 'S',
            Face::DrawTwo => 'T',
            Face::Zero => '0',
            Face::One => '1',
            Face::Two => '2',
            Face::Three => '3',
            Face::Four => '4',
            Face::Five => '5',
            Face::Six => '6',
            Face::Seven => '7',
            Face::Eight => '8',
            Face::Nine => '9',
        }
    }

    /// The face's name as it is shown to the players.
    pub open spec fn name(self) -> Seq<char> {
        match self {
            Face::DrawFour => "Draw Four"@,
            Face::ColorCard => "Wild Card"@,
            Face::DrawTwo => "Draw Two"@,
            Face::Skip => "Skip"@,
            Face::Reverse => "Reverse"@,
            Face::Zero => "Zero"@,
            Face::One => "One"@,
            Face::Two => "Two"@,
            Face::Three => "Three"@,
            Face::Four => "Four"@,
            Face::Five => "Five"@,
            Face::Six => "Six"@,
            Face::Seven => "Seven"@,
            Face::Eight => "Eight"@,
            Face::Nine => "Nine"@,
        }
    }

    /// Reads a face from its character.
    pub fn from(ch: char) -> (r: Option<Face>)
        ensures
            r == Face::of_char(ch),
    {
        match ch {
            '0' => Some(Face::Zero),
            '1' => Some(Face::One),
            '2' => Some(Face::Two),
            '3' => Some(Face::Three),
            '4' => Some(Face::Four),
            '5' => Some(Face::Five),
            '6' => Some(Face::Six),
            '7' => Some(Face::Seven),
            '8' => Some(Face::Eight),
            '9' => Some(Face::Nine),
            'S' => Some(Face::Skip),
            'R' => Some(Face::Reverse),
            'D' => Some(Face::DrawFour),
            'T' => Some(Face::DrawTwo),
            'C' => Some(Face::ColorCard),
            _ => None,
        }
    }

    /// The face's name.
    pub fn label(self) -> (r: &'static str)
        ensures
            r@ == self.name(),
    {
        match self {
            Face::DrawFour => "Draw Four",
            Face::ColorCard => "Wild Card",
            Face::DrawTwo => "Draw Two",
            Face::Skip => "Skip",
            Face::Reverse => "Reverse",
            Face::Zero => "Zero",
            Face::One => "One",
            Face::Two => "Two",
            Face::Three => "Three",
            Face::Four => "Four",
            Face::Five => "Five",
            Face::Six => "Six",
            Face::Seven => "Seven",
            Face::Eight => "Eight",
            Face::Nine => "Nine",
        }
    }
}

impl Into<char> for Face {
    /// The face's character.
    fn into(self) -> (r: char) {
        match self {
            Face::DrawFour => 'D',
            Face::ColorCard => 'C',
            Face::Reverse => 'R',
            Face::Skip => 'S',
            Face::DrawTwo => 'T',
            Face::Zero => '0',
            Face::One => '1',
            Face::Two => '2',
            Face::Three => '3',
            Face::Four => '4',
            Face::Five => '5',
            Face::Six => '6',
            Face::Seven => '7',
            Face::Eight => '8',
            Face::Nine => '9',
        }
    }
}

impl vstd::std_specs::convert::IntoSpecImpl<char> for Face {
    open spec fn obeys_into_spec() -> bool {
        true
    }

    open spec fn into_spec(self) -> char {
        self.code()
    }
}

/// The character of a face reads back as that face.
pub proof fn lemma_face_code_round_trip(face: Face)
    ensures
        Face::of_char(face.code()) == Some(face),
{
}

} // verus!
