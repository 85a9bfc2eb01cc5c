//! Cell states and the game's configuration choices.

use vstd::prelude::*;

verus! {

/// What a cell of a board holds.
///
/// `Live` is a ship cell not yet hit and `Space` is open water not yet shot
/// at; the other three are the outcomes of a resolved shot.
#[allow(missing_docs)]
#[derive(Clone, Copy, PartialEq, Eq, Structural, Debug, PartialOrd, Ord, Hash)]
pub enum Status {
    Live,
    Miss,
    Hit,
    Kill,
    Space,
}

/// The character that stands for a status in a textual grid.
pub open spec fn status_char(s: Status) -> char {
    match s {
        Status::Live => '*',
        Status::Miss => '-',
        Status::Hit => 'X',
        Status::Kill => 'K',
        Status::Space => '.',
    }
}

/// The pictogram of a status: a sign for each outcome of a shot, nothing
/// for a cell that was not shot at.
pub open spec fn emoji_of(s: Status) -> Seq<char> {
    match s {
        Status::Live => ""@,
        Status::Miss => "❌"@,
        Status::Hit => "💥"@,
        Status::Kill => "💀"@,
        Status::Space => ""@,
    }
}

/// Whether `c` stands for some status.
pub open spec fn is_status_char(c: char) -> bool {
    c == '*' || c == '-' || c == 'X' || c == 'K' || c == '.'
}

impl Status {
    /// A resolved hit: `Hit` or `Kill`. Such a cell is never overwritten.
    pub open spec fn is_struck(self) -> bool {
        self == Status::Hit || self == Status::Kill
    }

    /// Exec form of [`Status::is_struck`].
    pub fn struck(&self) -> (b: bool)
        ensures
            b == self.is_struck(),
    {
        match *self {
            Status::Hit => true,
            Status::Kill => true,
            _ => false,
        }
    }

    /// The character of this status in a textual grid.
    pub fn as_char(&self) -> (c: char)
        ensures
            c == status_char(*self),
    {
        match *self {
            Status::Live => '*',
            Status::Miss => '-',
            Status::Hit => 'X',
            Status::Kill => 'K',
            Status::Space => '.',
        }
    }

    /// The character of this status as a text of length one.
    pub fn as_text(&self) -> (s: &'static str)
        ensures
            s@ == seq![status_char(*self)],
    {
        proof {
            reveal_strlit("*");
            reveal_strlit("-");
            reveal_strlit("X");
            reveal_strlit("K");
            reveal_strlit(".");
        }
        let s = match *self {
            Status::Live => "*",
            Status::Miss => "-",
            Status::Hit => "X",
            Status::Kill => "K",
            Status::Space => ".",
        };
        assert(s@ =~= seq![status_char(*self)]);
        s
    }

    /// The pictogram shown for a resolved shot; empty for unresolved cells.
    pub fn as_emoji(&self) -> (s: &'static str)
        ensures
            s@ == emoji_of(*self),
    {
        match *self {
            Status::Live => "",
            Status::Miss => "❌",
            Status::Hit => "💥",
            Status::Kill => "💀",
            Status::Space => "",
        }
    }

    /// The status that `c` stands for. Inverse of [`Status::as_char`].
    pub fn from_char(c: char) -> (s: Status)
        requires
            is_status_char(c),
        ensures
            status_char(s) == c,
    {
        match c {
            '*' => Status::Live,
            '-' => Status::Miss,
            'X' => Status::Hit,
            'K' => Status::Kill,
            _ => Status::Space,
        }
    }
}

/// How many shots a volley may hold.
#[derive(Clone, Copy, PartialEq, Eq, Structural, Debug, PartialOrd, Ord)]
pub enum Rule {
    /// One shot per turn.
    Default,
    /// As many shots as the firer has ships afloat.
    SuperCharge,
    /// One shot, and one more for every ship the firer has on record as sunk.
    Desperation,
}

impl Rule {
    /// The rule's name.
    pub fn name(&self) -> (s: &'static str)
        ensures
            s@ == match *self {
                Rule::Default => "Default"@,
                Rule::SuperCharge => "SuperCharge"@,
                Rule::Desperation => "Desperation"@,
            },
    {
        match *self {
            Rule::Default => "Default",
            Rule::SuperCharge => "SuperCharge",
            Rule::Desperation => "Desperation",
        }
    }
}

/// How the computer picks its targets.
#[derive(Clone, Copy, PartialEq, Eq, Structural, Debug, PartialOrd, Ord)]
pub enum Difficulty {
    /// Every shot is drawn uniformly over the whole grid.
    Easy,
    /// Every shot goes to the top-left cell. The name is kept for a
    /// strategy that learns from earlier hits, which this library does not
    /// have.
    Hard,
}

impl Difficulty {
    /// The name of this way of playing.
    pub fn name(&self) -> (s: &'static str)
        ensures
            s@ == match *self {
                Difficulty::Easy => "Easy"@,
                Difficulty::Hard => "Hard"@,
            },
    {
        match *self {
            Difficulty::Easy => "Easy",
            Difficulty::Hard => "Hard",
        }
    }
}

} // verus!
