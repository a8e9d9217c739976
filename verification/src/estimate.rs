//! The closed set of selectable card values.

use vstd::prelude::*;

verus! {

/// A card value a participant may cast, plus the `Unset` sentinel for
/// "not yet estimated".  The declaration order is the reveal-sort order:
/// `Unset` sorts first, then the question mark, the coffee break card, and
/// the numeric cards in increasing order.
#[derive(Clone, Copy, Debug, PartialEq, Eq, Structural)]
pub enum Estimate {
    Unset,
    QuestionMark,
    Coffe,
    Zero,
    Half,
    One,
    Two,
    Three,
    Five,
    Eight,
    Thirteen,
    Twenty,
    Fourty,
    Hundred,
}

impl Estimate {
    /// Numeric code of each card: `Unset` is -1 and the proper cards count
    /// up from 0 in sort order.
    pub open spec fn rank_spec(self) -> int {
        match self {
            Estimate::Unset => -1,
            Estimate::QuestionMark => 0,
            Estimate::Coffe => 1,
            Estimate::Zero => 2,
            Estimate::Half => 3,
            Estimate::One => 4,
            Estimate::Two => 5,
            Estimate::Three => 6,
            Estimate::Five => 7,
            Estimate::Eight => 8,
            Estimate::Thirteen => 9,
            Estimate::Twenty => 10,
            Estimate::Fourty => 11,
            Estimate::Hundred => 12,
        }
    }

    /// Numeric code of the card, usable as a sort key.
    pub fn to_i32(&self) -> (r: i32)
        ensures
            r == self.rank_spec(),
    {
        match *self {
            Estimate::Unset => -1,
            Estimate::QuestionMark => 0,
            Estimate::Coffe => 1,
            Estimate::Zero => 2,
            Estimate::Half => 3,
            Estimate::One => 4,
            Estimate::Two => 5,
            Estimate::Three => 6,
            Estimate::Five => 7,
            Estimate::Eight => 8,
            Estimate::Thirteen => 9,
            Estimate::Twenty => 10,
            Estimate::Fourty => 11,
            Estimate::Hundred => 12,
        }
    }

    /// The canonical display string of each card.  `Unset` shows as the
    /// empty string.
    pub open spec fn display_spec(self) -> Seq<char> {
        match self {
            Estimate::Unset => ""@,
            Estimate::QuestionMark => "?"@,
            Estimate::Coffe => "☕️"@,
            Estimate::Zero => "0"@,
            Estimate::Half => "0.5"@,
            Estimate::One => "1"@,
            Estimate::Two => "2"@,
            Estimate::Three => "3"@,
            Estimate::Five => "5"@,
            Estimate::Eight => "8"@,
            Estimate::Thirteen => "13"@,
            Estimate::Twenty => "20"@,
            Estimate::Fourty => "40"@,
            Estimate::Hundred => "100"@,
        }
    }

    /// Canonical display-string mapping of the card values.
    pub fn display_string(&self) -> (r: String)
        ensures
            r@ == self.display_spec(),
    {
        match *self {
            Estimate::Unset => "".to_owned(),
            Estimate::QuestionMark => "?".to_owned(),
            Estimate::Coffe => "☕️".to_owned(),
            Estimate::Zero => "0".to_owned(),
            Estimate::Half => "0.5".to_owned(),
            Estimate::One => "1".to_owned(),
            Estimate::Two => "2".to_owned(),
            Estimate::Three => "3".to_owned(),
            Estimate::Five => "5".to_owned(),
            Estimate::Eight => "8".to_owned(),
            Estimate::Thirteen => "13".to_owned(),
            Estimate::Twenty => "20".to_owned(),
            Estimate::Fourty => "40".to_owned(),
            Estimate::Hundred => "100".to_owned(),
        }
    }
}

/// The numeric code identifies the card: distinct cards never share a rank.
pub proof fn lemma_rank_injective(a: Estimate, b: Estimate)
    ensures
        a.rank_spec() == b.rank_spec() ==> a == b,
{
}

} // verus!
