//! The names under which a renderer knows the entities.

use crate::decimal::{decimal_digits, decimal_text, digit_char, digits_of};
use crate::scene::{EntityId, Tag};
use vstd::prelude::*;
use vstd::string::StringExecFns;

verus! {

impl EntityId {
    /// The name of the entity: that of its kind, followed for pipes,
    /// ground segments and glyphs by the index or slot in decimal notation.
    pub open spec fn label(self) -> Seq<char> {
        match self {
            EntityId::Background => "background"@,
            EntityId::Bird => "flappybird"@,
            EntityId::Base(slot) => "base"@ + decimal_text(slot as nat),
            EntityId::TopPipe(index) => "toppipe_"@ + decimal_text(index as nat),
            EntityId::BottomPipe(index) => "bottompipe_"@ + decimal_text(index as nat),
            EntityId::ScoreDigit(slot) => "score_digit_"@ + decimal_text(slot as nat),
        }
    }

    /// The name of the entity.
    pub fn name(&self) -> (name: String)
        ensures
            name@ == self.label(),
    {
        match *self {
            EntityId::Background => String::from_str("background"),
            EntityId::Bird => String::from_str("flappybird"),
            EntityId::Base(slot) => numbered("base", slot as usize),
            EntityId::TopPipe(index) => numbered("toppipe_", index as usize),
            EntityId::BottomPipe(index) => numbered("bottompipe_", index as usize),
            EntityId::ScoreDigit(slot) => numbered("score_digit_", slot as usize),
        }
    }
}

impl Tag {
    /// The name of the tag.
    pub open spec fn label(self) -> Seq<char> {
        match self {
            Tag::Background => "background"@,
            Tag::Player => "player"@,
            Tag::FlyingBird => "flyingbird"@,
            Tag::Ground => "ground"@,
            Tag::Obstacle => "obstacle"@,
            Tag::Pipe => "pipe"@,
            Tag::Score => "score"@,
        }
    }

    /// The name of the tag.
    pub fn name(&self) -> (name: &'static str)
        ensures
            name@ == self.label(),
    {
        match *self {
            Tag::Background => "background",
            Tag::Player => "player",
            Tag::FlyingBird => "flyingbird",
            Tag::Ground => "ground",
            Tag::Obstacle => "obstacle",
            Tag::Pipe => "pipe",
            Tag::Score => "score",
        }
    }
}

/// `prefix` followed by `number` in decimal notation.
fn numbered(prefix: &str, number: usize) -> (name: String)
    ensures
        name@ == prefix@ + decimal_text(number as nat),
{
    let digits = decimal_digits(number);
    let mut name = String::from_str(prefix);
    let mut place: usize = 0;
    while place < digits.len()
        invariant
            place <= digits@.len(),
            digits@ == digits_of(number as nat),
            forall|at: int| 0 <= at < digits@.len() ==> digits@[at] < 10,
            name@ == prefix@ + decimal_text(number as nat).take(place as int),
        decreases digits@.len() - place,
    {
        name.append(digit_text(digits[place]));
        assert(name@ =~= prefix@ + decimal_text(number as nat).take(place + 1));
        place += 1;
    }
    assert(decimal_text(number as nat).take(place as int) =~= decimal_text(number as nat));
    name
}

/// The one-character text of a decimal digit.
fn digit_text(digit: u8) -> (text: &'static str)
    requires
        digit < 10,
    ensures
        text@ == seq![digit_char(digit)],
{
    proof {
        reveal_strlit("0");
        reveal_strlit("1");
        reveal_strlit("2");
        reveal_strlit("3");
        reveal_strlit("4");
        reveal_strlit("5");
        reveal_strlit("6");
        reveal_strlit("7");
        reveal_strlit("8");
        reveal_strlit("9");
    }
    let text = if digit == 0 {
        "0"
    } else if digit == 1 {
        "1"
    } else if digit == 2 {
        "2"
    } else if digit == 3 {
        "3"
    } else if digit == 4 {
        "4"
    } else if digit == 5 {
        "5"
    } else if digit == 6 {
        "6"
    } else if digit == 7 {
        "7"
    } else if digit == 8 {
        "8"
    } else {
        "9"
    };
    assert(text@ =~= seq![digit_char(digit)]);
    text
}

} // verus!
