//! A stock of shirts and the rule by which one is given away.

use vstd::prelude::*;

verus! {

/// The colours that shirts come in.
#[derive(Debug, PartialEq, Eq, Structural, Copy, Clone)]
pub enum ShirtColor {
    Red,
    Blue,
}

/// The shirts in stock.
pub struct Inventory {
    pub shirts: Vec<ShirtColor>,
}

/// How many shirts of one colour a stock holds.
pub open spec fn count_of(shirts: Seq<ShirtColor>, color: ShirtColor) -> nat {
    shirts.filter(|shirt: ShirtColor| shirt == color).len()
}

/// The colour that a stock holds most of; blue where neither is ahead.
pub open spec fn most_stocked_of(shirts: Seq<ShirtColor>) -> ShirtColor {
    if count_of(shirts, ShirtColor::Red) > count_of(shirts, ShirtColor::Blue) {
        ShirtColor::Red
    } else {
        ShirtColor::Blue
    }
}

impl Inventory {
    /// The shirt that a user gets: the colour they asked for, or the colour that is
    /// most in stock where they asked for none.
    pub fn giveaway(&self, user_preference: Option<ShirtColor>) -> (given: ShirtColor)
        ensures
            given == match user_preference {
                Some(color) => color,
                None => most_stocked_of(self.shirts@),
            },
    {
        match user_preference {
            Some(color) => color,
            None => self.most_stocked(),
        }
    }

    /// The colour that is most in stock; blue where neither is ahead.
    pub fn most_stocked(&self) -> (color: ShirtColor)
        ensures
            color == most_stocked_of(self.shirts@),
    {
        let mut num_red: usize = 0;
        let mut num_blue: usize = 0;
        let mut i: usize = 0;
        proof {
            reveal(Seq::filter);
            assert(self.shirts@.take(0) =~= Seq::<ShirtColor>::empty());
        }
        while i < self.shirts.len()
            invariant
                0 <= i <= self.shirts@.len(),
                num_red == count_of(self.shirts@.take(i as int), ShirtColor::Red),
                num_blue == count_of(self.shirts@.take(i as int), ShirtColor::Blue),
                num_red + num_blue == i,
            decreases self.shirts@.len() - i,
        {
            proof {
                reveal(Seq::filter);
                assert(self.shirts@.take(i + 1).drop_last() =~= self.shirts@.take(i as int));
            }
            match self.shirts[i] {
                ShirtColor::Red => num_red += 1,
                ShirtColor::Blue => num_blue += 1,
            }
            i += 1;
        }
        proof {
            assert(self.shirts@.take(i as int) =~= self.shirts@);
        }
        if num_red > num_blue {
            ShirtColor::Red
        } else {
            ShirtColor::Blue
        }
    }
}

} // verus!
