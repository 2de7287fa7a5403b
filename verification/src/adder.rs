//! Small arithmetic helpers, a rectangle containment test and a bounded guess.

use vstd::prelude::*;

verus! {

/// The sum of two numbers.
pub fn add(left: u64, right: u64) -> (sum: u64)
    requires
        left + right <= u64::MAX,
    ensures
        sum == left + right,
{
    left + right
}

/// The number two above `a`.
pub fn add_two(a: usize) -> (sum: usize)
    requires
        a + 2 <= usize::MAX,
    ensures
        sum == a + 2,
{
    a + 2
}

/// The fixed greeting that `greeting` hands out, whatever the name.
pub open spec fn greeting_text() -> Seq<char> {
    "Hello!"@
}

/// Greets: the text is always `Hello!`, and the name does not appear in it.
pub fn greeting(name: &str) -> (text: String)
    ensures
        text@ == greeting_text(),
{
    "Hello!".to_owned()
}

/// An axis-aligned rectangle given by its two side lengths.
#[derive(Debug)]
pub struct Rectangle {
    pub width: u32,
    pub height: u32,
}

impl Rectangle {
    /// A rectangle fits inside this one when it is strictly smaller in both dimensions.
    pub open spec fn holds(self, other: Rectangle) -> bool {
        self.width > other.width && self.height > other.height
    }

    /// Whether `other` fits strictly inside `self`.
    pub fn can_hold(&self, other: &Rectangle) -> (fits: bool)
        ensures
            fits == self.holds(*other),
    {
        self.width > other.width && self.height > other.height
    }
}

/// A guess that is known to lie between 1 and 100.
pub struct Guess {
    value: i32,
}

impl Guess {
    /// The range of values a guess may hold.
    pub open spec fn in_range(value: int) -> bool {
        1 <= value <= 100
    }

    /// The number held by the guess.
    pub closed spec fn view(&self) -> int {
        self.value as int
    }

    #[verifier::type_invariant]
    spec fn within(&self) -> bool {
        Self::in_range(self.value as int)
    }

    /// Builds a guess from a value between 1 and 100.
    pub fn new(value: i32) -> (guess: Guess)
        requires
            Self::in_range(value as int),
        ensures
            guess@ == value,
    {
        Guess { value }
    }

    /// The number held by the guess, which lies between 1 and 100.
    pub fn value(&self) -> (value: i32)
        ensures
            value == self@,
            Self::in_range(value as int),
    {
        proof {
            use_type_invariant(self);
        }
        self.value
    }
}

} // verus!
