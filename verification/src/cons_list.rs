//! A list built from pairs: each link holds a number and the rest of the list.

use vstd::prelude::*;

verus! {

/// A list of numbers: a number and the list that follows it, or the end.
#[derive(Debug)]
pub enum List {
    Cons(i32, Box<List>),
    Nil,
}

impl List {
    /// The numbers of the list, the first one first.
    pub open spec fn view(&self) -> Seq<i32>
        decreases self,
    {
        match self {
            List::Cons(value, rest) => seq![*value] + rest.view(),
            List::Nil => Seq::empty(),
        }
    }

    /// The list that follows the first number; `None` at the end of the list.
    pub fn tail(&self) -> (rest: Option<&List>)
        ensures
            self is Nil <==> rest is None,
            self matches List::Cons(_, next) ==> rest == Some(&**next),
            rest matches Some(list) ==> list@ == self@.drop_first(),
    {
        match self {
            List::Cons(_, item) => {
                assert((seq![self->Cons_0] + item.view()).drop_first() =~= item.view());
                Some(&**item)
            },
            List::Nil => None,
        }
    }
}

} // verus!
