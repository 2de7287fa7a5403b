//! Picking the shoes of one size out of a pile.

use vstd::prelude::*;

verus! {

/// A shoe: its size and what kind it is.
#[derive(PartialEq, Debug)]
pub struct Shoe {
    pub size: u32,
    pub style: String,
}

/// The shoes of a pile that have the given size, in the order of the pile.
pub open spec fn in_size(shoes: Seq<Shoe>, shoe_size: u32) -> Seq<Shoe> {
    shoes.filter(|shoe: Shoe| shoe.size == shoe_size)
}

/// Keeps the shoes of the given size and lets the others go.
pub fn shoes_in_size(shoes: Vec<Shoe>, shoe_size: u32) -> (kept: Vec<Shoe>)
    ensures
        kept@ == in_size(shoes@, shoe_size),
{
    let ghost all = shoes@;
    let mut shoes = shoes;
    let mut found: Vec<Shoe> = Vec::new();
    proof {
        reveal(Seq::filter);
    }
    // Taken from the back, so the finds come out last first.
    while shoes.len() > 0
        invariant
            shoes@.len() <= all.len(),
            shoes@ == all.take(shoes@.len() as int),
            in_size(all, shoe_size) == in_size(shoes@, shoe_size) + found@.reverse(),
        decreases shoes@.len(),
    {
        let ghost before = shoes@;
        let ghost found_before = found@;
        let shoe = shoes.pop().unwrap();
        proof {
            reveal(Seq::filter);
            assert(shoes@ =~= before.drop_last());
            assert(shoes@ =~= all.take(shoes@.len() as int));
        }
        if shoe.size == shoe_size {
            found.push(shoe);
            proof {
                assert(found@.reverse() =~= seq![shoe] + found_before.reverse());
                assert(in_size(before, shoe_size) =~= in_size(shoes@, shoe_size).push(shoe));
                assert(in_size(shoes@, shoe_size).push(shoe) + found_before.reverse() =~= in_size(
                    shoes@,
                    shoe_size,
                ) + found@.reverse());
            }
        }
    }
    proof {
        reveal(Seq::filter);
        assert(in_size(shoes@, shoe_size) =~= Seq::<Shoe>::empty());
        assert(in_size(all, shoe_size) =~= found@.reverse());
    }
    let mut kept: Vec<Shoe> = Vec::new();
    while found.len() > 0
        invariant
            kept@ + found@.reverse() == in_size(all, shoe_size),
        decreases found@.len(),
    {
        let ghost found_before = found@;
        let ghost kept_before = kept@;
        let shoe = found.pop().unwrap();
        kept.push(shoe);
        proof {
            assert(found@ =~= found_before.drop_last());
            assert(found_before.reverse() =~= seq![shoe] + found@.reverse());
            assert(kept@ + found@.reverse() =~= kept_before + found_before.reverse());
        }
    }
    proof {
        assert(kept@ + found@.reverse() =~= kept@);
    }
    kept
}

} // verus!
