use workbook::inventory::{Inventory, ShirtColor};

#[test]
fn a_wish_is_granted() {
    let store = Inventory {
        shirts: vec![ShirtColor::Blue, ShirtColor::Red, ShirtColor::Blue],
    };
    assert_eq!(store.giveaway(Some(ShirtColor::Red)), ShirtColor::Red);
    assert_eq!(store.giveaway(Some(ShirtColor::Blue)), ShirtColor::Blue);
}

#[test]
fn without_a_wish_the_fullest_shelf_gives() {
    let store = Inventory {
        shirts: vec![ShirtColor::Blue, ShirtColor::Red, ShirtColor::Blue],
    };
    assert_eq!(store.giveaway(None), ShirtColor::Blue);
    assert_eq!(store.most_stocked(), ShirtColor::Blue);
    let store = Inventory {
        shirts: vec![ShirtColor::Red, ShirtColor::Red, ShirtColor::Blue],
    };
    assert_eq!(store.giveaway(None), ShirtColor::Red);
    assert_eq!(store.most_stocked(), ShirtColor::Red);
}

#[test]
fn blue_wins_a_tie() {
    let store = Inventory {
        shirts: vec![ShirtColor::Red, ShirtColor::Blue],
    };
    assert_eq!(store.most_stocked(), ShirtColor::Blue);
    let store = Inventory { shirts: vec![] };
    assert_eq!(store.most_stocked(), ShirtColor::Blue);
    assert_eq!(store.giveaway(None), ShirtColor::Blue);
}

#[test]
fn a_wish_is_granted_even_from_an_empty_shelf() {
    let store = Inventory { shirts: vec![ShirtColor::Blue] };
    assert_eq!(store.giveaway(Some(ShirtColor::Red)), ShirtColor::Red);
}
