use workbook::shoes::{shoes_in_size, Shoe};

#[test]
fn filters_by_size() {
    let shoes = vec![
        Shoe {
            size: 10,
            style: String::from("sneaker"),
        },
        Shoe {
            size: 13,
            style: String::from("sandal"),
        },
        Shoe {
            size: 10,
            style: String::from("boot"),
        },
    ];
    let in_my_size = shoes_in_size(shoes, 10);

    assert_eq!(
        in_my_size,
        vec![
            Shoe {
                size: 10,
                style: String::from("sneaker"),
            },
            Shoe {
                size: 10,
                style: String::from("boot")
            }
        ]
    )
}

#[test]
fn no_shoe_of_that_size() {
    let shoes = vec![Shoe { size: 9, style: String::from("clog") }];
    assert!(shoes_in_size(shoes, 10).is_empty());
    assert!(shoes_in_size(Vec::new(), 10).is_empty());
}

#[test]
fn all_shoes_of_that_size_stay_in_order() {
    let styles = ["a", "b", "c", "d", "e"];
    let shoes: Vec<Shoe> = styles
        .iter()
        .map(|style| Shoe { size: 7, style: style.to_string() })
        .collect();
    let kept = shoes_in_size(shoes, 7);
    let kept_styles: Vec<&str> = kept.iter().map(|shoe| shoe.style.as_str()).collect();
    assert_eq!(kept_styles, styles);
}
