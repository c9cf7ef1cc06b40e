use ddp_router::cursor::order::{find_insertion_point, Order};

#[test]
fn insertion_point_of_an_empty_list() {
    assert_eq!(find_insertion_point(&vec![]), 0);
}

#[test]
fn insertion_point_between_before_and_after() {
    let order = vec![Order::Before, Order::Before, Order::After];
    assert_eq!(find_insertion_point(&order), 2);
}

#[test]
fn insertion_point_at_the_ends() {
    assert_eq!(find_insertion_point(&vec![Order::After, Order::After]), 0);
    assert_eq!(find_insertion_point(&vec![Order::Before, Order::Before]), 2);
}

#[test]
fn insertion_point_is_that_of_the_last_level_document() {
    let order = vec![Order::Before, Order::Level, Order::Level, Order::After];
    assert_eq!(find_insertion_point(&order), 2);
}

#[test]
fn insertion_point_agrees_with_a_binary_search_wherever_that_is_determined() {
    for before in 0..4 {
        for level in 0..2 {
            for after in 0..4 {
                let mut order = vec![Order::Before; before];
                order.extend(vec![Order::Level; level]);
                order.extend(vec![Order::After; after]);
                let expected = order
                    .binary_search_by(|x| match x {
                        Order::Before => std::cmp::Ordering::Less,
                        Order::Level => std::cmp::Ordering::Equal,
                        Order::After => std::cmp::Ordering::Greater,
                    })
                    .unwrap_or_else(|index| index);
                assert_eq!(find_insertion_point(&order), expected);
            }
        }
    }
}
