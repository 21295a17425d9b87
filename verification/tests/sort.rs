use orderbook_aggregator::decimal::Decimal;
use orderbook_aggregator::rank::Direction;
use orderbook_aggregator::sort::sort_stable;
use orderbook_aggregator::venue_protocols::Level;

fn level(price: i128, price_scale: u32, qty: i128) -> Level {
    (Decimal::new(price, price_scale).unwrap(), Decimal::new(qty, 0).unwrap())
}

fn quantities(levels: &[Level]) -> Vec<i128> {
    levels.iter().map(|l| l.1.mantissa()).collect()
}

#[test]
fn sort_ascending_orders_integers() {
    let mut v = vec![5, 1, 4, 1, 3, -2];
    sort_stable(&mut v, Direction::Ascending);
    assert_eq!(v, vec![-2, 1, 1, 3, 4, 5]);
}

#[test]
fn sort_descending_orders_integers() {
    let mut v = vec![5, 1, 4, 1, 3, -2];
    sort_stable(&mut v, Direction::Descending);
    assert_eq!(v, vec![5, 4, 3, 1, 1, -2]);
}

#[test]
fn sort_leaves_empty_and_single_alone() {
    let mut v: Vec<i32> = Vec::new();
    sort_stable(&mut v, Direction::Ascending);
    assert!(v.is_empty());
    let mut v = vec![7u64];
    sort_stable(&mut v, Direction::Descending);
    assert_eq!(v, vec![7]);
}

#[test]
fn sort_keeps_levels_at_one_price_in_the_order_sent() {
    // prices 2, 1.0, 3, 1.00, 1 : the three levels at price 1 are ties
    let sent = vec![
        level(2, 0, 10),
        level(10, 1, 11),
        level(3, 0, 12),
        level(100, 2, 13),
        level(1, 0, 14),
    ];
    let mut ascending = sent.clone();
    sort_stable(&mut ascending, Direction::Ascending);
    assert_eq!(quantities(&ascending), vec![11, 13, 14, 10, 12]);

    let mut descending = sent.clone();
    sort_stable(&mut descending, Direction::Descending);
    assert_eq!(quantities(&descending), vec![12, 10, 11, 13, 14]);
}

#[test]
fn sort_of_sorted_input_changes_nothing() {
    let sent = vec![level(1, 0, 1), level(1, 0, 2), level(2, 0, 3), level(5, 1, 4)];
    let mut descending = vec![level(2, 0, 3), level(1, 0, 1), level(1, 0, 2), level(5, 1, 4)];
    sort_stable(&mut descending, Direction::Descending);
    assert_eq!(quantities(&descending), vec![3, 1, 2, 4]);
    let mut ascending = sent.clone();
    sort_stable(&mut ascending, Direction::Ascending);
    assert_eq!(quantities(&ascending), vec![4, 1, 2, 3]);
}
