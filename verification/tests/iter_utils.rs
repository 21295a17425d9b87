use std::cmp::Ordering;

use orderbook_aggregator::iter_utils::{Either, OrderedChain, OrderedChainExt};

fn merged<'a>(a: &'a [i32], b: &'a [i32], cmp: Ordering) -> Vec<Either<&'a i32, &'a i32>> {
    OrderedChain::new(a, b, cmp).collect()
}

fn tagged(items: &[Either<&i32, &i32>]) -> Vec<(char, i32)> {
    items
        .iter()
        .map(|item| match item {
            Either::Left(x) => ('L', **x),
            Either::Right(x) => ('R', **x),
        })
        .collect()
}

#[test]
fn test_same_length_and_less_then() {
    let a = vec![1, 3, 5];
    let b = vec![2, 4, 6];

    let it = OrderedChain::new(&a, &b, Ordering::Less)
        .collect()
        .into_iter()
        .map(|f| f.into_inner());
    let expected = vec![1, 2, 3, 4, 5, 6];

    assert_eq!(it.cmp(expected.iter()), Ordering::Equal);
}

#[test]
fn test_a_shorter_length_and_less_then() {
    let a = vec![1, 3];
    let b = vec![2, 4, 5, 6];

    let it = OrderedChain::new(&a, &b, Ordering::Less)
        .collect()
        .into_iter()
        .map(|f| f.into_inner());
    let expected = vec![1, 2, 3, 4, 5, 6];

    assert_eq!(it.cmp(expected.iter()), Ordering::Equal);
}

#[test]
fn test_b_shorter_length_and_less_then() {
    let a = vec![1, 3, 5, 6];
    let b = vec![2, 4];

    let it = OrderedChain::new(&a, &b, Ordering::Less)
        .collect()
        .into_iter()
        .map(|f| f.into_inner());
    let expected = vec![1, 2, 3, 4, 5, 6];

    assert_eq!(it.cmp(expected.iter()), Ordering::Equal);
}

#[test]
fn test_same_length_and_greater_then() {
    let a = vec![5, 3, 1];
    let b = vec![6, 4, 2];

    let it = OrderedChain::new(&a, &b, Ordering::Greater)
        .collect()
        .into_iter()
        .map(|f| f.into_inner());
    let expected = vec![6, 5, 4, 3, 2, 1];

    assert_eq!(it.cmp(expected.iter()), Ordering::Equal);
}

#[test]
fn test_a_shorter_length_and_greater_then() {
    let a = vec![5, 3];
    let b = vec![6, 4, 2, 1];

    let it = OrderedChain::new(&a, &b, Ordering::Greater)
        .collect()
        .into_iter()
        .map(|f| f.into_inner());
    let expected = vec![6, 5, 4, 3, 2, 1];

    assert_eq!(it.cmp(expected.iter()), Ordering::Equal);
}

#[test]
fn test_b_shorter_length_and_greater_then() {
    let a = vec![5, 3, 2, 1];
    let b = vec![6, 4];

    let it = OrderedChain::new(&a, &b, Ordering::Greater)
        .collect()
        .into_iter()
        .map(|f| f.into_inner());
    let expected = vec![6, 5, 4, 3, 2, 1];

    assert_eq!(it.cmp(expected.iter()), Ordering::Equal);
}

#[test]
fn ascending_merge_tags_each_item_with_its_side() {
    let items = merged(&[1, 3, 5], &[2, 4, 6], Ordering::Less);
    assert_eq!(
        tagged(&items),
        vec![('L', 1), ('R', 2), ('L', 3), ('R', 4), ('L', 5), ('R', 6)]
    );
}

#[test]
fn ascending_merge_drains_the_longer_side() {
    let items = merged(&[1, 3], &[2, 4, 5, 6], Ordering::Less);
    assert_eq!(
        tagged(&items),
        vec![('L', 1), ('R', 2), ('L', 3), ('R', 4), ('R', 5), ('R', 6)]
    );
}

#[test]
fn descending_merge_tags_each_item_with_its_side() {
    let items = merged(&[5, 3, 2, 1], &[6, 4], Ordering::Greater);
    assert_eq!(
        tagged(&items),
        vec![('R', 6), ('L', 5), ('R', 4), ('L', 3), ('L', 2), ('L', 1)]
    );
}

#[test]
fn tie_goes_to_the_second_sequence() {
    let a = [5];
    let b = [5];
    let mut ascending = OrderedChain::new(&a, &b, Ordering::Less);
    assert_eq!(ascending.next(), Some(Either::Right(&5)));
    assert_eq!(ascending.next(), Some(Either::Left(&5)));
    assert_eq!(ascending.next(), None);

    let mut descending = OrderedChain::new(&a, &b, Ordering::Greater);
    assert_eq!(descending.next(), Some(Either::Right(&5)));
    assert_eq!(descending.next(), Some(Either::Left(&5)));
    assert_eq!(descending.next(), None);
}

#[test]
fn next_pulls_one_item_at_a_time() {
    let a = [1, 4];
    let b = [2, 3];
    let mut chain = OrderedChain::new(&a, &b, Ordering::Less);
    assert_eq!(chain.next(), Some(Either::Left(&1)));
    assert_eq!(chain.next(), Some(Either::Right(&2)));
    assert_eq!(chain.next(), Some(Either::Right(&3)));
    assert_eq!(chain.next(), Some(Either::Left(&4)));
    assert_eq!(chain.next(), None);
    assert_eq!(chain.next(), None);
}

#[test]
fn collect_after_next_yields_what_is_left() {
    let a = [1, 4];
    let b = [2, 3];
    let mut chain = OrderedChain::new(&a, &b, Ordering::Less);
    assert_eq!(chain.next(), Some(Either::Left(&1)));
    assert_eq!(tagged(&chain.collect()), vec![('R', 2), ('R', 3), ('L', 4)]);
}

#[test]
fn empty_inputs_merge_to_nothing() {
    let empty: [i32; 0] = [];
    assert!(merged(&empty, &empty, Ordering::Less).is_empty());
    assert_eq!(tagged(&merged(&[7], &empty, Ordering::Less)), vec![('L', 7)]);
    assert_eq!(tagged(&merged(&empty, &[7], Ordering::Greater)), vec![('R', 7)]);
}

#[test]
fn ordered_chain_on_a_vec_or_a_slice_is_new() {
    let a = vec![1, 3, 5];
    let b = vec![2, 4, 6];
    let from_vec = (&a).ordered_chain(&b, Ordering::Less).collect();
    let from_slice = a.as_slice().ordered_chain(&b, Ordering::Less).collect();
    let direct = merged(&a, &b, Ordering::Less);
    assert_eq!(tagged(&from_vec), tagged(&direct));
    assert_eq!(tagged(&from_slice), tagged(&direct));
}

#[test]
fn merge_of_sorted_inputs_is_sorted_and_keeps_every_item() {
    let a = [-4, -4, 0, 2, 2, 9];
    let b = [-7, -4, 1, 2, 10, 10, 11];
    let items = merged(&a, &b, Ordering::Less);
    let values: Vec<i32> = items.into_iter().map(|f| *f.into_inner()).collect();
    assert!(values.windows(2).all(|w| w[0] <= w[1]));
    let mut expected: Vec<i32> = a.iter().chain(b.iter()).copied().collect();
    expected.sort();
    assert_eq!(values, expected);

    let a = [9, 2, 2, 0, -4, -4];
    let b = [11, 10, 10, 2, 1, -4, -7];
    let items = merged(&a, &b, Ordering::Greater);
    let values: Vec<i32> = items.into_iter().map(|f| *f.into_inner()).collect();
    assert!(values.windows(2).all(|w| w[0] >= w[1]));
    expected.reverse();
    assert_eq!(values, expected);
}

#[test]
fn into_inner_drops_the_side() {
    let left: Either<i32, i32> = Either::Left(3);
    let right: Either<i32, i32> = Either::Right(4);
    assert_eq!(left.into_inner(), 3);
    assert_eq!(right.into_inner(), 4);
}

#[test]
fn ordered_chain_merges_descending_too() {
    let a = vec![5, 3, 1];
    let b = vec![6, 4, 2];
    let items = (&a).ordered_chain(&b, Ordering::Greater).collect();
    assert_eq!(
        tagged(&items),
        vec![('R', 6), ('L', 5), ('R', 4), ('L', 3), ('R', 2), ('L', 1)]
    );
}
