use nelder_mead::cost::cost_ranks;
use nelder_mead::ranking::{calculate_ordering, reorder};

fn ranks(costs: &[f64]) -> Vec<i64> {
    let bits: Vec<u64> = costs.iter().map(|c| c.to_bits()).collect();
    cost_ranks(&bits).unwrap()
}

#[test]
fn test_calculate_ordering() {
    let costs = ranks(&[4.0, 2.0, 1.0, 3.0]);
    assert_eq!(calculate_ordering(&costs), [2, 1, 3, 0]);
}

#[test]
fn test_reorder() {
    let mut simplex = vec![vec![3.0, 4.0], vec![5.0, 6.0], vec![1.0, 2.0]];
    let mut costs = ranks(&[3.0, 1.0, 2.0]);
    reorder(&mut simplex, &mut costs);
    assert_eq!(costs, ranks(&[1.0, 2.0, 3.0]));
    assert_eq!(
        simplex,
        vec![vec![5.0, 6.0], vec![1.0, 2.0], vec![3.0, 4.0]]
    );
}

#[test]
fn ordering_keeps_equal_costs_in_place() {
    let costs = ranks(&[2.0, 1.0, 2.0, 1.0, 0.0]);
    assert_eq!(calculate_ordering(&costs), [4, 1, 3, 0, 2]);
}

#[test]
fn ordering_treats_both_zeros_as_equal() {
    let costs = ranks(&[0.0, -0.0, -1.0]);
    assert_eq!(calculate_ordering(&costs), [2, 0, 1]);
}

#[test]
fn ordering_of_negative_costs() {
    let costs = ranks(&[-1.0, -3.0, 2.5, -2.0]);
    assert_eq!(calculate_ordering(&costs), [1, 3, 0, 2]);
}

#[test]
fn ordering_of_nothing_and_of_one() {
    assert_eq!(calculate_ordering(&vec![]), Vec::<usize>::new());
    assert_eq!(calculate_ordering(&ranks(&[7.0])), [0]);
}

#[test]
fn reorder_returns_the_applied_ordering() {
    let mut items = vec!['a', 'b', 'c', 'd'];
    let mut costs = ranks(&[1.5, 0.5, 1.5, -4.0]);
    let ord = reorder(&mut items, &mut costs);
    assert_eq!(ord, [3, 1, 0, 2]);
    assert_eq!(items, ['d', 'b', 'a', 'c']);
    assert_eq!(costs, ranks(&[-4.0, 0.5, 1.5, 1.5]));
}
