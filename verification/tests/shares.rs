use aura::shares::share_out;

#[test]
fn shares_lose_nothing_of_the_total() {
    // exact quotients are not touched
    assert_eq!(share_out(&vec![10, 20, 30], 10), vec![1, 2, 3]);
    assert_eq!(share_out(&vec![0, 0, 0], 5), vec![0, 0, 0]);
    assert_eq!(share_out(&Vec::new(), 5), Vec::<u32>::new());
    // ten thirds: the first inexact quotient is rounded up
    assert_eq!(share_out(&vec![1, 1, 1], 3), vec![1, 0, 0]);
    assert_eq!(share_out(&vec![10, 10, 10], 3), vec![4, 3, 3]);
    // an exact quotient between inexact ones stays as it is
    assert_eq!(share_out(&vec![5, 6, 5, 5], 3), vec![2, 2, 2, 1]);
    // what is lost is less than a unit: nothing is rounded up
    assert_eq!(share_out(&vec![1, 0, 0], 3), vec![0, 0, 0]);
    assert_eq!(share_out(&vec![2, 2], 3), vec![1, 0]);
    assert_eq!(share_out(&vec![7], 1), vec![7]);
    for (sums, n) in [
        (vec![1u128, 2, 3, 4, 5, 6, 7], 4u128),
        (vec![999, 1, 0, 5, 5, 5, 5], 7),
        (vec![3_000_000_000, 1, 2], 3),
        (vec![4_294_967_295, 4_294_967_295], 2),
    ] {
        let shares = share_out(&sums, n);
        let total: u128 = shares.iter().map(|s| u128::from(*s)).sum();
        assert_eq!(total, sums.iter().sum::<u128>() / n);
        for (share, sum) in shares.iter().zip(sums.iter()) {
            let share = u128::from(*share);
            assert!(share == sum / n || (sum % n != 0 && share == sum / n + 1));
        }
    }
}
