use nbody::schedule::pair_schedule;

#[test]
fn no_bodies_no_pairs() {
    assert!(pair_schedule(0).is_empty());
}

#[test]
fn lone_body_has_no_pairs() {
    assert!(pair_schedule(1).is_empty());
}

#[test]
fn two_bodies_form_one_pair() {
    assert_eq!(pair_schedule(2), vec![(1, 0)]);
}

#[test]
fn three_bodies_visit_earlier_bodies_in_order() {
    assert_eq!(pair_schedule(3), vec![(1, 0), (2, 0), (2, 1)]);
}

#[test]
fn each_unordered_pair_once() {
    let n: usize = 12;
    let pairs = pair_schedule(n);
    assert_eq!(pairs.len(), n * (n - 1) / 2);
    for a in 0..n {
        for b in 0..n {
            let seen = pairs.iter().filter(|p| **p == (a, b) || **p == (b, a)).count();
            let expected = if a == b { 0 } else { 1 };
            assert_eq!(seen, expected);
        }
    }
}

#[test]
fn pair_forces_cancel_over_all_bodies() {
    let n: usize = 5;
    let mut net = vec![0i64; n];
    for (k, (a, b)) in pair_schedule(n).into_iter().enumerate() {
        let f = (k as i64 + 1) * 3 - 7;
        net[a] += f;
        net[b] -= f;
    }
    assert_eq!(net.iter().sum::<i64>(), 0);
    assert_eq!(net, vec![-14, -31, -30, 1, 74]);
}
