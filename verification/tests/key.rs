use essential_node::key::{next_key, next_key_or_wrapped};

#[test]
fn next_key_increments_last_word() {
    assert_eq!(next_key(vec![0, 0, 5]), Some(vec![0, 0, 6]));
    assert_eq!(next_key(vec![-1]), Some(vec![0]));
}

#[test]
fn next_key_carries_into_earlier_words() {
    assert_eq!(next_key(vec![3, i64::MAX]), Some(vec![4, i64::MIN]));
    assert_eq!(
        next_key(vec![1, i64::MAX, i64::MAX]),
        Some(vec![2, i64::MIN, i64::MIN])
    );
}

#[test]
fn next_key_of_the_last_key_is_none() {
    assert_eq!(next_key(vec![i64::MAX, i64::MAX]), None);
    assert_eq!(next_key(vec![]), None);
}

#[test]
fn next_key_or_wrapped_wraps_to_the_first_key() {
    assert_eq!(next_key_or_wrapped(vec![i64::MAX, i64::MAX]), Err(vec![i64::MIN, i64::MIN]));
    assert_eq!(next_key_or_wrapped(vec![7]), Ok(vec![8]));
}

#[test]
fn next_key_steps_through_every_key_in_order() {
    // Stepping from [MAX - 1, MAX - 1] visits the three keys after it, then runs out.
    let mut key = vec![i64::MAX - 1, i64::MAX - 1];
    let mut seen = vec![];
    while let Some(next) = next_key(key.clone()) {
        assert!(next > key);
        seen.push(next.clone());
        key = next;
        if seen.len() > 10 {
            break;
        }
    }
    assert_eq!(
        seen,
        vec![
            vec![i64::MAX - 1, i64::MAX],
            vec![i64::MAX, i64::MIN],
            vec![i64::MAX, i64::MIN + 1],
        ]
        .into_iter()
        .chain((0..8).map(|i| vec![i64::MAX, i64::MIN + 2 + i]))
        .collect::<Vec<_>>()
    );
}
