use kvmigrate::make_batches;

fn keys(n: usize) -> Vec<String> {
    (0..n).map(|i| format!("key{}", i)).collect()
}

#[test]
fn two_hundred_fifty_keys_make_three_batches_of_100_100_50() {
    let all = keys(250);
    let batches = make_batches(&all, 100).expect("batch size 100 is valid");
    assert_eq!(batches.len(), 3);
    assert_eq!(batches[0].len(), 100);
    assert_eq!(batches[1].len(), 100);
    assert_eq!(batches[2].len(), 50);
}

#[test]
fn batches_keep_every_key_in_order() {
    let all = keys(7);
    let batches = make_batches(&all, 3).expect("batch size 3 is valid");
    assert_eq!(batches.len(), 3);
    let flat: Vec<String> = batches.into_iter().flatten().collect();
    assert_eq!(flat, all);
}

#[test]
fn an_exact_multiple_leaves_no_short_batch() {
    let all = keys(9);
    let batches = make_batches(&all, 3).expect("batch size 3 is valid");
    assert_eq!(batches.len(), 3);
    for b in &batches {
        assert_eq!(b.len(), 3);
    }
}

#[test]
fn fewer_keys_than_the_batch_size_make_one_batch() {
    let all = keys(2);
    let batches = make_batches(&all, 100).expect("batch size 100 is valid");
    assert_eq!(batches.len(), 1);
    assert_eq!(batches[0].len(), 2);
}

#[test]
fn no_keys_make_no_batches() {
    let all = keys(0);
    let batches = make_batches(&all, 100).expect("batch size 100 is valid");
    assert!(batches.is_empty());
}

#[test]
fn a_batch_size_of_zero_is_a_configuration_error() {
    let all = keys(5);
    assert!(make_batches(&all, 0).is_none());
}
