use crtime::partition_results;

#[test]
fn partition_splits_successes_from_failures() {
    let results: Vec<Result<u8, &str>> = vec![Ok(1), Err("a"), Ok(2), Err("b"), Err("c"), Ok(3)];
    let (oks, errs) = partition_results(results);
    assert_eq!(oks, [1, 2, 3]);
    assert_eq!(errs, ["a", "b", "c"]);
}

#[test]
fn partition_of_nothing() {
    let results: Vec<Result<u8, u8>> = Vec::new();
    let (oks, errs) = partition_results(results);
    assert!(oks.is_empty());
    assert!(errs.is_empty());
}

#[test]
fn partition_of_successes_only() {
    let results: Vec<Result<u8, u8>> = vec![Ok(3), Ok(1), Ok(2)];
    let (oks, errs) = partition_results(results);
    assert_eq!(oks, [3, 1, 2]);
    assert!(errs.is_empty());
}

#[test]
fn partition_of_failures_only() {
    let results: Vec<Result<u8, u8>> = vec![Err(3), Err(1), Err(2)];
    let (oks, errs) = partition_results(results);
    assert!(oks.is_empty());
    assert_eq!(errs, [3, 1, 2]);
}

#[test]
fn partition_keeps_duplicates() {
    let results: Vec<Result<u8, u8>> = vec![Ok(1), Err(1), Ok(1), Err(1)];
    let (oks, errs) = partition_results(results);
    assert_eq!(oks, [1, 1]);
    assert_eq!(errs, [1, 1]);
}

#[test]
fn partition_loses_and_doubles_nothing() {
    let results: Vec<Result<u32, u32>> =
        (0..50).map(|n| if n % 3 == 0 { Err(n) } else { Ok(n) }).collect();
    let (oks, errs) = partition_results(results);
    assert_eq!(oks.len() + errs.len(), 50);
    let mut all: Vec<u32> = oks.iter().chain(errs.iter()).copied().collect();
    all.sort();
    assert_eq!(all, (0..50).collect::<Vec<u32>>());
    assert!(errs.iter().all(|n| n % 3 == 0));
    assert!(oks.iter().all(|n| n % 3 != 0));
}
