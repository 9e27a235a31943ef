use lspi_lsp::delay::Delay;
use lspi_lsp::protocol::{FileRequest, LspPosition, Query, Step};
use lspi_lsp::retry::{PrepareRetry, Retry, RetryPolicy};

fn symbols(warmup: Delay) -> Retry<u32, &'static str> {
    Retry::new(
        FileRequest { file: b"a.ts".to_vec(), query: Query::DocumentSymbols },
        RetryPolicy::Symbols { warmup },
    )
}

fn locations() -> Retry<u32, &'static str> {
    let position = LspPosition { line: 1, character: 2 };
    Retry::new(
        FileRequest { file: b"a.ts".to_vec(), query: Query::Definition { position } },
        RetryPolicy::Locations,
    )
}

type Run<T> = (Vec<Vec<Delay>>, Option<T>);

fn run(
    mut retry: Retry<u32, &'static str>,
    replies: Vec<Result<Vec<u32>, &'static str>>,
) -> Run<Result<Vec<u32>, &'static str>> {
    let mut waited = Vec::new();
    for reply in replies {
        match retry.resume(reply) {
            Step::Again { waits, op } => {
                waited.push(waits);
                retry = op;
            }
            Step::Done { waits, result } => {
                waited.push(waits);
                return (waited, Some(result));
            }
        }
    }
    (waited, None)
}

fn millis(millis: u64) -> Vec<Delay> {
    vec![Delay::from_millis(millis)]
}

#[test]
fn first_list_that_is_not_empty_is_the_answer() {
    let (waited, result) = run(locations(), vec![Ok(vec![]), Err("busy"), Ok(vec![7, 8])]);
    assert_eq!(result, Some(Ok(vec![7, 8])));
    assert_eq!(waited, vec![millis(200), vec![], vec![]]);
}

#[test]
fn locations_are_given_up_after_three_replies() {
    let (waited, result) = run(locations(), vec![Ok(vec![]), Ok(vec![]), Ok(vec![])]);
    assert_eq!(result, Some(Ok(vec![])));
    assert_eq!(waited, vec![millis(200), millis(400), millis(600)]);
    let (_, result) = run(locations(), vec![Ok(vec![]), Ok(vec![])]);
    assert_eq!(result, None);
}

#[test]
fn last_error_is_reported_even_before_empty_lists() {
    let (waited, result) = run(locations(), vec![Err("first"), Err("second"), Ok(vec![])]);
    assert_eq!(result, Some(Err("second")));
    assert_eq!(waited, vec![vec![], vec![], millis(600)]);
}

#[test]
fn symbols_are_given_up_after_ten_replies() {
    let warmup = Delay { nanos: 5 };
    let (waited, result) = run(symbols(warmup), vec![Ok(vec![]); 10]);
    assert_eq!(result, Some(Ok(vec![])));
    let mut expected = vec![vec![warmup, Delay::from_millis(200)]];
    for wait in [400, 600, 800, 1000, 1000, 1000, 1000, 1000, 1000] {
        expected.push(millis(wait));
    }
    assert_eq!(waited, expected);
    let total: u128 = waited.iter().flatten().map(|delay| delay.nanos).sum();
    assert_eq!(total, 5 + 8_000_000_000);
}

#[test]
fn symbol_waits_count_empty_lists_only() {
    let warmup = Delay { nanos: 5 };
    let (waited, result) =
        run(symbols(warmup), vec![Err("busy"), Ok(vec![]), Err("busy"), Ok(vec![]), Ok(vec![3])]);
    assert_eq!(result, Some(Ok(vec![3])));
    assert_eq!(waited, vec![vec![], millis(200), vec![], millis(400), vec![]]);
}

#[test]
fn no_warmup_is_not_waited_for() {
    let (waited, _) = run(symbols(Delay { nanos: 0 }), vec![Ok(vec![])]);
    assert_eq!(waited, vec![millis(200)]);
}

#[test]
fn request_stays_the_same() {
    let retry = locations();
    let position = LspPosition { line: 1, character: 2 };
    let expected = FileRequest { file: b"a.ts".to_vec(), query: Query::Definition { position } };
    assert_eq!(*retry.request(), expected);
    match retry.resume(Ok(vec![])) {
        Step::Again { op, .. } => assert_eq!(*op.request(), expected),
        Step::Done { .. } => panic!("gave up"),
    }
}

#[test]
fn call_hierarchy_takes_the_first_reply_that_is_no_error() {
    let position = LspPosition { line: 0, character: 0 };
    let request = || FileRequest { file: vec![], query: Query::PrepareCallHierarchy { position } };
    let mut retry: PrepareRetry<Vec<u32>, &str> = PrepareRetry::new(request());
    for (reply, wait) in [("first", 200), ("second", 400)] {
        match retry.resume(Err(reply)) {
            Step::Again { waits, op } => {
                assert_eq!(waits, millis(wait));
                retry = op;
            }
            Step::Done { .. } => panic!("gave up"),
        }
    }
    // An empty answer is an answer.
    match retry.resume(Ok(vec![])) {
        Step::Done { waits, result } => {
            assert_eq!(waits, vec![]);
            assert_eq!(result, Ok(vec![]));
        }
        Step::Again { .. } => panic!("went on"),
    }
}

#[test]
fn call_hierarchy_fails_with_the_third_error() {
    let position = LspPosition { line: 0, character: 0 };
    let request = FileRequest { file: vec![], query: Query::PrepareCallHierarchy { position } };
    let mut retry: PrepareRetry<u32, u32> = PrepareRetry::new(request);
    for error in [1, 2] {
        match retry.resume(Err(error)) {
            Step::Again { op, .. } => retry = op,
            Step::Done { .. } => panic!("gave up"),
        }
    }
    match retry.resume(Err(3)) {
        Step::Done { waits, result } => {
            assert_eq!(waits, millis(600));
            assert_eq!(result, Err(3));
        }
        Step::Again { .. } => panic!("went on"),
    }
}

#[test]
fn delays_are_counted_in_nanoseconds() {
    assert_eq!(Delay::from_millis(u64::MAX).nanos, u64::MAX as u128 * 1_000_000);
    assert!(Delay::from_millis(0).is_zero());
    assert!(!Delay { nanos: 1 }.is_zero());
}
