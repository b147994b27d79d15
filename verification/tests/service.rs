use junta::error::{JuntaError, JuntaErrorKind, ServiceError};
use junta::middleware::{
    middleware_fn, AndThen, DeferredExt, FutureResult, Next, NextFuture, ThenService,
};
use junta::middleware_chain::{ChainHandler, MiddlewareChainable};
use junta::service::{check_fn, service_fn, Service};
use junta::service_ext::ServiceExt;

#[test]
fn it_works() {
    assert_eq!(2 + 2, 4);
}

#[test]
fn test_service() {
    let service = service_fn(|_ctx: &str| Result::<i32, String>::Ok(200));
    let out = service.call("Hello, World");
    assert_eq!(out, Ok(200));
}

#[test]
fn test_service_pipe() {
    let s = service_fn(|_input: &str| Ok::<_, ()>(2000i32))
        .pipe(service_fn(|input: i32| Ok::<_, ()>(input + 2)));
    assert_eq!(s.call("Hello, World"), Ok(2002));
}

#[test]
fn service_fn_takes_every_input() {
    let service = service_fn(|n: i32| Ok::<i32, JuntaError>(n));
    assert!(service.should_call(&0));
    assert!(service.should_call(&-7));
}

#[test]
fn pipe_stops_at_the_first_failure() {
    let s = service_fn(|_input: i32| Err::<i32, String>("first".to_string()))
        .pipe(service_fn(|input: i32| Ok::<i32, String>(input + 1)));
    assert_eq!(s.call(1), Err("first".to_string()));
    assert!(s.should_call(&1));
}

fn even(n: &i32) -> bool {
    n % 2 == 0
}

fn small(n: &i32) -> bool {
    *n < 10
}

fn negative(n: &i32) -> bool {
    *n < 0
}

#[test]
fn check_fn_decides_what_the_service_takes() {
    let service = check_fn(even, service_fn(|n: i32| Ok::<i32, JuntaError>(n * 10)));
    assert!(service.should_call(&4));
    assert!(!service.should_call(&5));
    assert_eq!(service.call(4).unwrap(), 40);
    let refused = service.call(5).unwrap_err();
    assert!(matches!(
        refused.kind(),
        JuntaErrorKind::Service(ServiceError::InvalidRequest)
    ));
}

#[test]
fn chain_calls_the_first_service_that_takes_the_input() {
    let chain = check_fn(even, service_fn(|_n: i32| Ok::<&str, JuntaError>("even")))
        .or(check_fn(small, service_fn(|_n: i32| Ok::<&str, JuntaError>("small"))))
        .or(check_fn(negative, service_fn(|_n: i32| Ok::<&str, JuntaError>("negative"))));
    // 4 is even and small: the first wins.
    assert_eq!(chain.call(4).unwrap(), "even");
    // 7 is small only.
    assert_eq!(chain.call(7).unwrap(), "small");
    // -3 is small and negative: the earlier of the two wins.
    assert_eq!(chain.call(-3).unwrap(), "small");
    assert!(chain.should_call(&4));
    assert!(chain.should_call(&7));
}

#[test]
fn chain_without_a_match_is_an_invalid_request() {
    let chain = check_fn(even, service_fn(|_n: i32| Ok::<&str, JuntaError>("even")))
        .or(check_fn(negative, service_fn(|_n: i32| Ok::<&str, JuntaError>("negative"))));
    assert!(!chain.should_call(&11));
    let refused = chain.call(11).unwrap_err();
    assert!(matches!(
        refused.kind(),
        JuntaErrorKind::Service(ServiceError::InvalidRequest)
    ));
    assert_eq!(refused.to_text(), "InvalidRequest");
}

fn forward(input: i32, next: Next<i32, i32, JuntaError>) -> NextFuture<i32, i32, JuntaError> {
    next.call(input + 1)
}

fn double(input: i32, next: Next<i32, i32, JuntaError>) -> NextFuture<i32, i32, JuntaError> {
    next.call(input * 2)
}

fn refuse(_input: i32, _next: Next<i32, i32, JuntaError>) -> FutureResult<i32, i32, JuntaError> {
    FutureResult::new(Ok(-1))
}

#[test]
fn middleware_hands_the_rewritten_input_to_the_service() {
    let handler = middleware_fn(forward).then(service_fn(|n: i32| Ok::<i32, JuntaError>(n * 100)));
    assert_eq!(handler.call(1).unwrap(), 200);
    assert!(handler.should_call(&1));
}

#[test]
fn middleware_that_does_not_call_next_leaves_the_service_uncalled() {
    let calls = std::cell::Cell::new(0);
    let handler = middleware_fn(refuse).then(service_fn(|n: i32| {
        calls.set(calls.get() + 1);
        Ok::<i32, JuntaError>(n)
    }));
    assert_eq!(handler.call(5).unwrap(), -1);
    assert_eq!(calls.get(), 0);
}

#[test]
fn error_of_the_service_is_the_error_of_the_handler() {
    let handler = middleware_fn(forward)
        .then(service_fn(|_n: i32| Err::<i32, JuntaError>(JuntaError::unknown("downstream"))));
    let failed = handler.call(1).unwrap_err();
    assert_eq!(failed.to_text(), "downstream");
}

#[test]
fn stack_enters_the_first_middleware_first() {
    // (1 + 1) * 2 = 4, not 1 * 2 + 1 = 3.
    let handler = middleware_fn(forward)
        .stack(middleware_fn(double))
        .then(service_fn(|n: i32| Ok::<i32, JuntaError>(n)));
    assert_eq!(handler.call(1).unwrap(), 4);
    let handler = middleware_fn(double)
        .stack(middleware_fn(forward))
        .then(service_fn(|n: i32| Ok::<i32, JuntaError>(n)));
    assert_eq!(handler.call(1).unwrap(), 3);
}

#[test]
fn null_future_fails_with_null_future() {
    fn lost(_input: i32, _next: Next<i32, i32, JuntaError>) -> NextFuture<i32, i32, JuntaError> {
        NextFuture::null()
    }
    let handler = middleware_fn(lost).then(service_fn(|n: i32| Ok::<i32, JuntaError>(n)));
    let failed = handler.call(1).unwrap_err();
    assert!(matches!(
        failed.kind(),
        JuntaErrorKind::Service(ServiceError::NullFuture)
    ));
}

#[test]
fn chain_handler_takes_what_the_service_takes() {
    let handler = ChainHandler::new(
        middleware_fn(forward),
        check_fn(even, service_fn(|n: i32| Ok::<i32, JuntaError>(n))),
    );
    assert!(handler.should_call(&2));
    assert!(!handler.should_call(&3));
    // 3 is forwarded as 4, which the service takes.
    assert_eq!(handler.call(3).unwrap(), 4);
}

fn halve(value: i32) -> Result<i32, JuntaError> {
    Ok(value / 2)
}

type Halved = AndThen<NextFuture<i32, i32, JuntaError>, fn(i32) -> Result<i32, JuntaError>>;

fn forward_then_halve(input: i32, next: Next<i32, i32, JuntaError>) -> Halved {
    next.call(input).and_then(halve as fn(i32) -> Result<i32, JuntaError>)
}

#[test]
fn middleware_works_on_the_value_of_the_next_stage() {
    let handler =
        middleware_fn(forward_then_halve).then(service_fn(|n: i32| Ok::<i32, JuntaError>(n + 10)));
    assert_eq!(handler.call(6).unwrap(), 8);
}

#[test]
fn error_of_the_next_stage_is_final() {
    let handler = middleware_fn(forward_then_halve)
        .then(service_fn(|_n: i32| Err::<i32, JuntaError>(JuntaError::unknown("late"))));
    assert_eq!(handler.call(6).unwrap_err().to_text(), "late");
}
