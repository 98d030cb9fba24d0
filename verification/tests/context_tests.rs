use std::cell::RefCell;
use std::fmt::Display;
use std::sync::Arc;

use with_async_context::context::{
    context_as_string, execute_with_async_context, from_context, from_context_mut,
    try_execute_with_async_context, try_from_context_mut, AsyncContext, ContextState, PollOutcome,
};

/// Runs one poll of `ac`: `body` stands for the poll of the wrapped future.
fn poll_once<C, T>(
    ac: &mut AsyncContext<C>,
    state: &mut ContextState<C>,
    body: impl FnOnce(&mut ContextState<C>) -> PollOutcome<T>,
) -> PollOutcome<(T, C)> {
    assert!(ac.is_waiting());
    ac.begin_poll(state);
    let outcome = body(state);
    ac.finish_poll(state, outcome)
}

fn ready<T, C>(r: PollOutcome<(T, C)>) -> (T, C) {
    match r {
        PollOutcome::Ready(v) => v,
        PollOutcome::Pending => panic!("the future did not finish"),
    }
}

#[test]
fn test_basic_context() {
    let mut state = ContextState::new();
    let mut ac = execute_with_async_context(&state, "foobar".to_string());
    let r = poll_once(&mut ac, &mut state, |s| {
        PollOutcome::Ready(from_context(s, |value: Option<&String>| value.unwrap().clone()))
    });
    let (value, ctx) = ready(r);
    assert_eq!("foobar", value);
    assert_eq!("foobar", &ctx);
}

#[derive(Debug)]
struct IntWrapper(RefCell<i32>);

impl Display for IntWrapper {
    fn fmt(&self, f: &mut std::fmt::Formatter<'_>) -> std::fmt::Result {
        f.write_str(&self.0.borrow().to_string())
    }
}

#[test]
fn test_mutable_context() {
    let mut state = ContextState::new();
    let mut ac = execute_with_async_context(&state, IntWrapper(RefCell::new(10)));
    let r = poll_once(&mut ac, &mut state, |s| {
        PollOutcome::Ready(from_context(s, |value: Option<&IntWrapper>| {
            let val = value.unwrap();
            *val.0.borrow_mut() += 5;
            let v = *val.0.borrow();
            v
        }))
    });
    let (value, ctx) = ready(r);
    assert_eq!(15, value);
    assert_eq!("15", ctx.to_string());
}

#[derive(Debug, Clone, PartialEq)]
struct TestStruct {
    name: String,
    count: i32,
}

#[test]
fn test_complex_type() {
    let test_struct = TestStruct { name: "test".to_string(), count: 42 };
    let mut state = ContextState::new();
    let mut ac = execute_with_async_context(&state, test_struct.clone());
    let r = poll_once(&mut ac, &mut state, |s| {
        PollOutcome::Ready(from_context(s, |value: Option<&TestStruct>| value.unwrap().clone()))
    });
    let (value, ctx) = ready(r);
    assert_eq!(test_struct, value);
    assert_eq!(test_struct, ctx);
}

#[test]
fn test_arc_context() {
    struct ArcWrapper(Arc<i32>);
    let arc_value = Arc::new(100);
    let mut state = ContextState::new();
    let mut ac = execute_with_async_context(&state, ArcWrapper(arc_value.clone()));
    let r = poll_once(&mut ac, &mut state, |s| {
        PollOutcome::Ready(from_context(s, |value: Option<&ArcWrapper>| *value.unwrap().0))
    });
    let (value, _) = ready(r);
    assert_eq!(100, value);
}

#[test]
#[should_panic(expected = "No context found")]
fn test_missing_context() {
    let state: ContextState<String> = ContextState::new();
    from_context(&state, |v: Option<&String>| v.cloned().expect("No context found"));
}

#[test]
fn test_context_persistence() {
    let mut state = ContextState::new();
    let mut ac = execute_with_async_context(&state, "test".to_string());
    let mut first = String::new();
    // The wrapped future reads the context, sleeps, and reads it again.
    let r1 = poll_once(&mut ac, &mut state, |s| {
        first = from_context(s, |ctx: Option<&String>| ctx.unwrap().clone());
        PollOutcome::<String>::Pending
    });
    assert!(matches!(r1, PollOutcome::Pending));
    assert!(ac.is_waiting());
    let r2 = poll_once(&mut ac, &mut state, |s| {
        let second = from_context(s, |ctx: Option<&String>| ctx.unwrap().clone());
        assert_eq!(first, second);
        PollOutcome::Ready(second)
    });
    let (result, _) = ready(r2);
    assert_eq!("test", result);
}

#[test]
fn test_parallel_contexts() {
    let mut state = ContextState::new();
    let mut tasks: Vec<(AsyncContext<Arc<i32>>, i32, i32)> = Vec::new();
    for (n, id) in [(1, 10), (2, 20), (3, 30)] {
        tasks.push((execute_with_async_context(&state, Arc::new(n)), id, 0));
    }
    // Every task reads its context, then sleeps: the polls interleave.
    for (ac, _, seen) in tasks.iter_mut() {
        let r = poll_once(ac, &mut state, |s| {
            *seen = from_context(s, |ctx: Option<&Arc<i32>>| **ctx.unwrap());
            PollOutcome::<i32>::Pending
        });
        assert!(matches!(r, PollOutcome::Pending));
    }
    let mut results = Vec::new();
    for (ac, id, seen) in tasks.iter_mut() {
        let (id, seen) = (*id, *seen);
        let r = poll_once(ac, &mut state, |_| PollOutcome::Ready(seen + id));
        results.push(ready(r).0);
    }
    assert_eq!(results[0], 11);
    assert_eq!(results[1], 22);
    assert_eq!(results[2], 33);
}

#[test]
fn test_simple_nested_chains() {
    struct SimpleContext {
        value: i32,
    }
    let mut state = ContextState::new();
    let mut ac = execute_with_async_context(&state, SimpleContext { value: 42 });
    // Each level of the chain sleeps once before descending; the innermost
    // level reads the context and every level adds one on the way back.
    let depth = 3;
    for _ in 0..depth {
        let r = poll_once(&mut ac, &mut state, |_| PollOutcome::<i32>::Pending);
        assert!(matches!(r, PollOutcome::Pending));
    }
    let r = poll_once(&mut ac, &mut state, |s| {
        let base = from_context(s, |ctx: Option<&SimpleContext>| ctx.unwrap().value);
        PollOutcome::Ready(base + depth)
    });
    let (result, _) = ready(r);
    assert_eq!(result, 45);
}

#[test]
fn test_value_chains() {
    struct NumberContext {
        value: Arc<i32>,
    }
    let mut state = ContextState::new();
    let mut tasks: Vec<AsyncContext<NumberContext>> = (0..500)
        .map(|n| execute_with_async_context(&state, NumberContext { value: Arc::new(n) }))
        .collect();
    let mut results = vec![0; 500];
    for round in 0..=10 {
        for (i, ac) in tasks.iter_mut().enumerate() {
            let expected = i as i32;
            let r = poll_once(ac, &mut state, |s| {
                let value = from_context(s, |ctx: Option<&NumberContext>| *ctx.unwrap().value);
                assert_eq!(value, expected, "Context value changed");
                if round == 10 {
                    PollOutcome::Ready(value)
                } else {
                    PollOutcome::Pending
                }
            });
            if let PollOutcome::Ready((v, _)) = r {
                results[i] = v;
            }
        }
    }
    for (i, result) in results.into_iter().enumerate() {
        assert_eq!(result, i as i32);
    }
}

#[test]
fn test_changes_through_mut_access_reach_result() {
    let mut state = ContextState::new();
    let mut ac = execute_with_async_context(&state, 10u64);
    let r = poll_once(&mut ac, &mut state, |s| {
        let old = from_context_mut(s, |ctx: Option<&mut u64>| {
            let c = ctx.unwrap();
            let old = *c;
            *c += 5;
            old
        });
        let now = from_context(s, |ctx: Option<&u64>| *ctx.unwrap());
        PollOutcome::Ready((old, now))
    });
    let ((old, now), ctx) = ready(r);
    assert_eq!(old, 10);
    assert_eq!(now, 15);
    assert_eq!(ctx, 15);
}

#[test]
fn test_changes_kept_across_polls() {
    let mut state = ContextState::new();
    let mut ac = execute_with_async_context(&state, vec![1u8]);
    let r = poll_once(&mut ac, &mut state, |s| {
        from_context_mut(s, |ctx: Option<&mut Vec<u8>>| ctx.unwrap().push(2));
        PollOutcome::<()>::Pending
    });
    assert!(matches!(r, PollOutcome::Pending));
    let r = poll_once(&mut ac, &mut state, |s| {
        PollOutcome::Ready(from_context(s, |ctx: Option<&Vec<u8>>| ctx.unwrap().clone()))
    });
    let (seen, ctx) = ready(r);
    assert_eq!(seen, vec![1, 2]);
    assert_eq!(ctx, vec![1, 2]);
}

#[test]
fn test_poll_cleans_up() {
    let mut state = ContextState::new();
    assert!(!state.has_context());
    let mut ac = execute_with_async_context(&state, 7i32);
    assert!(ac.is_waiting());
    ac.begin_poll(&mut state);
    assert!(state.has_context());
    assert_eq!(state.depth(), 1);
    assert!(!ac.is_waiting());
    let r = ac.finish_poll(&mut state, PollOutcome::Ready("done"));
    assert!(!state.has_context());
    assert_eq!(state.depth(), 0);
    assert!(!ac.is_waiting());
    assert_eq!(ready(r), ("done", 7));
    assert_eq!(from_context(&state, |c: Option<&i32>| c.is_none()), true);
}

#[test]
fn test_nested_creation_refused() {
    let mut state = ContextState::new();
    let mut outer = execute_with_async_context(&state, "outer".to_string());
    outer.begin_poll(&mut state);
    assert!(state.has_context());
    // Creating a context from inside the poll is refused.
    assert!(try_execute_with_async_context(&state, "inner".to_string()).is_none());
    let r = outer.finish_poll(&mut state, PollOutcome::<()>::Pending);
    assert!(matches!(r, PollOutcome::Pending));
    assert!(!state.has_context());
    // Outside any poll it is allowed.
    let created = try_execute_with_async_context(&state, "later".to_string());
    assert!(created.map(|ac| ac.is_waiting()).unwrap_or(false));
}

#[test]
fn test_finished_future_not_polled_again() {
    let mut state = ContextState::new();
    let mut ac = execute_with_async_context(&state, 3u8);
    assert!(ac.try_begin_poll(&mut state));
    let r = ac.finish_poll(&mut state, PollOutcome::Ready(()));
    assert_eq!(ready(r), ((), 3));
    assert!(!ac.try_begin_poll(&mut state));
    assert!(!state.has_context());
    assert_eq!(state.depth(), 0);
}

#[test]
fn test_mut_access_without_context() {
    let mut state: ContextState<u8> = ContextState::new();
    let mut called = false;
    let r = try_from_context_mut(&mut state, |_c: Option<&mut u8>| {
        called = true;
    });
    assert!(r.is_none());
    assert!(!called);
}

#[test]
fn test_written_context_read_back() {
    let mut state = ContextState::new();
    let mut ac = execute_with_async_context(&state, 1u32);
    ac.begin_poll(&mut state);
    let r = try_from_context_mut(&mut state, |c: Option<&mut u32>| {
        *c.unwrap() = 99;
    });
    assert!(r.is_some());
    assert_eq!(from_context(&state, |c: Option<&u32>| c.cloned()), Some(99));
    let r = ac.finish_poll(&mut state, PollOutcome::Ready(()));
    assert_eq!(ready(r).1, 99);
}

#[test]
fn test_inner_poll_hides_outer_context() {
    let mut state = ContextState::new();
    let mut outer = execute_with_async_context(&state, 1i32);
    let mut inner = execute_with_async_context(&state, 2i32);
    outer.begin_poll(&mut state);
    assert_eq!(from_context(&state, |c: Option<&i32>| c.copied()), Some(1));
    inner.begin_poll(&mut state);
    assert_eq!(from_context(&state, |c: Option<&i32>| c.copied()), Some(2));
    let r = inner.finish_poll(&mut state, PollOutcome::Ready(()));
    assert_eq!(ready(r).1, 2);
    // Once any poll finishes, no context is visible for the rest of the outer poll.
    assert_eq!(from_context(&state, |c: Option<&i32>| c.copied()), None);
    assert_eq!(state.depth(), 1);
    let r = outer.finish_poll(&mut state, PollOutcome::Ready(()));
    assert_eq!(ready(r).1, 1);
    assert_eq!(state.depth(), 0);
}

#[test]
fn test_context_as_string() {
    let mut state = ContextState::new();
    assert_eq!(context_as_string(&state, |c: &u32| c.to_string()), "(no context)");
    let mut ac = execute_with_async_context(&state, 42u32);
    ac.begin_poll(&mut state);
    assert_eq!(context_as_string(&state, |c: &u32| format!("ctx={}", c)), "ctx=42");
    let _ = ac.finish_poll(&mut state, PollOutcome::Ready(()));
    assert_eq!(context_as_string(&state, |c: &u32| c.to_string()), "(no context)");
}
