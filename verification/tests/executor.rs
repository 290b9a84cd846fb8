use status_executor::internal_context::{InternalContext, InternalData};
use status_executor::{Context, Executor, RayonContext, RayonGlobalContext, StatusExecutor};
use std::sync::mpsc;
use std::sync::{Arc, Barrier};

/// Runs the work at once, on the calling thread.
struct Inline;

impl InternalContext for Inline {
    fn execute<T, F>(&self, state: Arc<InternalData<T>>, f: F)
    where
        T: Send + Sync + 'static,
        F: FnOnce() -> T + Send + 'static,
    {
        state.run(f);
    }
}

impl Context for Inline {}

/// Drops the work without running it.
struct Never;

impl InternalContext for Never {
    fn execute<T, F>(&self, _state: Arc<InternalData<T>>, _f: F)
    where
        T: Send + Sync + 'static,
        F: FnOnce() -> T + Send + 'static,
    {
    }
}

impl Context for Never {}

#[test]
fn executor_std() {
    let e = Executor::new(RayonGlobalContext::default(), move || 1234);
    while !e.is_done() {
        std::hint::spin_loop();
    }

    assert_eq!(e.result().map(|x| *x), Some(1234));
    assert_eq!(e.take_result(), Some(1234));
}

#[test]
fn wait_arc() {
    let (go, wait_for_go) = mpsc::channel::<()>();
    let e = Executor::new(RayonGlobalContext::default(), move || {
        wait_for_go.recv().unwrap();
        1234
    });
    assert!(!e.is_done());
    go.send(()).unwrap();

    let val = *e.wait().as_ref();
    assert_eq!(val, 1234);
}

#[test]
fn wait_take() {
    let (go, wait_for_go) = mpsc::channel::<()>();
    let e = Executor::new(RayonGlobalContext::default(), move || {
        wait_for_go.recv().unwrap();
        1234
    });
    assert!(!e.is_done());
    go.send(()).unwrap();

    let val = e.take_wait();
    assert_eq!(val, Some(1234));
}

#[test]
fn not_done_before_the_function_returns() {
    let e = Executor::new(Never, move || 7u8);
    assert!(!e.is_done());
    assert_eq!(e.result(), None);
    assert_eq!(e.take_result(), None);
}

#[test]
fn status_executor_not_done_before_the_function_returns() {
    let e = StatusExecutor::<u8, u8>::new(Never, move |_s| 7u8);
    assert!(!e.is_done());
    assert_eq!(e.result(), None);
    assert_eq!(e.status(), None);
    assert_eq!(e.latest_status(), None);
    assert_eq!(e.take_result(), None);
}

#[test]
fn result_can_be_read_again() {
    let e = Executor::new(Inline, move || String::from("done"));
    assert!(e.is_done());
    assert_eq!(e.result().map(|x| (*x).clone()), Some(String::from("done")));
    assert_eq!(e.result().map(|x| (*x).clone()), Some(String::from("done")));
    assert_eq!(e.wait().as_str(), "done");
    assert!(e.is_done());
    assert_eq!(e.take_result(), Some(String::from("done")));
}

#[test]
fn take_result_fails_while_a_handle_lives() {
    let e = Executor::new(Inline, move || 5u32);
    let handle = e.result();
    assert_eq!(e.take_result(), None);
    assert_eq!(handle.map(|x| *x), Some(5));
}

#[test]
fn take_wait_fails_while_a_handle_lives() {
    let e = Executor::new(Inline, move || 5u32);
    let handle = e.wait();
    assert_eq!(e.take_wait(), None);
    assert_eq!(*handle, 5);
    assert_eq!(e.result(), None);
    assert_eq!(e.take_result(), None);
}

#[test]
fn take_wait_leaves_no_result() {
    let e = Executor::new(Inline, move || 5u32);
    assert_eq!(e.take_wait(), Some(5));
    assert!(e.is_done());
    assert_eq!(e.result(), None);
    assert_eq!(e.take_result(), None);
}

#[test]
fn works_on_a_pool_of_its_own() {
    let pool = rayon::ThreadPoolBuilder::new().num_threads(1).build().unwrap();
    let context = RayonContext::new(&pool);
    let e = Executor::new(context, move || rayon::current_num_threads());
    assert_eq!(*e.wait(), 1);
}

#[test]
fn many_threads_wait_for_one_result() {
    let pool = rayon::ThreadPoolBuilder::new().num_threads(4).build().unwrap();
    let (go, wait_for_go) = mpsc::channel::<()>();
    let e = Arc::new(Executor::new(RayonGlobalContext::default(), move || {
        wait_for_go.recv().unwrap();
        99u64
    }));
    let ready = Arc::new(Barrier::new(5));
    let (tx, rx) = mpsc::channel::<u64>();
    for _ in 0..4 {
        let e = e.clone();
        let ready = ready.clone();
        let tx = tx.clone();
        pool.spawn(move || {
            ready.wait();
            tx.send(*e.wait()).unwrap();
        });
    }
    ready.wait();
    go.send(()).unwrap();
    for _ in 0..4 {
        assert_eq!(rx.recv(), Ok(99));
    }
}

#[test]
fn clone_of_the_global_context_works_too() {
    let context = RayonGlobalContext::default();
    let e = Executor::new(context.clone(), move || 3i8);
    assert_eq!(*e.wait(), 3);
    assert_eq!(format!("{:?}", context), "RayonGlobalContext { _tag: () }");
}

#[test]
fn result_is_dropped_with_the_executor() {
    let value = Arc::new(String::from("kept"));
    let copy = value.clone();
    let e = Executor::new(Inline, move || copy);
    assert_eq!(Arc::strong_count(&value), 2);
    drop(e);
    assert_eq!(Arc::strong_count(&value), 1);
}

#[test]
fn handle_is_the_last_one_once_the_executor_is_gone() {
    let e = Executor::new(Inline, move || 8u16);
    let handle = e.wait();
    drop(e);
    assert_eq!(Arc::into_inner(handle), Some(8));
}
