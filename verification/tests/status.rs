use status_executor::channel::Queue;
use status_executor::internal_context::{InternalContext, InternalData};
use status_executor::slot::Slot;
use status_executor::status::LastStatus;
use status_executor::{
    Context, Executor, RayonContext, RayonGlobalContext, StatusExecutor, StatusSender,
};
use std::collections::VecDeque;
use std::sync::mpsc;
use std::sync::Arc;

/// Runs the work at once, on the calling thread.
struct Inline;

impl InternalContext for Inline {
    fn execute<T, F>(&self, state: Arc<InternalData<T>>, f: F)
    where
        T: Send + Sync + 'static,
        F: FnOnce() -> T + Send + 'static,
    {
        state.run(f);
    }
}

impl Context for Inline {}

#[test]
fn status_executor_std() {
    let e = StatusExecutor::new(RayonGlobalContext::default(), move |s| {
        s.send(432);
        s.send(999);
        s.send(4);
        1234
    });
    while !e.is_done() {
        std::hint::spin_loop();
    }

    assert_eq!(e.status(), Some(432));
    assert_eq!(e.latest_status(), Some(4));

    assert_eq!(e.result().map(|x| *x), Some(1234));
    assert_eq!(e.take_result(), Some(1234));
}

#[derive(Debug, Clone, PartialEq)]
struct MyStatus {
    progress: i32,
    msg: String,
}

#[test]
fn progress_of_a_long_computation() {
    let e = StatusExecutor::new(RayonGlobalContext::default(), |s| {
        let mut p = 0;
        while p < 100 {
            s.send(MyStatus {
                progress: p,
                msg: "Working...".to_string(),
            });
            p += 15;
        }
        s.send(MyStatus {
            progress: p,
            msg: "Done!".to_string(),
        });
        p
    });
    let mut seen = Vec::new();
    while !e.is_done() {
        match e.status() {
            Some(s) => seen.push(s.progress),
            None => std::hint::spin_loop(),
        }
    }
    for (i, p) in seen.iter().enumerate() {
        assert_eq!(*p, 15 * i as i32);
    }
    let last = MyStatus {
        progress: 105,
        msg: "Done!".to_string(),
    };
    assert_eq!(e.latest_status(), Some(last));
    assert_eq!(e.take_result(), Some(105));
}

#[test]
fn statuses_come_in_order_and_once() {
    let e = StatusExecutor::new(Inline, |s| {
        for i in 0..5u8 {
            assert!(s.send(i));
        }
    });
    for i in 0..5u8 {
        assert_eq!(e.status(), Some(i));
    }
    assert_eq!(e.status(), None);
    assert_eq!(e.latest_status(), Some(4));
}

#[test]
fn latest_status_skips_and_remembers() {
    let e = StatusExecutor::new(Inline, |s| {
        s.send("a");
        s.send("b");
        s.send("c");
    });
    assert_eq!(e.latest_status(), Some("c"));
    assert_eq!(e.status(), None);
    assert_eq!(e.latest_status(), Some("c"));
    assert_eq!(e.latest_status(), Some("c"));
}

#[test]
fn latest_status_without_any_status() {
    let e = StatusExecutor::<u8, u8>::new(Inline, |_s| 1);
    assert_eq!(e.latest_status(), None);
    assert_eq!(e.status(), None);
    assert_eq!(*e.wait(), 1);
    assert_eq!(e.take_wait(), Some(1));
}

#[test]
fn send_tells_that_the_executor_was_dropped() {
    let (go, wait_for_go) = mpsc::channel::<()>();
    let (answer, answered) = mpsc::channel::<(bool, bool)>();
    let e = StatusExecutor::new(RayonGlobalContext::default(), move |s: StatusSender<u8>| {
        let before = s.send(1);
        answer.send((before, before)).unwrap();
        wait_for_go.recv().unwrap();
        let after = s.send(2);
        answer.send((before, after)).unwrap();
    });
    assert_eq!(answered.recv(), Ok((true, true)));
    drop(e);
    go.send(()).unwrap();
    assert_eq!(answered.recv(), Ok((true, false)));
}

#[test]
fn taking_the_result_drops_the_executor() {
    let (go, wait_for_go) = mpsc::channel::<()>();
    let (answer, answered) = mpsc::channel::<bool>();
    let e = StatusExecutor::new(RayonGlobalContext::default(), move |s: StatusSender<u8>| {
        wait_for_go.recv().unwrap();
        answer.send(s.send(2)).unwrap();
    });
    assert_eq!(e.take_result(), None);
    go.send(()).unwrap();
    assert_eq!(answered.recv(), Ok(false));
}

/// A status that counts how often it was cloned.
#[derive(Debug, PartialEq)]
struct Counted(u32);

impl Clone for Counted {
    fn clone(&self) -> Self {
        Counted(self.0 + 1)
    }
}

#[test]
fn status_is_handed_out_itself_and_remembered_as_a_clone() {
    let e = StatusExecutor::new(Inline, |s| {
        s.send(Counted(0));
        s.send(Counted(10));
    });
    assert_eq!(e.status(), Some(Counted(0)));
    assert_eq!(e.latest_status(), Some(Counted(10)));
    assert_eq!(e.latest_status(), Some(Counted(12)));
}

#[test]
fn status_need_not_be_sync() {
    let e = StatusExecutor::new(RayonGlobalContext::default(), |s| {
        s.send(std::cell::Cell::new(5u8));
    });
    e.wait();
    assert_eq!(e.status().map(|c| c.get()), Some(5));
}

#[test]
fn status_executor_on_a_pool() {
    let pool = rayon::ThreadPoolBuilder::new().num_threads(2).build().unwrap();
    let e = StatusExecutor::new(RayonContext::new(&pool), |s| {
        s.send(String::from("Currently at 0"));
        s.send(String::from("Done!"));
        100
    });
    assert_eq!(e.take_wait(), Some(100));
    assert_eq!(e.status(), Some(String::from("Currently at 0")));
    assert_eq!(e.latest_status(), Some(String::from("Done!")));
}

#[test]
fn status_executor_keeps_a_result_that_is_shared() {
    let e = StatusExecutor::<u8, ()>::new(Inline, |_s| 9);
    let handle = e.wait();
    assert_eq!(e.result().map(|x| *x), Some(9));
    assert_eq!(e.take_wait(), None);
    assert_eq!(*handle, 9);
    assert_eq!(e.result(), None);
    assert!(e.is_done());
}

#[test]
fn queue_is_first_in_first_out() {
    let mut queue = Queue::new();
    let mut memory = LastStatus::new();
    assert_eq!(memory.look_at_oldest(queue.receive()), None);
    assert_eq!(queue.send(432), Ok(()));
    assert_eq!(queue.send(999), Ok(()));
    assert_eq!(queue.send(5), Ok(()));
    assert_eq!(queue.send(4), Ok(()));
    assert_eq!(memory.look_at_oldest(queue.receive()), Some(432));
    assert_eq!(memory.look_at_oldest(queue.receive()), Some(999));
    assert_eq!(memory.look_at_all(queue.drain()), Some(4));
    assert_eq!(memory.look_at_oldest(queue.receive()), None);
}

#[test]
fn closed_queue_takes_nothing() {
    let mut queue = Queue::new();
    let mut memory = LastStatus::new();
    assert_eq!(queue.send('x'), Ok(()));
    assert_eq!(queue.close(), Some(VecDeque::from(vec!['x'])));
    assert_eq!(queue.send('y'), Err('y'));
    assert_eq!(memory.look_at_all(queue.drain()), None);
    assert_eq!(queue.close(), None);
}

#[test]
fn last_status_remembers_clones() {
    let mut queue = Queue::new();
    let mut memory = LastStatus::new();
    assert_eq!(memory.look_at_all(queue.drain()), None);
    assert_eq!(queue.send(Counted(0)), Ok(()));
    assert_eq!(memory.look_at_oldest(queue.receive()), Some(Counted(0)));
    assert_eq!(memory.look_at_oldest(queue.receive()), None);
    assert_eq!(memory.look_at_all(queue.drain()), Some(Counted(2)));
    assert_eq!(queue.send(Counted(3)), Ok(()));
    assert_eq!(queue.send(Counted(7)), Ok(()));
    assert_eq!(memory.look_at_all(queue.drain()), Some(Counted(7)));
    assert_eq!(memory.look_at_all(queue.drain()), Some(Counted(9)));
}

#[test]
fn executors_share_no_statuses() {
    let a = StatusExecutor::new(Inline, |s| s.send("a"));
    let b = StatusExecutor::new(Inline, |s| s.send("b"));
    assert_eq!(a.status(), Some("a"));
    assert_eq!(a.status(), None);
    assert_eq!(b.latest_status(), Some("b"));
    assert_eq!(b.status(), None);
}

#[test]
fn unread_statuses_do_not_hold_the_worker_up() {
    let e = StatusExecutor::new(RayonGlobalContext::default(), |s| {
        for i in 0..1000 {
            s.send(i);
        }
        1234
    });
    assert_eq!(*e.wait(), 1234);
    assert_eq!(e.latest_status(), Some(999));
}

/// A status whose clone sends another status through the same channel.
struct Echo {
    sender: Arc<std::sync::Mutex<StatusSender<Echo>>>,
    value: u8,
}

impl Clone for Echo {
    fn clone(&self) -> Self {
        let echo = Echo {
            sender: self.sender.clone(),
            value: self.value + 1,
        };
        self.sender.lock().unwrap().send(echo);
        Echo {
            sender: self.sender.clone(),
            value: self.value,
        }
    }
}

#[test]
fn clone_may_send() {
    let e = StatusExecutor::new(Inline, |s| {
        let sender = Arc::new(std::sync::Mutex::new(s));
        let first = Echo {
            sender: sender.clone(),
            value: 1,
        };
        sender.lock().unwrap().send(first);
    });
    assert_eq!(e.status().map(|x| x.value), Some(1));
    assert_eq!(e.status().map(|x| x.value), Some(2));
}

#[test]
fn claim_needs_the_last_handle() {
    assert_eq!(Slot::<u8>::claim(None), None);
    assert_eq!(Slot::claim(Some(Arc::new(42))), Some(42));
    let handle = Arc::new(1u8);
    assert_eq!(Slot::claim(Some(handle.clone())), None);
    assert_eq!(*handle, 1);
}

#[test]
fn unread_statuses_go_with_the_executor() {
    let (go, wait_for_go) = mpsc::channel::<()>();
    let (sent, wait_for_sent) = mpsc::channel::<()>();
    let status = Arc::new(5u8);
    let copy = status.clone();
    let e = StatusExecutor::new(RayonGlobalContext::default(), move |s| {
        s.send(copy);
        sent.send(()).unwrap();
        wait_for_go.recv().unwrap();
        s.send(Arc::new(6));
    });
    wait_for_sent.recv().unwrap();
    assert_eq!(Arc::strong_count(&status), 2);
    drop(e);
    assert_eq!(Arc::strong_count(&status), 1);
    go.send(()).unwrap();
}

#[test]
fn both_kinds_of_executor_agree() {
    let a = Executor::new(Inline, || 6 * 7);
    let b = StatusExecutor::<i32, ()>::new(Inline, |_s| 6 * 7);
    assert_eq!(a.take_result(), b.take_result());
}
