use std::future::Future;
use std::pin::Pin;
use std::sync::atomic::{AtomicBool, Ordering};
use std::sync::Arc;
use std::task::{Context, Wake, Waker};

use lapin::socket_state::Poll;
use lapin::task_scope::{Guard, ScopedFuture, TaskScope};

struct DropProbe(Arc<AtomicBool>);

impl Drop for DropProbe {
    fn drop(&mut self) {
        self.0.store(true, Ordering::SeqCst);
    }
}

struct WakeFlag(AtomicBool);

impl Wake for WakeFlag {
    fn wake(self: Arc<Self>) {
        self.0.store(true, Ordering::SeqCst);
    }
}

type Work = Pin<Box<dyn Future<Output = ()>>>;

fn poll(task: &mut ScopedFuture<Work>, cx: &mut Context<'_>) -> Poll<Option<Guard>> {
    let stopping = Pin::new(task.listener()).poll(cx).is_ready();
    let ready = match task.future() {
        Some(future) => future.as_mut().poll(cx).is_ready(),
        None => false,
    };
    task.poll(stopping, ready)
}

fn sleeping(probe: DropProbe) -> Work {
    Box::pin(async move {
        let _probe = probe;
        std::future::pending::<()>().await;
    })
}

#[test]
fn stop_wakes_sleeping_task_and_drops_resources_before_drained() {
    let mut scope = TaskScope::default();
    let dropped = Arc::new(AtomicBool::new(false));
    let mut task = scope.wrap(sleeping(DropProbe(dropped.clone())));
    let woken = Arc::new(WakeFlag(AtomicBool::new(false)));
    let waker = Waker::from(woken.clone());
    let mut cx = Context::from_waker(&waker);
    assert!(matches!(poll(&mut task, &mut cx), Poll::Pending));
    assert!(!woken.0.load(Ordering::SeqCst));
    scope.stop();
    assert!(woken.0.load(Ordering::SeqCst));
    match poll(&mut task, &mut cx) {
        Poll::Ready(Some(guard)) => {
            assert!(dropped.load(Ordering::SeqCst));
            assert!(!scope.is_finished());
            assert!(scope.release(guard));
        }
        _ => panic!("a stopped task has to finish"),
    }
    assert!(scope.is_finished());
    assert!(dropped.load(Ordering::SeqCst));
    assert!(matches!(scope.wait(), Poll::Ready(())));
}

#[test]
fn stop_before_first_poll_and_drop_without_poll_release_resources() {
    let mut scope = TaskScope::default();
    let mut task = scope.wrap(Box::pin(std::future::pending::<()>()));
    assert!(!scope.is_finished());
    if let Some(guard) = task.finish() {
        scope.release(guard);
    }
    assert!(scope.is_finished());
    scope.stop();
    let dropped = Arc::new(AtomicBool::new(false));
    let _task = scope.wrap(sleeping(DropProbe(dropped.clone())));
    assert!(scope.is_finished());
    assert!(dropped.load(Ordering::SeqCst));
}

#[test]
fn finished_work_counts_the_task_out() {
    let mut scope = TaskScope::new();
    let work: Work = Box::pin(std::future::ready(()));
    let mut task = scope.wrap(work);
    let mut cx = Context::from_waker(Waker::noop());
    match poll(&mut task, &mut cx) {
        Poll::Ready(Some(guard)) => assert!(scope.release(guard)),
        _ => panic!("the work is done"),
    }
    // Nothing is counted out a second time.
    assert!(matches!(poll(&mut task, &mut cx), Poll::Ready(None)));
    assert!(task.finish().is_none());
}

#[test]
fn resolved_work_completes_although_the_scope_was_stopped() {
    let mut scope = TaskScope::new();
    let done = Arc::new(AtomicBool::new(false));
    let mark = done.clone();
    let work: Work = Box::pin(async move { mark.store(true, Ordering::SeqCst) });
    let mut task = scope.wrap(work);
    scope.stop();
    let mut cx = Context::from_waker(Waker::noop());
    assert!(matches!(poll(&mut task, &mut cx), Poll::Ready(Some(_))));
    assert!(done.load(Ordering::SeqCst));
}

#[test]
fn scope_drains_with_its_last_task() {
    let mut scope = TaskScope::new();
    let mut first = scope.wrap(1u8);
    let mut second = scope.wrap(2u8);
    scope.stop();
    let mut third = scope.wrap(3u8);
    assert!(third.finish().is_none());
    assert!(third.future().is_none());
    assert_eq!(first.future(), Some(&mut 1u8));
    match (first.finish(), second.finish()) {
        (Some(one), Some(two)) => {
            assert!(!scope.release(one));
            assert!(!scope.is_finished());
            assert!(scope.release(two));
        }
        _ => panic!("both tasks were taken in"),
    }
    assert!(scope.is_finished());
}

#[test]
fn task_is_not_stopped_by_another_scope() {
    let mut scope = TaskScope::new();
    let mut other = TaskScope::new();
    let work: Work = Box::pin(std::future::pending());
    let mut task = scope.wrap(work);
    other.stop();
    let mut cx = Context::from_waker(Waker::noop());
    assert!(matches!(poll(&mut task, &mut cx), Poll::Pending));
}

#[test]
fn wait_ends_with_the_last_task() {
    let mut scope = TaskScope::new();
    assert!(matches!(scope.wait(), Poll::Ready(())));
    let mut task = scope.wrap(());
    scope.stop();
    assert!(matches!(scope.wait(), Poll::Pending));
    if let Some(guard) = task.finish() {
        scope.release(guard);
    }
    assert!(matches!(scope.wait(), Poll::Ready(())));
    let _refused = scope.wrap(());
    assert!(matches!(scope.wait(), Poll::Ready(())));
}

#[test]
fn place_is_given_before_the_task_is_put_into_it() {
    let mut scope = TaskScope::new();
    let place = scope.enter();
    assert!(!scope.is_finished());
    scope.stop();
    let refused = scope.enter();
    let mut task = ScopedFuture::new(place, 1u8);
    assert_eq!(task.future(), Some(&mut 1u8));
    let dropped = Arc::new(AtomicBool::new(false));
    let mut other = ScopedFuture::new(refused, DropProbe(dropped.clone()));
    assert!(dropped.load(Ordering::SeqCst));
    assert!(other.finish().is_none());
    if let Some(guard) = task.finish() {
        assert!(scope.release(guard));
    }
}

#[test]
fn scope_has_room() {
    let mut scope = TaskScope::new();
    assert!(!scope.is_full());
    let _task = scope.wrap(());
    assert!(!scope.is_full());
}
