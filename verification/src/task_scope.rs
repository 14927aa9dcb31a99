//! The tasks of one connection: how they are told to stop, and when the last of them is gone.
use event_listener::Event as StopEvent;
use vstd::prelude::*;

use crate::socket_state::Poll;

verus! {

/// An event of the event-listener crate.
#[verifier::external_type_specification]
#[verifier::external_body]
#[verifier::reject_recursive_types(T)]
pub struct ExStopEvent<T>(StopEvent<T>);

/// A listener of the event-listener crate.
#[verifier::external_type_specification]
#[verifier::external_body]
#[verifier::reject_recursive_types(T)]
pub struct ExEventListener<T>(event_listener::EventListener<T>);

/// Which event this is.
pub uninterp spec fn event_identity(event: StopEvent<()>) -> int;

/// Which event a listener listens to.
pub uninterp spec fn listened_event(listener: event_listener::EventListener<()>) -> int;

/// The number of listeners that an event has handed out since it last notified all of them.
pub uninterp spec fn unnotified(event: StopEvent<()>) -> nat;

/// `event_listener::Event::new`: an event that has handed out no listeners.
#[verifier::external_body]
fn new_event() -> (event: StopEvent<()>)
    ensures
        unnotified(event) == 0,
{
    StopEvent::new()
}

/// `event_listener::Event::listen`: one more listener to this event.
#[verifier::external_body]
fn listen(event: &mut StopEvent<()>) -> (listener: event_listener::EventListener<()>)
    ensures
        listened_event(listener) == event_identity(*old(event)),
        event_identity(*final(event)) == event_identity(*old(event)),
        unnotified(*final(event)) == unnotified(*old(event)) + 1,
{
    event.listen()
}

/// `event_listener::Event::notify` with `usize::MAX`: every listener that the event has handed out
/// is notified.
#[verifier::external_body]
fn notify_all(event: &mut StopEvent<()>)
    ensures
        event_identity(*final(event)) == event_identity(*old(event)),
        unnotified(*final(event)) == 0,
{
    event.notify(usize::MAX);
}

/// The tasks of one connection.
pub struct TaskScope {
    stopped: bool,
    active: usize,
    signal: StopEvent<()>,
}

/// A task scope, in contracts.
pub struct ScopeView {
    /// Have the tasks been told to stop?
    pub stopped: bool,
    /// The number of tasks that are not gone yet.
    pub active: nat,
}

/// Counts one task of one scope. The count falls when the guard is given back to the scope.
pub struct Guard {
    signal: Ghost<int>,
}

/// A place for a task, which a scope has given or refused: what tells the task to stop, and what
/// counts it.
pub struct Entry {
    listener: event_listener::EventListener<()>,
    guard: Option<Guard>,
}

/// A task of a scope, as long as it is not gone: what it still has to do, what tells it to stop, and
/// what counts it.
pub struct ScopedFuture<F> {
    future: Option<F>,
    listener: event_listener::EventListener<()>,
    guard: Option<Guard>,
}

impl ScopeView {
    /// A scope without tasks.
    pub open spec fn fresh() -> ScopeView {
        ScopeView { stopped: false, active: 0 }
    }

    /// The scope after a task has come in. A scope that was told to stop takes none.
    pub open spec fn wrapped(self) -> ScopeView {
        if self.stopped {
            self
        } else {
            ScopeView { active: self.active + 1, ..self }
        }
    }

    /// The scope after it has been told to stop.
    pub open spec fn halted(self) -> ScopeView {
        ScopeView { stopped: true, ..self }
    }

    /// The scope after a task has gone.
    pub open spec fn released(self) -> ScopeView {
        ScopeView { active: (self.active - 1) as nat, ..self }
    }
}

impl TaskScope {
    /// The scope, in contracts.
    pub closed spec fn view(&self) -> ScopeView {
        ScopeView { stopped: self.stopped, active: self.active as nat }
    }

    /// The event that tells the tasks of the scope to stop.
    pub closed spec fn signal(self) -> int {
        event_identity(self.signal)
    }

    /// The number of tasks that have come in since the scope last told all of them to stop.
    pub closed spec fn untold(self) -> nat {
        unnotified(self.signal)
    }

    /// A scope without tasks.
    pub fn new() -> (scope: TaskScope)
        ensures
            scope@ == ScopeView::fresh(),
            !scope@.stopped,
            scope@.active == 0,
            scope.untold() == 0,
    {
        TaskScope { stopped: false, active: 0, signal: new_event() }
    }

    /// Are there as many tasks as can be counted?
    pub fn is_full(&self) -> (full: bool)
        ensures
            full == (self@.active == usize::MAX),
    {
        self.active == usize::MAX
    }

    /// Ask for a place for a task. A scope that was told to stop refuses.
    pub fn enter(&mut self) -> (entry: Entry)
        requires
            old(self)@.active < usize::MAX,
        ensures
            final(self)@ == old(self)@.wrapped(),
            final(self)@.stopped == old(self)@.stopped,
            final(self)@.active == old(self)@.active + (if old(self)@.stopped {
                0int
            } else {
                1int
            }),
            final(self).signal() == old(self).signal(),
            final(self).untold() == old(self).untold() + 1,
            entry.well_formed(),
            entry.signal() == old(self).signal(),
            entry.admitted() == !old(self)@.stopped,
    {
        let listener = listen(&mut self.signal);
        if self.stopped {
            return Entry { listener, guard: None };
        }
        self.active = self.active + 1;
        Entry { listener, guard: Some(Guard { signal: Ghost(self.signal()) }) }
    }

    /// Take a task into the scope. A scope that was told to stop drops it at once.
    pub fn wrap<F>(&mut self, future: F) -> (task: ScopedFuture<F>)
        requires
            old(self)@.active < usize::MAX,
        ensures
            final(self)@ == old(self)@.wrapped(),
            final(self)@.stopped == old(self)@.stopped,
            final(self)@.active == old(self)@.active + (if old(self)@.stopped {
                0int
            } else {
                1int
            }),
            final(self).signal() == old(self).signal(),
            final(self).untold() == old(self).untold() + 1,
            task.well_formed(),
            task.signal() == old(self).signal(),
            task.pending() == (if old(self)@.stopped {
                None
            } else {
                Some(future)
            }),
    {
        ScopedFuture::new(self.enter(), future)
    }

    /// Tell every task of the scope to stop, and take no more.
    pub fn stop(&mut self)
        ensures
            final(self)@ == old(self)@.halted(),
            final(self)@.stopped,
            final(self)@.active == old(self)@.active,
            final(self).signal() == old(self).signal(),
            final(self).untold() == 0,
    {
        self.stopped = true;
        notify_all(&mut self.signal);
    }

    /// Is every task gone?
    pub fn is_finished(&self) -> (finished: bool)
        ensures
            finished == (self@.active == 0),
    {
        self.active == 0
    }

    /// Wait until every task is gone.
    pub fn wait(&self) -> (outcome: Poll<()>)
        ensures
            outcome == (if self@.active == 0 {
                Poll::Ready(())
            } else {
                Poll::Pending
            }),
    {
        if self.is_finished() {
            Poll::Ready(())
        } else {
            Poll::Pending
        }
    }

    /// Count a task of this scope as gone. Says whether it was the last one.
    pub fn release(&mut self, guard: Guard) -> (drained: bool)
        requires
            guard.signal() == old(self).signal(),
            old(self)@.active > 0,
        ensures
            final(self)@ == old(self)@.released(),
            final(self)@.stopped == old(self)@.stopped,
            final(self)@.active == old(self)@.active - 1,
            final(self).signal() == old(self).signal(),
            final(self).untold() == old(self).untold(),
            drained == (final(self)@.active == 0),
    {
        self.active = self.active - 1;
        self.active == 0
    }
}

impl Default for TaskScope {
    fn default() -> (scope: TaskScope)
        ensures
            scope@ == ScopeView::fresh(),
            !scope@.stopped,
            scope@.active == 0,
            scope.untold() == 0,
    {
        TaskScope::new()
    }
}

impl Guard {
    /// The event that tells the tasks to stop of the scope whose task it counts.
    pub closed spec fn signal(self) -> int {
        self.signal@
    }
}

impl Entry {
    /// The event that tells the task to stop.
    pub closed spec fn signal(self) -> int {
        listened_event(self.listener)
    }

    /// Was the place given?
    pub closed spec fn admitted(self) -> bool {
        self.guard is Some
    }

    /// What counts the task is from the scope that tells it to stop.
    pub closed spec fn well_formed(self) -> bool {
        self.guard matches Some(guard) ==> guard.signal() == self.signal()
    }
}

impl<F> ScopedFuture<F> {
    /// What the task still has to do, if it is not gone.
    pub closed spec fn pending(self) -> Option<F> {
        self.future
    }

    /// The event that tells the task to stop.
    pub closed spec fn signal(self) -> int {
        listened_event(self.listener)
    }

    /// The task is counted as long as it has something to do, by the scope that tells it to stop.
    pub closed spec fn well_formed(self) -> bool {
        &&& self.future is Some <==> self.guard is Some
        &&& self.guard matches Some(guard) ==> guard.signal() == self.signal()
    }

    /// Put a task into its place. Where the place was refused, the task is dropped at once.
    pub fn new(entry: Entry, future: F) -> (task: ScopedFuture<F>)
        requires
            entry.well_formed(),
        ensures
            task.well_formed(),
            task.signal() == entry.signal(),
            task.pending() == (if entry.admitted() {
                Some(future)
            } else {
                None
            }),
    {
        match entry.guard {
            Some(guard) => ScopedFuture {
                future: Some(future),
                listener: entry.listener,
                guard: Some(guard),
            },
            None => ScopedFuture { future: None, listener: entry.listener, guard: None },
        }
    }

    /// The task moved on: what counts it was handed out just where it went, and it never comes back.
    pub open spec fn moved(self, after: ScopedFuture<F>, guard: Option<Guard>) -> bool {
        &&& guard is Some <==> self.pending() is Some && after.pending() is None
        &&& self.pending() is None ==> after.pending() is None
    }

    /// What the task still has to do, if it is not gone.
    pub fn future(&mut self) -> (future: Option<&mut F>)
        requires
            old(self).well_formed(),
        ensures
            final(self).well_formed(),
            final(self).signal() == old(self).signal(),
            match (old(self).pending(), future) {
                (Some(before), Some(future)) => *future == before && final(self).pending() == Some(
                    *final(future),
                ),
                (None, None) => final(self).pending() is None,
                _ => false,
            },
    {
        self.future.as_mut()
    }

    /// What tells the task to stop.
    pub fn listener(&mut self) -> (listener: &mut event_listener::EventListener<()>)
        requires
            old(self).well_formed(),
        ensures
            listened_event(*listener) == old(self).signal(),
            listened_event(*final(listener)) == old(self).signal() ==> final(self).well_formed(),
            final(self).pending() == old(self).pending(),
            final(self).signal() == listened_event(*final(listener)),
    {
        &mut self.listener
    }

    /// Drop everything that the task owns, and only then hand out what counts it.
    pub fn finish(&mut self) -> (guard: Option<Guard>)
        requires
            old(self).well_formed(),
        ensures
            final(self).well_formed(),
            final(self).signal() == old(self).signal(),
            final(self).pending() is None,
            old(self).moved(*final(self), guard),
            guard is Some <==> old(self).pending() is Some,
            guard matches Some(guard) ==> guard.signal() == old(self).signal(),
    {
        let _ = self.future.take();
        self.guard.take()
    }

    /// Decide what a poll means, from whether the task has been told to stop and whether its work,
    /// which has just been polled in either case, is done. A task that is done or told to stop is
    /// finished; what counts it is handed out once.
    pub fn poll(&mut self, stopping: bool, ready: bool) -> (outcome: Poll<Option<Guard>>)
        requires
            old(self).well_formed(),
        ensures
            final(self).well_formed(),
            final(self).signal() == old(self).signal(),
            old(self).moved(*final(self), match outcome {
                Poll::Ready(guard) => guard,
                Poll::Pending => None,
            }),
            outcome matches Poll::Ready(Some(guard)) ==> guard.signal() == old(self).signal(),
            match old(self).pending() {
                None => outcome == Poll::Ready(None::<Guard>) && final(self).pending() is None,
                Some(_) => if ready || stopping {
                    &&& outcome matches Poll::Ready(Some(_))
                    &&& final(self).pending() is None
                } else {
                    &&& outcome is Pending
                    &&& final(self).pending() == old(self).pending()
                },
            },
    {
        if self.future.is_none() {
            return Poll::Ready(None);
        }
        if ready || stopping {
            Poll::Ready(self.finish())
        } else {
            Poll::Pending
        }
    }
}

} // verus!
