//! Task scheduling for the single-threaded host: every task runs on the main
//! thread, in the order it was dispatched, when the animation loop polls the
//! queue. The host layer owns the timers and runs the polled tasks; the
//! dispatcher is passed explicitly rather than living in ambient global
//! state, so the scheduling order is checkable in isolation.

use vstd::prelude::*;

verus! {

/// A dispatcher for a single-threaded host: a FIFO queue of tasks for the
/// main thread.
pub struct WebDispatcher<T> {
    pub main_thread_tasks: Vec<T>,
    pub is_main_thread: bool,
}

impl<T> WebDispatcher<T> {
    /// A fresh dispatcher with no queued tasks, on the main thread (the host
    /// has only one).
    pub fn new() -> (r: WebDispatcher<T>)
        ensures
            r.main_thread_tasks@.len() == 0,
            r.is_main_thread,
    {
        WebDispatcher { main_thread_tasks: Vec::new(), is_main_thread: true }
    }

    /// Whether this is the main thread: always, on a single-threaded host.
    pub fn is_main_thread(&self) -> (r: bool)
        ensures
            r == self.is_main_thread,
    {
        self.is_main_thread
    }

    /// Queue a task for the main thread.
    pub fn dispatch(&mut self, task: T)
        ensures
            final(self).main_thread_tasks@ == old(self).main_thread_tasks@.push(task),
            final(self).is_main_thread == old(self).is_main_thread,
    {
        self.main_thread_tasks.push(task);
    }

    /// Queue a task for the main thread (every task runs there on this host).
    pub fn dispatch_on_main_thread(&mut self, task: T)
        ensures
            final(self).main_thread_tasks@ == old(self).main_thread_tasks@.push(task),
            final(self).is_main_thread == old(self).is_main_thread,
    {
        self.main_thread_tasks.push(task);
    }

    /// Take every queued task, in dispatch order, leaving the queue empty.
    /// The caller runs them.
    pub fn poll(&mut self) -> (r: Vec<T>)
        ensures
            r@ == old(self).main_thread_tasks@,
            final(self).main_thread_tasks@.len() == 0,
            final(self).is_main_thread == old(self).is_main_thread,
    {
        let mut out: Vec<T> = Vec::new();
        core::mem::swap(&mut out, &mut self.main_thread_tasks);
        out
    }
}

/// Poll the dispatcher the animation loop drives: take the queued tasks, in
/// dispatch order, for the caller to run.
pub fn poll_global_dispatcher<T>(dispatcher: &mut WebDispatcher<T>) -> (r: Vec<T>)
    ensures
        r@ == old(dispatcher).main_thread_tasks@,
        final(dispatcher).main_thread_tasks@.len() == 0,
        final(dispatcher).is_main_thread == old(dispatcher).is_main_thread,
{
    dispatcher.poll()
}

} // verus!
