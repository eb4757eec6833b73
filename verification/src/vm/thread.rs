use vstd::prelude::*;

use crate::vm::frame::Frame;
use crate::vm::runtime_class::ClassRef;

verus! {

/// The index of a thread in the virtual machine.
#[derive(Debug, Clone, Copy, PartialEq, Eq, Hash, Structural)]
pub struct ThreadRef(pub usize);

/// The life-cycle state of a thread (`java.lang.Thread.State`).
#[derive(Debug, Clone, Copy, PartialEq, Eq, Structural)]
pub enum ThreadState {
    New,
    Runnable,
    Blocked,
    Waiting,
    TimedWaiting,
    Terminated,
}

/// A thread: its stack of frames (the current frame last), name, state and
/// priority.
pub struct Thread {
    pub frames: Vec<Frame>,
    pub id: ThreadRef,
    pub name: String,
    pub state: ThreadState,
    pub priority: usize,
}

impl Thread {
    /// A new thread with no frames, in state `New`, of priority 5.
    pub fn new(id: ThreadRef, name: String) -> (r: Self)
        ensures
            r.frames@.len() == 0,
            r.id == id,
            r.name@ == name@,
            r.state == ThreadState::New,
            r.priority == 5,
    {
        Self { frames: Vec::new(), id, name, state: ThreadState::New, priority: 5 }
    }

    pub fn id(&self) -> (r: ThreadRef)
        ensures
            r == self.id,
    {
        self.id
    }

    /// Starts a new thread: `New` becomes `Runnable`.
    pub fn start(&mut self)
        requires
            old(self).state == ThreadState::New,
        ensures
            final(self).state == ThreadState::Runnable,
            final(self).frames@ == old(self).frames@,
            final(self).id == old(self).id,
            final(self).priority == old(self).priority,
    {
        self.state = ThreadState::Runnable;
    }

    /// The thread has ended.
    pub fn terminate(&mut self)
        ensures
            final(self).state == ThreadState::Terminated,
            final(self).frames@ == old(self).frames@,
            final(self).id == old(self).id,
            final(self).priority == old(self).priority,
    {
        self.state = ThreadState::Terminated;
    }

    /// The thread waits for a monitor.
    pub fn block(&mut self)
        ensures
            final(self).state == ThreadState::Blocked,
            final(self).frames@ == old(self).frames@,
            final(self).id == old(self).id,
            final(self).priority == old(self).priority,
    {
        self.state = ThreadState::Blocked;
    }

    /// The thread waits without a time limit.
    pub fn wait(&mut self)
        ensures
            final(self).state == ThreadState::Waiting,
            final(self).frames@ == old(self).frames@,
            final(self).id == old(self).id,
            final(self).priority == old(self).priority,
    {
        self.state = ThreadState::Waiting;
    }

    /// The thread waits with a time limit.
    pub fn timed_wait(&mut self)
        ensures
            final(self).state == ThreadState::TimedWaiting,
            final(self).frames@ == old(self).frames@,
            final(self).id == old(self).id,
            final(self).priority == old(self).priority,
    {
        self.state = ThreadState::TimedWaiting;
    }

    /// The thread runs again.
    pub fn resume_running(&mut self)
        ensures
            final(self).state == ThreadState::Runnable,
            final(self).frames@ == old(self).frames@,
            final(self).id == old(self).id,
            final(self).priority == old(self).priority,
    {
        self.state = ThreadState::Runnable;
    }

    pub fn name(&self) -> (r: &str)
        ensures
            r@ == self.name@,
    {
        self.name.as_str()
    }

    pub fn state(&self) -> (r: ThreadState)
        ensures
            r == self.state,
    {
        self.state
    }

    pub fn priority(&self) -> (r: usize)
        ensures
            r == self.priority,
    {
        self.priority
    }

    pub fn set_priority(&mut self, prio: usize)
        ensures
            final(self).priority == prio,
            final(self).state == old(self).state,
            final(self).frames@ == old(self).frames@,
            final(self).id == old(self).id,
    {
        self.priority = prio;
    }

    /// Makes `frame` the current frame.
    pub fn push_frame(&mut self, frame: Frame)
        ensures
            final(self).frames@ == old(self).frames@.push(frame),
            final(self).name == old(self).name,
            final(self).state == old(self).state,
            final(self).id == old(self).id,
            final(self).priority == old(self).priority,
    {
        self.frames.push(frame);
    }

    /// Removes the current frame; `None` when there is none.
    pub fn pop_frame(&mut self) -> (r: Option<Frame>)
        ensures
            old(self).frames@.len() == 0 ==> r is None && final(self).frames@ == old(self).frames@,
            old(self).frames@.len() > 0 ==> r == Some(old(self).frames@.last())
                && final(self).frames@ == old(self).frames@.drop_last(),
            final(self).name == old(self).name,
            final(self).state == old(self).state,
            final(self).id == old(self).id,
            final(self).priority == old(self).priority,
    {
        self.frames.pop()
    }

    /// The number of frames.
    pub fn frame_depth(&self) -> (r: usize)
        ensures
            r == self.frames@.len(),
    {
        self.frames.len()
    }

    /// The frames, the current one last.
    pub fn frames(&self) -> (r: &Vec<Frame>)
        ensures
            r@ == self.frames@,
    {
        &self.frames
    }

    /// The frames, the current one last, to change; the rest of the thread
    /// stays.
    pub fn lock_frames(&mut self) -> (r: &mut Vec<Frame>)
        ensures
            *r == old(self).frames,
            *final(self) == (Thread { frames: *final(r), ..*old(self) }),
    {
        &mut self.frames
    }

    /// The current frame.
    pub fn current_frame(&self) -> (r: Option<&Frame>)
        ensures
            self.frames@.len() == 0 ==> r is None,
            self.frames@.len() > 0 ==> r == Some(&self.frames@.last()),
    {
        if self.frames.len() == 0 {
            None
        } else {
            Some(&self.frames[self.frames.len() - 1])
        }
    }

    /// The class and method of each frame, the current one last.
    pub fn frame_snapshot(&self) -> (r: Vec<(ClassRef, usize)>)
        ensures
            r@.len() == self.frames@.len(),
            forall|i: int|
                0 <= i < r@.len() ==> #[trigger] r@[i] == (
                    self.frames@[i].class,
                    self.frames@[i].method_index,
                ),
    {
        let mut out: Vec<(ClassRef, usize)> = Vec::with_capacity(self.frames.len());
        let mut i: usize = 0;
        while i < self.frames.len()
            invariant
                i <= self.frames@.len(),
                out@.len() == i,
                forall|j: int|
                    0 <= j < i ==> #[trigger] out@[j] == (
                        self.frames@[j].class,
                        self.frames@[j].method_index,
                    ),
            decreases self.frames@.len() - i,
        {
            out.push((self.frames[i].class, self.frames[i].method_index));
            i = i + 1;
        }
        out
    }
}

} // verus!
