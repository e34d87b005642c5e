//! Writing a buffer to a stream that may not be ready: a computation that is
//! resumed until every byte is sent.

use vstd::prelude::*;

verus! {

/// What the stream said to the last step.
#[derive(Clone, Copy, Debug, PartialEq, Eq, Structural)]
pub enum WriteEvent {
    /// The stream took `count` bytes. `pending_writes` tells whether the
    /// kernel's send buffer still holds bytes after the write.
    Wrote { count: usize, pending_writes: bool },
    /// The stream was not ready.
    WouldBlock,
    /// The write was interrupted.
    Interrupted,
    /// The write failed for good.
    Failed,
    /// The computation was resumed after a yield. `pending_writes` tells
    /// whether the kernel's send buffer still holds bytes.
    Resumed { pending_writes: bool },
}

/// What to do next.
#[derive(Clone, Copy, Debug, PartialEq, Eq, Structural)]
pub enum WriteStep {
    /// Write the bytes from index `from` on and report what the stream said.
    Write { from: usize },
    /// Give up control until the next pass, then report `Resumed`.
    Yield,
    /// Every byte is sent.
    Done,
    /// The stream failed; the bytes from the cursor on were not sent.
    Failed,
}

/// Why the computation is suspended, if it is.
#[derive(Clone, Copy, Debug, PartialEq, Eq, Structural)]
pub enum Pause {
    /// It is not suspended.
    Running,
    /// The stream was not ready or the write was interrupted.
    Blocked,
    /// A write took only part of the bytes and the kernel's send buffer is
    /// not empty yet.
    Draining,
    /// It has ended: every byte is sent.
    Finished,
    /// It has ended: the stream failed.
    Broken,
}

/// The state of a write: how long the buffer is, how many of its bytes the
/// stream has taken, and whether the write is suspended.
#[derive(Clone, Copy, Debug, PartialEq, Eq, Structural)]
pub struct WriteAll {
    pub len: usize,
    pub cursor: usize,
    pub pause: Pause,
}

/// The cursor after the stream took `count` more bytes. A stream takes no
/// more than it was given; a count beyond that moves the cursor to the end.
pub open spec fn advanced(state: WriteAll, count: usize) -> usize {
    if count >= state.len - state.cursor {
        state.len
    } else {
        (state.cursor + count) as usize
    }
}

impl WriteAll {
    /// The cursor lies within the buffer, and a write that has finished has
    /// sent every byte.
    pub open spec fn wf(self) -> bool {
        &&& self.cursor <= self.len
        &&& self.pause == Pause::Finished ==> self.cursor == self.len
    }

    /// The state and the step that follow on `event`.
    pub open spec fn next(self, event: WriteEvent) -> (WriteAll, WriteStep) {
        if self.pause == Pause::Finished {
            (self, WriteStep::Done)
        } else if self.pause == Pause::Broken {
            (self, WriteStep::Failed)
        } else {
            match event {
                WriteEvent::Wrote { count, pending_writes } => {
                    let cursor = advanced(self, count);
                    if cursor >= self.len {
                        (WriteAll { cursor, pause: Pause::Finished, ..self }, WriteStep::Done)
                    } else if pending_writes {
                        (WriteAll { cursor, pause: Pause::Draining, ..self }, WriteStep::Yield)
                    } else {
                        (
                            WriteAll { cursor, pause: Pause::Running, ..self },
                            WriteStep::Write { from: cursor },
                        )
                    }
                },
                WriteEvent::WouldBlock | WriteEvent::Interrupted => (
                    WriteAll { pause: Pause::Blocked, ..self },
                    WriteStep::Yield,
                ),
                WriteEvent::Failed => (WriteAll { pause: Pause::Broken, ..self }, WriteStep::Failed),
                WriteEvent::Resumed { pending_writes } => {
                    if self.pause == Pause::Draining && pending_writes {
                        (self, WriteStep::Yield)
                    } else {
                        (
                            WriteAll { pause: Pause::Running, ..self },
                            WriteStep::Write { from: self.cursor },
                        )
                    }
                },
            }
        }
    }

    /// A write of `len` bytes of which none is sent. Its first step is
    /// `first_step()`.
    pub fn new(len: usize) -> (state: WriteAll)
        ensures
            state == (WriteAll { len, cursor: 0, pause: Pause::Running }),
            state.wf(),
    {
        WriteAll { len, cursor: 0, pause: Pause::Running }
    }

    /// The step that a fresh write begins with: a write from the start.
    pub fn first_step(&self) -> (step: WriteStep)
        ensures
            step == (WriteStep::Write { from: self.cursor }),
    {
        WriteStep::Write { from: self.cursor }
    }

    /// Takes in what the stream said and decides the next step.
    ///
    /// A stream that is not ready, or a write that was interrupted, suspends
    /// the write; it goes on where it stood when it is resumed. After a
    /// write that took only part of the bytes the write stays suspended
    /// for as long as the kernel's send buffer is not empty. Any other
    /// failure ends it. It is done when the cursor has reached the end.
    pub fn step(&mut self, event: WriteEvent) -> (step: WriteStep)
        requires
            old(self).wf(),
        ensures
            (*final(self), step) == old(self).next(event),
            final(self).wf(),
            final(self).len == old(self).len,
            old(self).cursor <= final(self).cursor,
            step matches WriteStep::Write { from } ==> from == final(self).cursor,
            step == WriteStep::Done <==> final(self).pause == Pause::Finished,
            step == WriteStep::Failed <==> final(self).pause == Pause::Broken,
    {
        if self.pause == Pause::Finished {
            return WriteStep::Done;
        }
        if self.pause == Pause::Broken {
            return WriteStep::Failed;
        }
        match event {
            WriteEvent::Wrote { count, pending_writes } => {
                if count >= self.len - self.cursor {
                    self.cursor = self.len;
                    self.pause = Pause::Finished;
                    WriteStep::Done
                } else {
                    self.cursor = self.cursor + count;
                    if pending_writes {
                        self.pause = Pause::Draining;
                        WriteStep::Yield
                    } else {
                        self.pause = Pause::Running;
                        WriteStep::Write { from: self.cursor }
                    }
                }
            },
            WriteEvent::WouldBlock | WriteEvent::Interrupted => {
                self.pause = Pause::Blocked;
                WriteStep::Yield
            },
            WriteEvent::Failed => {
                self.pause = Pause::Broken;
                WriteStep::Failed
            },
            WriteEvent::Resumed { pending_writes } => {
                if self.pause == Pause::Draining && pending_writes {
                    WriteStep::Yield
                } else {
                    self.pause = Pause::Running;
                    WriteStep::Write { from: self.cursor }
                }
            },
        }
    }
}

/// Begins to write `bytes` to a stream that may not be ready. The write
/// that is returned is stepped until it is done or has failed; its first
/// step is `first_step()`.
#[must_use]
pub fn write_async(bytes: &[u8]) -> (write: WriteAll)
    ensures
        write == (WriteAll { len: bytes.len(), cursor: 0, pause: Pause::Running }),
        write.wf(),
{
    WriteAll::new(bytes.len())
}

} // verus!
