//! A writer for completion scripts that treats a closed pipe as the end of
//! output rather than as a failure.
use vstd::prelude::*;

verus! {

/// What an operation on the underlying writer gave.
#[derive(Debug, Clone, Copy, PartialEq, Eq)]
pub enum IoOutcome {
    /// It succeeded; for a write, this many bytes were written.
    Done(usize),
    /// The reader went away: the pipe is broken.
    BrokenPipe,
    /// Any other failure.
    Failed,
}

/// What the wrapping writer reports.
#[derive(Debug, Clone, Copy, PartialEq, Eq)]
pub enum WriteReport {
    /// Success, with the number of bytes to report as written.
    Written(usize),
    /// The underlying failure is passed on.
    PassOnError,
}

/// A writer around `inner` that, once the pipe is broken, accepts and drops
/// everything.
#[derive(Debug)]
pub struct BrokenPipeSafeWriter<W> {
    pub inner: W,
    pub closed: bool,
}

impl<W> BrokenPipeSafeWriter<W> {
    /// A writer around `inner`, not yet closed.
    pub fn new(inner: W) -> (w: Self)
        ensures
            w.inner == inner,
            !w.closed,
    {
        BrokenPipeSafeWriter { inner, closed: false }
    }

    /// Whether the underlying writer is to be used at all.
    pub fn is_closed(&self) -> (r: bool)
        ensures
            r == self.closed,
    {
        self.closed
    }

    /// The report for writing `buf_len` bytes: everything counts as written
    /// once closed; a broken pipe closes the writer and counts as written;
    /// another failure is passed on.
    pub fn after_write(&mut self, buf_len: usize, outcome: IoOutcome) -> (r: WriteReport)
        ensures
            final(self).inner == old(self).inner,
            old(self).closed ==> r == WriteReport::Written(buf_len) && final(self).closed,
            !old(self).closed ==> match outcome {
                IoOutcome::Done(n) => r == WriteReport::Written(n) && !final(self).closed,
                IoOutcome::BrokenPipe => r == WriteReport::Written(buf_len) && final(self).closed,
                IoOutcome::Failed => r == WriteReport::PassOnError && !final(self).closed,
            },
    {
        if self.closed {
            return WriteReport::Written(buf_len);
        }
        match outcome {
            IoOutcome::Done(n) => WriteReport::Written(n),
            IoOutcome::BrokenPipe => {
                self.closed = true;
                WriteReport::Written(buf_len)
            },
            IoOutcome::Failed => WriteReport::PassOnError,
        }
    }

    /// The report for flushing: success once closed; a broken pipe closes the
    /// writer and counts as success; another failure is passed on.
    pub fn after_flush(&mut self, outcome: IoOutcome) -> (r: WriteReport)
        ensures
            final(self).inner == old(self).inner,
            old(self).closed ==> r == WriteReport::Written(0) && final(self).closed,
            !old(self).closed ==> match outcome {
                IoOutcome::Done(_) => r == WriteReport::Written(0) && !final(self).closed,
                IoOutcome::BrokenPipe => r == WriteReport::Written(0) && final(self).closed,
                IoOutcome::Failed => r == WriteReport::PassOnError && !final(self).closed,
            },
    {
        if self.closed {
            return WriteReport::Written(0);
        }
        match outcome {
            IoOutcome::Done(_) => WriteReport::Written(0),
            IoOutcome::BrokenPipe => {
                self.closed = true;
                WriteReport::Written(0)
            },
            IoOutcome::Failed => WriteReport::PassOnError,
        }
    }
}

} // verus!
