use vstd::prelude::*;

verus! {

/// How one attempt to write part of a buffer to the device ended.
pub enum WriteOutcome {
    /// The device took this many bytes.
    Wrote(usize),
    /// The call was interrupted before anything was written.
    Interrupted,
    /// Any other failure.
    Failed,
}

/// What a sender does next after a write attempt.
#[derive(Debug, PartialEq, Eq, Structural)]
pub enum WriteStep {
    /// Write again from this offset.
    Continue(usize),
    /// Every byte was taken: flush and stop.
    Finished,
    /// The device took nothing: give up with a write-zero error.
    Stalled,
    /// Give up with the failure that was reported.
    Abort,
}

/// Decides the next step of sending `total` bytes of which `sent` were taken
/// so far: a partial write moves the offset on, an interrupt retries, a write
/// of zero bytes or any other failure stops.
pub fn write_step(sent: usize, total: usize, outcome: WriteOutcome) -> (r: WriteStep)
    requires
        sent < total,
    ensures
        outcome matches WriteOutcome::Wrote(n) ==> {
            &&& n == 0 ==> r == WriteStep::Stalled
            &&& 0 < n && sent + n < total ==> r == WriteStep::Continue((sent + n) as usize)
            &&& 0 < n && sent + n >= total ==> r == WriteStep::Finished
        },
        outcome is Interrupted ==> r == WriteStep::Continue(sent),
        outcome is Failed ==> r == WriteStep::Abort,
{
    match outcome {
        WriteOutcome::Wrote(n) => {
            if n == 0 {
                WriteStep::Stalled
            } else if n >= total - sent {
                WriteStep::Finished
            } else {
                WriteStep::Continue(sent + n)
            }
        },
        WriteOutcome::Interrupted => WriteStep::Continue(sent),
        WriteOutcome::Failed => WriteStep::Abort,
    }
}

/// How one attempt to read the status byte ended.
pub enum ReadOutcome {
    /// A byte arrived.
    Byte(u8),
    /// The device reported end of stream.
    Closed,
    /// Nothing is available yet.
    NotReady,
    /// The call was interrupted.
    Interrupted,
    /// Any other failure.
    Failed,
}

/// What a reader does next after a read attempt.
#[derive(Debug, PartialEq, Eq, Structural)]
pub enum ReadStep {
    /// The byte is here.
    Done(u8),
    /// The printer went away.
    Disconnected,
    /// Try again immediately.
    Retry,
    /// Wait a little, then try again.
    WaitAndRetry,
    /// The time allowed is used up.
    TimedOut,
    /// Give up with the failure that was reported.
    Abort,
}

/// Decides the next step of waiting for one byte when `elapsed_ms` of the
/// allowed `timeout_ms` have passed.
pub fn read_step(outcome: ReadOutcome, elapsed_ms: u64, timeout_ms: u64) -> (r: ReadStep)
    ensures
        outcome matches ReadOutcome::Byte(b) ==> r == ReadStep::Done(b),
        outcome is Closed ==> r == ReadStep::Disconnected,
        outcome is NotReady && elapsed_ms >= timeout_ms ==> r == ReadStep::TimedOut,
        outcome is NotReady && elapsed_ms < timeout_ms ==> r == ReadStep::WaitAndRetry,
        outcome is Interrupted ==> r == ReadStep::Retry,
        outcome is Failed ==> r == ReadStep::Abort,
{
    match outcome {
        ReadOutcome::Byte(b) => ReadStep::Done(b),
        ReadOutcome::Closed => ReadStep::Disconnected,
        ReadOutcome::NotReady => {
            if elapsed_ms >= timeout_ms {
                ReadStep::TimedOut
            } else {
                ReadStep::WaitAndRetry
            }
        },
        ReadOutcome::Interrupted => ReadStep::Retry,
        ReadOutcome::Failed => ReadStep::Abort,
    }
}

} // verus!
