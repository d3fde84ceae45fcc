//! The switches of a running job, and the answer to an incoming offer.

use crate::error::{ErrorModel, TransferError};
use vstd::prelude::*;

verus! {

/// What a person answered to an incoming offer.
#[derive(Debug, Clone, Copy, PartialEq, Eq, Structural)]
pub struct ReceiveDecision {
    pub accept: bool,
    pub automatic_receive: bool,
    pub cancelled: bool,
}

/// The switches by which a job is paused and cancelled.
#[derive(Debug, Clone, Copy, PartialEq, Eq, Structural)]
pub struct JobControl {
    pub paused: bool,
    pub cancelled: bool,
}

impl JobControl {
    /// A job that runs.
    pub fn new() -> (control: JobControl)
        ensures
            control == (JobControl { paused: false, cancelled: false }),
    {
        JobControl { paused: false, cancelled: false }
    }

    /// The job once it has been paused.
    pub open spec fn after_pause(self) -> JobControl {
        JobControl { paused: true, ..self }
    }

    /// The job once it has been resumed.
    pub open spec fn after_resume(self) -> JobControl {
        JobControl { paused: false, ..self }
    }

    /// The job once it has been cancelled.
    pub open spec fn after_cancel(self) -> JobControl {
        JobControl { cancelled: true, ..self }
    }

    /// Whether the job may go on: whether it may do so now, or that it is
    /// cancelled.
    pub open spec fn readiness(self) -> Result<bool, ErrorModel> {
        if self.cancelled {
            Err(ErrorModel::Cancelled)
        } else {
            Ok(!self.paused)
        }
    }

    /// Stops the job until it is resumed.
    pub fn pause(&mut self)
        ensures
            *final(self) == old(self).after_pause(),
    {
        self.paused = true;
    }

    /// Lets a paused job go on.
    pub fn resume(&mut self)
        ensures
            *final(self) == old(self).after_resume(),
    {
        self.paused = false;
    }

    /// Ends the job.
    pub fn cancel(&mut self)
        ensures
            *final(self) == old(self).after_cancel(),
    {
        self.cancelled = true;
    }

    /// Whether the job has been ended.
    pub fn is_cancelled(&self) -> (cancelled: bool)
        ensures
            cancelled == self.cancelled,
    {
        self.cancelled
    }

    /// Whether the job may go on now. Where it may not, it waits until one of
    /// its switches changes and asks again.
    pub fn wait_ready(&self) -> (result: Result<bool, TransferError>)
        ensures
            (match result {
                Ok(ready) => Ok::<bool, ErrorModel>(ready),
                Err(error) => Err(error@),
            }) == self.readiness(),
    {
        if self.cancelled {
            return Err(TransferError::Cancelled);
        }
        Ok(!self.paused)
    }
}

/// A job that has been cancelled stays cancelled, whether it is paused or
/// resumed afterwards.
pub proof fn cancellation_is_final(control: JobControl)
    ensures
        control.after_cancel().readiness() == Err::<bool, _>(ErrorModel::Cancelled),
        control.after_cancel().after_pause().readiness() == Err::<bool, _>(ErrorModel::Cancelled),
        control.after_cancel().after_resume().readiness() == Err::<bool, _>(ErrorModel::Cancelled),
{
}

/// A pause holds a job until it is resumed, and no longer.
pub proof fn pause_holds_until_resume(control: JobControl)
    requires
        !control.cancelled,
    ensures
        control.after_pause().readiness() == Ok::<_, ErrorModel>(false),
        control.after_pause().after_resume().readiness() == Ok::<_, ErrorModel>(true),
{
}

} // verus!
