use vstd::prelude::*;

use std::collections::VecDeque;

use crate::disk_manager::DiskManagerError;
use crate::{PageId, PAGE_SIZE};

verus! {

#[verifier::external_type_specification]
#[verifier::external_body]
pub struct ExRecvError(std::sync::mpsc::RecvError);

/// A disk operation to be carried out by a worker. A write carries the bytes
/// it stores; a read hands its bytes back with its completion.
#[derive(Debug, Clone, Copy)]
pub enum Request {
    Read(PageId),
    Write(PageId, [u8; PAGE_SIZE]),
}

/// Why a scheduled disk operation failed.
#[derive(Debug)]
pub enum DiskSchedulerError {
    DiskManagerError(DiskManagerError),
    SendError,
    RecvError(std::sync::mpsc::RecvError),
    UnexpectedError,
    /// The scheduler is shutting down and takes no new requests.
    ShutDown,
}

/// What a worker does next.
pub enum WorkerStep<T> {
    /// Carry out this request, then ask again.
    Execute(T),
    /// Nothing is pending yet: wait for a request.
    Wait,
    /// The scheduler is shut down and every request has been handed out.
    Exit,
}

/// The pending requests of a scheduler, oldest first, and whether it still
/// takes new ones.
pub struct RequestQueue<T> {
    pending: VecDeque<T>,
    accepting: bool,
}

impl<T> RequestQueue<T> {
    pub closed spec fn pending(&self) -> Seq<T> {
        self.pending@
    }

    pub closed spec fn accepting(&self) -> bool {
        self.accepting
    }

    /// An empty queue that takes requests.
    pub fn new() -> (r: Self)
        ensures
            r.pending() == Seq::<T>::empty(),
            r.accepting(),
    {
        RequestQueue { pending: VecDeque::new(), accepting: true }
    }

    /// Appends `request` behind the pending ones; once the queue is shut down,
    /// the request is refused and the queue left as it is.
    pub fn submit(&mut self, request: T) -> (r: Result<(), DiskSchedulerError>)
        ensures
            old(self).accepting() ==> r is Ok && final(self).pending() == old(self).pending().push(
                request,
            ),
            !old(self).accepting() ==> r is Err && r->Err_0 is ShutDown
                && final(self).pending() == old(self).pending(),
            final(self).accepting() == old(self).accepting(),
    {
        if !self.accepting {
            return Err(DiskSchedulerError::ShutDown);
        }
        self.pending.push_back(request);
        Ok(())
    }

    /// Hands out the oldest pending request. With none pending, a worker waits
    /// while the queue takes requests and exits once it is shut down: nothing
    /// queued is ever dropped.
    pub fn next_step(&mut self) -> (r: WorkerStep<T>)
        ensures
            final(self).accepting() == old(self).accepting(),
            old(self).pending().len() > 0 ==> r == WorkerStep::Execute(old(self).pending()[0])
                && final(self).pending() == old(self).pending().drop_first(),
            old(self).pending().len() == 0 ==> final(self).pending() == old(self).pending() && (
            r is Wait <==> old(self).accepting()) && (r is Exit <==> !old(self).accepting()),
    {
        match self.pending.pop_front() {
            Some(request) => {
                assert(self.pending@ =~= old(self).pending@.drop_first());
                WorkerStep::Execute(request)
            },
            None => {
                if self.accepting {
                    WorkerStep::Wait
                } else {
                    WorkerStep::Exit
                }
            },
        }
    }

    /// Stops taking requests; those already pending stay to be handed out.
    pub fn shut_down(&mut self)
        ensures
            !final(self).accepting(),
            final(self).pending() == old(self).pending(),
    {
        self.accepting = false;
    }

    /// The number of pending requests.
    pub fn len(&self) -> (r: usize)
        ensures
            r == self.pending().len(),
    {
        self.pending.len()
    }
}

} // verus!
