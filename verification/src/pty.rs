//! The life of a pseudo-terminal descriptor, and what is made of the bytes
//! that were read from it.
//!
//! The system calls are the caller's. This module decides which descriptor
//! they may be made on, when the descriptor is handed back to the system, and
//! how a loop that reads or writes goes on after a failure.

use vstd::prelude::*;

verus! {

/// The size of the buffer that one read fills.
pub const BUFFER_SIZE: usize = 65536;

/// Why a read or a write failed.
#[derive(Clone, Copy, Debug, PartialEq, Eq, Structural)]
pub enum PtyError {
    /// The descriptor is no longer open: the shell has gone, or the
    /// descriptor was closed. This ends a session in the ordinary way.
    BadDescriptor,
    /// Any other failure, with the system's error number. It is passing.
    Other(i32),
}

/// What a reading or writing loop does after one attempt.
#[derive(Clone, Copy, Debug, PartialEq, Eq, Structural)]
pub enum LoopStep {
    /// The attempt succeeded: go on.
    Continue,
    /// The attempt failed in a passing way: report it and go on.
    Report,
    /// The descriptor is gone: leave the loop.
    Stop,
}

/// The step that follows an attempt with the given outcome.
pub open spec fn step_after<T>(outcome: Result<T, PtyError>) -> LoopStep {
    match outcome {
        Ok(_) => LoopStep::Continue,
        Err(PtyError::BadDescriptor) => LoopStep::Stop,
        Err(PtyError::Other(_)) => LoopStep::Report,
    }
}

/// Decides how a loop goes on after a read or a write.
pub fn loop_step<T>(outcome: &Result<T, PtyError>) -> (step: LoopStep)
    ensures
        step == step_after(*outcome),
{
    match outcome {
        Ok(_) => LoopStep::Continue,
        Err(PtyError::BadDescriptor) => LoopStep::Stop,
        Err(PtyError::Other(_)) => LoopStep::Report,
    }
}

/// A descriptor and whether it is still open.
#[derive(Clone, Copy, Debug, PartialEq, Eq, Structural)]
pub struct PtyState {
    pub fd: i32,
    pub open: bool,
}

/// The descriptor that a read or a write is made on: none once closed.
pub open spec fn descriptor_of(state: PtyState) -> Result<i32, PtyError> {
    if state.open {
        Ok(state.fd)
    } else {
        Err(PtyError::BadDescriptor)
    }
}

/// The descriptor that closing hands back to the system: the open one, and
/// nothing where it was closed before.
pub open spec fn released_by_close(state: PtyState) -> Option<i32> {
    if state.open {
        Some(state.fd)
    } else {
        None
    }
}

/// The state after closing.
pub open spec fn after_close(state: PtyState) -> PtyState {
    PtyState { fd: state.fd, open: false }
}

/// The master side of a pseudo-terminal.
pub struct Pty {
    fd: i32,
    open: bool,
}

impl View for Pty {
    type V = PtyState;

    closed spec fn view(&self) -> PtyState {
        PtyState { fd: self.fd, open: self.open }
    }
}

impl Pty {
    /// Takes charge of an open descriptor.
    pub fn new(fd: i32) -> (pty: Self)
        ensures
            pty@ == (PtyState { fd, open: true }),
    {
        Pty { fd, open: true }
    }

    /// The descriptor's number, open or not.
    pub fn fd(&self) -> (fd: i32)
        ensures
            fd == self@.fd,
    {
        self.fd
    }

    pub fn is_closed(&self) -> (closed: bool)
        ensures
            closed == !self@.open,
    {
        !self.open
    }

    /// The descriptor to read from or write to. Once the descriptor was
    /// closed, this is the bad descriptor error, which is what a read or a
    /// write then fails with.
    pub fn descriptor(&self) -> (descriptor: Result<i32, PtyError>)
        ensures
            descriptor == descriptor_of(self@),
    {
        if self.open {
            Ok(self.fd)
        } else {
            Err(PtyError::BadDescriptor)
        }
    }

    /// Closes. The result is the descriptor that the caller must now hand
    /// back to the system, and it is there only the first time.
    pub fn close(&mut self) -> (released: Option<i32>)
        ensures
            released == released_by_close(old(self)@),
            final(self)@ == after_close(old(self)@),
    {
        if self.open {
            self.open = false;
            Some(self.fd)
        } else {
            None
        }
    }
}

/// Whether `len` is where the zero padding of `buffer` starts: everything
/// from `len` on is zero, and the byte before it is not.
pub open spec fn is_valid_len(buffer: Seq<u8>, len: int) -> bool {
    &&& 0 <= len <= buffer.len()
    &&& len > 0 ==> buffer[len - 1] != 0
    &&& forall|i: int| len <= i < buffer.len() ==> buffer[i] == 0
}

/// Cuts the zero padding off a buffer that a read has filled from its start.
/// Zero bytes before the last other byte stay.
pub fn valid_prefix(buffer: Vec<u8>) -> (bytes: Vec<u8>)
    ensures
        is_valid_len(buffer@, bytes@.len() as int),
        bytes@ == buffer@.take(bytes@.len() as int),
{
    let mut buffer = buffer;
    let ghost given = buffer@;
    let mut len: usize = buffer.len();
    while len > 0 && buffer[len - 1] == 0
        invariant
            buffer@ == given,
            len <= given.len(),
            forall|i: int| len <= i < given.len() ==> given[i] == 0,
        decreases len,
    {
        len -= 1;
    }
    buffer.truncate(len);
    assert(buffer@ == given.take(len as int));
    buffer
}

/// After a close nothing can be read or written, and closing again does
/// nothing: the descriptor is refused as a bad descriptor, no descriptor is
/// released a second time, and the state stays as it is.
pub proof fn lemma_close_is_final(state: PtyState)
    ensures
        descriptor_of(after_close(state)) == Err::<i32, PtyError>(PtyError::BadDescriptor),
        step_after(descriptor_of(after_close(state))) == LoopStep::Stop,
        released_by_close(after_close(state)) == None::<i32>,
        after_close(after_close(state)) == after_close(state),
{
}

/// A descriptor is released exactly once, by the first close of an open one.
pub proof fn lemma_released_once(fd: i32)
    ensures
        released_by_close(PtyState { fd, open: true }) == Some(fd),
        released_by_close(after_close(PtyState { fd, open: true })) == None::<i32>,
{
}

/// The zero padding of a buffer starts at one place only, so
/// [`valid_prefix`] has one result.
pub proof fn lemma_valid_len_is_unique(buffer: Seq<u8>, a: int, b: int)
    requires
        is_valid_len(buffer, a),
        is_valid_len(buffer, b),
    ensures
        a == b,
{
    if a < b {
        assert(buffer[b - 1] == 0);
    } else if b < a {
        assert(buffer[a - 1] == 0);
    }
}

} // verus!
