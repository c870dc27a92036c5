//! Bounds every frame transport enforces: one record is one encoded frame,
//! never larger than the air-interface bound, and in-process links have a
//! bounded, nonzero queue. The async channel and UDP plumbing stay outside.

use vstd::prelude::*;

verus! {

/// Why a frame could not be carried.
#[derive(Clone, Copy, Debug, PartialEq, Eq, Structural)]
pub enum TransportError {
    /// The other end of the transport is gone.
    Closed,
    /// The frame exceeds the transport bound.
    FrameTooLarge { length: usize, maximum: usize },
    /// A channel capacity outside `1..=4096` was asked for.
    InvalidCapacity,
    /// The operating system refused the datagram operation.
    Io,
}

/// The largest queue an in-process link may have.
pub const MAX_CHANNEL_CAPACITY: usize = 4_096;

/// Refuse a frame longer than `maximum` bytes, before it is queued or sent.
pub fn validate_frame_bound(frame: &[u8], maximum: usize) -> (r: Result<(), TransportError>)
    ensures
        r is Ok <==> frame@.len() <= maximum,
        r is Err ==> r == Err::<(), TransportError>(
            TransportError::FrameTooLarge { length: frame@.len() as usize, maximum },
        ),
{
    validate_frame_length(frame.len(), maximum)
}

/// Refuse a received datagram of `length` bytes longer than `maximum`.
pub fn validate_frame_length(length: usize, maximum: usize) -> (r: Result<(), TransportError>)
    ensures
        r is Ok <==> length <= maximum,
        r is Err ==> r == Err::<(), TransportError>(TransportError::FrameTooLarge { length, maximum }),
{
    if length > maximum {
        Err(TransportError::FrameTooLarge { length, maximum })
    } else {
        Ok(())
    }
}

/// Accept a channel capacity only within `1..=4096`.
pub fn validate_channel_capacity(capacity: usize) -> (r: Result<(), TransportError>)
    ensures
        r is Ok <==> 1 <= capacity <= MAX_CHANNEL_CAPACITY,
        r is Err ==> r == Err::<(), TransportError>(TransportError::InvalidCapacity),
{
    if capacity < 1 || capacity > MAX_CHANNEL_CAPACITY {
        Err(TransportError::InvalidCapacity)
    } else {
        Ok(())
    }
}

} // verus!
