//! Authenticated LatentMesh advisory telemetry sessions for cooperative drones.
//!
//! This module holds the rules of the untrusted radio protocol: how a sender
//! numbers, keys and rotates its messages, which metadata of a reassembled
//! envelope must agree with its signed contents, how a receiver bounds
//! sources, fragment contexts and frame rates, and when replay, epoch,
//! keyframe and freshness checks reject an envelope. A successful receive is
//! still advisory data: it is not authority for flight control, collision
//! avoidance, geofencing, failsafe transitions, or topology state.

use vstd::prelude::*;

use super::state::StateError;

verus! {

/// Failures of the LatentMesh Air frame codec that this library produces or
/// tells apart. Any other codec failure is carried as `Codec`.
#[derive(Clone, Copy, Debug, PartialEq, Eq, Structural)]
pub enum AirError {
    InvalidLength,
    CrcMismatch,
    ReassemblyFull,
    FragmentConflict,
    InvalidFragment,
    InvalidClass,
    BaseStateMismatch,
    Codec,
}

/// Why the protocol refused a frame, an envelope, or a session operation.
#[allow(inconsistent_fields)]
#[derive(Clone, Copy, Debug, PartialEq, Eq)]
pub enum ProtocolError {
    Air(AirError),
    State(StateError),
    UntrustedPeer(u32),
    AuthenticationFailed,
    SignatureRequired,
    MetadataMismatch(&'static str),
    SourceMismatch { source_id: u32, node_id: u32 },
    Replay { source_id: u32, epoch: u32 },
    TooOld { source_id: u32, epoch: u32 },
    StaleEpoch { source_id: u32, received: u32, current: u32 },
    StaleLogical { source_id: u32, received: u64, last: u64 },
    InvalidEpochStart { source_id: u32, epoch: u32 },
    StaleTimestamp { source_id: u32, received: u64, last: u64 },
    LearnedResidualForbidden,
    PeerCapacity(usize),
    SequenceExhausted,
    SigningFailed,
    SourceHintMismatch { expected: u32, actual: u32 },
    RateLimited { source_id: u32 },
    ReceiveClockRegression { source_id: u32 },
    SnapshotTooOld { source_id: u32 },
    SnapshotFromFuture { source_id: u32 },
    KeyframeRequired { source_id: u32, epoch: u32 },
    CheckpointRollback { source_id: u32 },
    InvalidEpochRotation { current_epoch: u32, new_epoch: u32 },
    IngressUnavailable { source_id: u32 },
}

pub type ProtocolResult<T> = Result<T, ProtocolError>;

/// Stable 16 bit stream id of a source: its low half xor its high half.
pub open spec fn stream_id_of(source_id: u32) -> u16 {
    ((source_id as u16) ^ ((source_id >> 16u32) as u16)) as u16
}

/// Stable, deterministic stream routing. Security does not depend on the
/// collision-prone 16 bit value; source identity comes from the signed envelope.
pub fn stream_id_for_source(source_id: u32) -> (stream_id: u16)
    ensures
        stream_id == stream_id_of(source_id),
{
    (source_id as u16) ^ ((source_id >> 16u32) as u16)
}

/// Wire sequence number of a logical sequence: its low 16 bits.
pub open spec fn wire_sequence_of(logical_sequence: u64) -> u16 {
    (logical_sequence % 0x1_0000) as u16
}

fn wire_sequence(logical_sequence: u64) -> (sequence: u16)
    ensures
        sequence == wire_sequence_of(logical_sequence),
{
    (logical_sequence % 0x1_0000) as u16
}

/// Numeric limits of a transmit configuration: the frame MTU lies within the
/// Air frame bounds, the priority fits four bits, and keyframes recur.
pub open spec fn tx_limits_valid(
    frame_mtu: usize,
    frame_min_bytes: usize,
    frame_max_bytes: usize,
    priority: u8,
    keyframe_interval: u32,
) -> bool {
    &&& frame_min_bytes <= frame_mtu <= frame_max_bytes
    &&& priority <= 15
    &&& keyframe_interval != 0
}

/// Check the numeric limits of a transmit configuration.
pub fn validate_tx_limits(
    frame_mtu: usize,
    frame_min_bytes: usize,
    frame_max_bytes: usize,
    priority: u8,
    keyframe_interval: u32,
) -> (result: ProtocolResult<()>)
    ensures
        result is Ok <==> tx_limits_valid(
            frame_mtu,
            frame_min_bytes,
            frame_max_bytes,
            priority,
            keyframe_interval,
        ),
        result is Err ==> result == Err::<(), ProtocolError>(ProtocolError::Air(AirError::InvalidLength)),
{
    if frame_mtu < frame_min_bytes || frame_mtu > frame_max_bytes {
        return Err(ProtocolError::Air(AirError::InvalidLength));
    }
    if priority > 15 || keyframe_interval == 0 {
        return Err(ProtocolError::Air(AirError::InvalidLength));
    }
    Ok(())
}

/// The numbering of the next message a sender will emit.
#[derive(Clone, Copy, Debug, PartialEq, Eq, Structural)]
pub struct TxSlot {
    pub logical_sequence: u64,
    /// The logical sequence as a 32 bit message id.
    pub message_id: u32,
    /// The low 16 bits of the logical sequence, carried in every frame.
    pub wire_sequence: u16,
    /// Whether the message is a full keyframe rather than a delta.
    pub keyframe: bool,
}

/// A sender's message numbering: source, epoch, next logical sequence, and
/// the keyframe interval. Counters move only when a message is committed.
#[derive(Clone, Copy, Debug)]
pub struct TxSequence {
    source_id: u32,
    epoch: u32,
    next_logical_sequence: u64,
    keyframe_interval: u32,
}

/// Abstract state of a sender's numbering.
pub struct TxSequenceView {
    pub source_id: u32,
    pub epoch: u32,
    pub next_logical_sequence: u64,
    pub keyframe_interval: u32,
}

/// The slot a sender in state `s` assigns to its next message about node
/// `node_id`, or why it cannot: the node must be the sender itself, and the
/// logical sequence must still fit a 32 bit message id.
pub open spec fn reserve_outcome(s: TxSequenceView, node_id: u32) -> ProtocolResult<TxSlot> {
    if node_id != s.source_id {
        Err(ProtocolError::SourceMismatch { source_id: s.source_id, node_id })
    } else if s.next_logical_sequence > u32::MAX {
        Err(ProtocolError::SequenceExhausted)
    } else {
        Ok(
            TxSlot {
                logical_sequence: s.next_logical_sequence,
                message_id: s.next_logical_sequence as u32,
                wire_sequence: wire_sequence_of(s.next_logical_sequence),
                keyframe: s.next_logical_sequence % (s.keyframe_interval as u64) == 0,
            },
        )
    }
}

impl View for TxSequence {
    type V = TxSequenceView;

    closed spec fn view(&self) -> TxSequenceView {
        TxSequenceView {
            source_id: self.source_id,
            epoch: self.epoch,
            next_logical_sequence: self.next_logical_sequence,
            keyframe_interval: self.keyframe_interval,
        }
    }
}

impl TxSequence {
    /// Well-formedness: keyframes recur, that is the keyframe interval is
    /// nonzero.
    pub open spec fn wf(self) -> bool {
        self@.keyframe_interval != 0
    }

    /// Start numbering at logical sequence zero of `epoch`.
    pub fn new(source_id: u32, epoch: u32, keyframe_interval: u32) -> (result: ProtocolResult<Self>)
        ensures
            keyframe_interval == 0 ==> result == Err::<TxSequence, ProtocolError>(
                ProtocolError::Air(AirError::InvalidLength),
            ),
            keyframe_interval != 0 ==> result is Ok && result->Ok_0.wf() && result->Ok_0@
                == (TxSequenceView {
                source_id,
                epoch,
                next_logical_sequence: 0,
                keyframe_interval,
            }),
    {
        if keyframe_interval == 0 {
            return Err(ProtocolError::Air(AirError::InvalidLength));
        }
        Ok(TxSequence { source_id, epoch, next_logical_sequence: 0, keyframe_interval })
    }

    pub fn source_id(&self) -> (r: u32)
        ensures
            r == self@.source_id,
    {
        self.source_id
    }

    pub fn epoch(&self) -> (r: u32)
        ensures
            r == self@.epoch,
    {
        self.epoch
    }

    pub fn next_logical_sequence(&self) -> (r: u64)
        ensures
            r == self@.next_logical_sequence,
    {
        self.next_logical_sequence
    }

    /// Move to a strictly greater epoch, restarting the logical sequence.
    pub fn rotate_epoch(&mut self, new_epoch: u32) -> (result: ProtocolResult<()>)
        requires
            old(self).wf(),
        ensures
            final(self).wf(),
            new_epoch <= old(self)@.epoch ==> result == Err::<(), ProtocolError>(
                ProtocolError::InvalidEpochRotation { current_epoch: old(self)@.epoch, new_epoch },
            ) && final(self)@ == old(self)@,
            new_epoch > old(self)@.epoch ==> result is Ok && final(self)@ == (TxSequenceView {
                epoch: new_epoch,
                next_logical_sequence: 0,
                ..old(self)@
            }),
    {
        if new_epoch <= self.epoch {
            return Err(
                ProtocolError::InvalidEpochRotation { current_epoch: self.epoch, new_epoch },
            );
        }
        self.epoch = new_epoch;
        self.next_logical_sequence = 0;
        Ok(())
    }

    /// Number the next message about node `node_id` without consuming it.
    pub fn reserve(&self, node_id: u32) -> (result: ProtocolResult<TxSlot>)
        requires
            self.wf(),
        ensures
            result == reserve_outcome(self@, node_id),
    {
        if node_id != self.source_id {
            return Err(ProtocolError::SourceMismatch { source_id: self.source_id, node_id });
        }
        let logical_sequence = self.next_logical_sequence;
        if logical_sequence > u32::MAX as u64 {
            return Err(ProtocolError::SequenceExhausted);
        }
        let message_id = logical_sequence as u32;
        let keyframe = logical_sequence % (self.keyframe_interval as u64) == 0;
        Ok(
            TxSlot {
                logical_sequence,
                message_id,
                wire_sequence: wire_sequence(logical_sequence),
                keyframe,
            },
        )
    }

    /// Consume a reserved slot once its message was encoded, signed and
    /// fragmented successfully.
    pub fn commit(&mut self, slot: &TxSlot)
        requires
            old(self).wf(),
            reserve_outcome(old(self)@, old(self)@.source_id) == Ok::<TxSlot, ProtocolError>(*slot),
        ensures
            final(self).wf(),
            final(self)@ == (TxSequenceView {
                next_logical_sequence: (slot.logical_sequence + 1) as u64,
                ..old(self)@
            }),
    {
        self.next_logical_sequence = slot.logical_sequence + 1;
    }
}

/// Within an epoch every committed message gets the next logical sequence,
/// so sequences strictly increase, and the slot after a rotation is logical
/// sequence zero of the new epoch, which is always a keyframe.
pub proof fn law_tx_sequence_monotonic_and_rotation_keyframes(s: TxSequenceView, new_epoch: u32)
    requires
        s.keyframe_interval != 0,
        reserve_outcome(s, s.source_id) is Ok,
        new_epoch > s.epoch,
    ensures
        ({
            let slot = reserve_outcome(s, s.source_id)->Ok_0;
            let next = TxSequenceView {
                next_logical_sequence: (slot.logical_sequence + 1) as u64,
                ..s
            };
            &&& slot.logical_sequence == s.next_logical_sequence
            &&& next.next_logical_sequence > s.next_logical_sequence
            &&& reserve_outcome(next, s.source_id) is Ok ==> reserve_outcome(
                next,
                s.source_id,
            )->Ok_0.logical_sequence > slot.logical_sequence
        }),
        ({
            let rotated = TxSequenceView { epoch: new_epoch, next_logical_sequence: 0, ..s };
            &&& reserve_outcome(rotated, s.source_id) is Ok
            &&& reserve_outcome(rotated, s.source_id)->Ok_0.logical_sequence == 0
            &&& reserve_outcome(rotated, s.source_id)->Ok_0.keyframe
        }),
{
}

} // verus!
