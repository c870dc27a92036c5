use ruview_swarm::latentmesh::protocol::{
    stream_id_for_source, AirError, ProtocolError, TxSequence,
};
use ruview_swarm::latentmesh::receive::{
    EnvelopeHeader, MessageHeader, ReplayCheckpoint, ReplayVerdict, RxLimits, RxState,
};

fn limits() -> RxLimits {
    RxLimits {
        max_peers: 2,
        max_frames_per_window: 3,
        frame_window_ms: 1_000,
        reassembly_timeout_ms: 500,
        max_snapshot_age_ms: 2_000,
        max_future_skew_ms: 250,
        advisory_ttl_ms: 5_000,
        max_contexts: 2,
    }
}

fn open(rx: &mut RxState, source: u32, now: u64) -> Result<(), ProtocolError> {
    rx.open_frame(source, now, stream_id_for_source(source), true, true, true).1
}

fn envelope(source: u32, epoch: u32, sequence: u64) -> EnvelopeHeader {
    EnvelopeHeader {
        source_id: source,
        epoch,
        message_id: sequence as u32,
        logical_sequence: sequence,
        priority: 3,
    }
}

fn message(source: u32, sequence: u64) -> MessageHeader {
    MessageHeader {
        stream_id: stream_id_for_source(source),
        sequence: (sequence % 0x1_0000) as u16,
        priority: 3,
    }
}

#[test]
fn stream_ids_fold_the_high_half_into_the_low_half() {
    assert_eq!(stream_id_for_source(31), 31);
    assert_eq!(stream_id_for_source(0x0001_001e), 0x001f);
    assert_eq!(stream_id_for_source(0xffff_0000), 0xffff);
    assert_eq!(stream_id_for_source(0x1234_1234), 0);
}

#[test]
fn invalid_receive_limits_are_refused() {
    let mut bad = limits();
    bad.max_peers = 0;
    assert_eq!(
        RxState::new(bad).err(),
        Some(ProtocolError::Air(AirError::InvalidLength))
    );
    let mut bad = limits();
    bad.max_peers = 257;
    assert!(RxState::new(bad).is_err());
    let mut bad = limits();
    bad.frame_window_ms = 0;
    assert!(RxState::new(bad).is_err());
    assert!(RxState::new(limits()).is_ok());
}

#[test]
fn frames_are_screened_before_authentication_in_order() {
    let mut rx = RxState::new(limits()).unwrap();
    assert_eq!(
        rx.open_frame(7, 10, stream_id_for_source(7), false, true, true).1,
        Err(ProtocolError::MetadataMismatch("profile"))
    );
    assert_eq!(
        rx.open_frame(7, 10, stream_id_for_source(7), true, false, true).1,
        Err(ProtocolError::MetadataMismatch("flags"))
    );
    assert_eq!(
        rx.open_frame(7, 10, 99, true, true, true).1,
        Err(ProtocolError::MetadataMismatch("source_hint_stream_id"))
    );
    assert_eq!(
        rx.open_frame(7, 10, stream_id_for_source(7), true, true, false).1,
        Err(ProtocolError::UntrustedPeer(7))
    );
    assert_eq!(rx.active_source_count(), 0);
    assert_eq!(open(&mut rx, 7, 10), Ok(()));
    assert_eq!(rx.active_source_count(), 1);
}

#[test]
fn untrusted_traffic_is_rate_limited_per_window() {
    let mut rx = RxState::new(limits()).unwrap();
    for t in [10, 20, 30] {
        assert_eq!(open(&mut rx, 7, t), Ok(()));
    }
    assert_eq!(
        open(&mut rx, 7, 40),
        Err(ProtocolError::RateLimited { source_id: 7 })
    );
    assert_eq!(open(&mut rx, 7, 1_010), Ok(()));
}

#[test]
fn receive_clock_may_not_run_backwards() {
    let mut rx = RxState::new(limits()).unwrap();
    assert_eq!(open(&mut rx, 7, 100), Ok(()));
    assert_eq!(
        open(&mut rx, 7, 99),
        Err(ProtocolError::ReceiveClockRegression { source_id: 7 })
    );
}

#[test]
fn source_table_is_bounded() {
    let mut rx = RxState::new(limits()).unwrap();
    assert_eq!(open(&mut rx, 1, 10), Ok(()));
    assert_eq!(open(&mut rx, 2, 10), Ok(()));
    assert_eq!(open(&mut rx, 3, 10), Err(ProtocolError::PeerCapacity(2)));
    assert_eq!(rx.active_source_count(), 2);
}

#[test]
fn partial_messages_are_bounded_and_expire() {
    let mut rx = RxState::new(limits()).unwrap();
    assert_eq!(open(&mut rx, 7, 10), Ok(()));
    assert_eq!(rx.register_fragment(7, (1, 0), true, 10), Ok(()));
    assert_eq!(rx.register_fragment(7, (2, 0), true, 10), Ok(()));
    assert!(rx.register_fragment(7, (3, 0), true, 10).is_err());
    let (expired, verdict) = rx.open_frame(7, 600, stream_id_for_source(7), true, true, true);
    assert_eq!(verdict, Ok(()));
    let mut expired = expired;
    expired.sort();
    assert_eq!(expired, vec![(1, 0), (2, 0)]);
    assert_eq!(rx.register_fragment(7, (3, 0), true, 600), Ok(()));
}

#[test]
fn admission_advances_the_high_water_mark_and_blocks_replay() {
    let mut rx = RxState::new(limits()).unwrap();
    assert_eq!(open(&mut rx, 7, 1_000), Ok(()));
    let first = envelope(7, 1, 0);
    assert!(rx.screen_epoch(&first, true, 0).is_ok());
    assert_eq!(
        rx.screen_epoch(&first, true, 2),
        Err(ProtocolError::LearnedResidualForbidden)
    );
    assert_eq!(rx.screen_replay(&first, ReplayVerdict::Accept), Ok(()));
    assert_eq!(rx.screen_snapshot(&first, 7, 990, 1_000), Ok(()));
    let meta = rx
        .commit_admission(&first, &message(7, 0), true, 1, 120, [0; 16], 990, 1_000)
        .unwrap();
    assert_eq!(meta.source_id, 7);
    assert_eq!(meta.learned_residuals, 0);
    let peer = rx.peer_runtime(7).unwrap();
    assert_eq!(peer.epoch, 1);
    assert_eq!(peer.last_logical_sequence, 0);
    assert_eq!(
        rx.screen_replay(&first, ReplayVerdict::Accept),
        Err(ProtocolError::StaleLogical { source_id: 7, received: 0, last: 0 })
    );
    assert_eq!(
        rx.screen_replay(&envelope(7, 1, 1), ReplayVerdict::Duplicate),
        Err(ProtocolError::Replay { source_id: 7, epoch: 1 })
    );
    assert_eq!(
        rx.screen_epoch(&envelope(7, 0, 5), true, 0),
        Err(ProtocolError::StaleEpoch { source_id: 7, received: 0, current: 1 })
    );
    assert_eq!(
        rx.screen_snapshot(&envelope(7, 1, 1), 7, 980, 1_001),
        Err(ProtocolError::StaleTimestamp { source_id: 7, received: 980, last: 990 })
    );
    assert_eq!(
        rx.screen_snapshot(&envelope(7, 1, 1), 8, 995, 1_001),
        Err(ProtocolError::SourceMismatch { source_id: 7, node_id: 8 })
    );
    assert_eq!(
        rx.screen_snapshot(&envelope(7, 1, 1), 7, 2_000, 1_001),
        Err(ProtocolError::SnapshotFromFuture { source_id: 7 })
    );
}

#[test]
fn expired_snapshots_keep_replay_state_and_demand_a_keyframe() {
    let mut rx = RxState::new(limits()).unwrap();
    assert_eq!(open(&mut rx, 7, 1_000), Ok(()));
    let first = envelope(7, 1, 0);
    rx.commit_admission(&first, &message(7, 0), true, 1, 120, [0; 16], 990, 1_000)
        .unwrap();
    assert_eq!(rx.expire_stale(5_000), 0);
    assert_eq!(rx.expire_stale(6_001), 1);
    let peer = rx.peer_runtime(7).unwrap();
    assert!(!peer.has_snapshot);
    assert!(peer.requires_keyframe);
    assert_eq!(peer.last_logical_sequence, 0);
    assert_eq!(
        rx.screen_epoch(&envelope(7, 1, 1), false, 0),
        Err(ProtocolError::KeyframeRequired { source_id: 7, epoch: 1 })
    );
    assert!(rx.screen_epoch(&envelope(7, 1, 1), true, 0).is_ok());
    let checkpoints = rx.replay_checkpoints();
    assert_eq!(
        checkpoints,
        vec![ReplayCheckpoint {
            source_id: 7,
            epoch: 1,
            last_logical_sequence: 0,
            last_timestamp_ms: 990,
        }]
    );
}

#[test]
fn checkpoints_restore_only_forward_and_from_trusted_sources() {
    let mut rx = RxState::new(limits()).unwrap();
    let checkpoint = ReplayCheckpoint {
        source_id: 9,
        epoch: 4,
        last_logical_sequence: 10,
        last_timestamp_ms: 500,
    };
    assert_eq!(
        rx.restore_replay_checkpoint(checkpoint, false),
        Err(ProtocolError::UntrustedPeer(9))
    );
    assert_eq!(
        rx.restore_replay_checkpoint(
            ReplayCheckpoint { last_logical_sequence: u64::from(u32::MAX) + 1, ..checkpoint },
            true
        ),
        Err(ProtocolError::SequenceExhausted)
    );
    assert_eq!(rx.restore_replay_checkpoint(checkpoint, true), Ok(()));
    assert_eq!(
        rx.restore_replay_checkpoint(checkpoint, true),
        Err(ProtocolError::CheckpointRollback { source_id: 9 })
    );
    assert_eq!(
        rx.restore_replay_checkpoint(ReplayCheckpoint { epoch: 3, ..checkpoint }, true),
        Err(ProtocolError::CheckpointRollback { source_id: 9 })
    );
    assert_eq!(
        rx.restore_replay_checkpoint(ReplayCheckpoint { last_logical_sequence: 11, ..checkpoint }, true),
        Ok(())
    );
    let peer = rx.peer_runtime(9).unwrap();
    assert!(peer.requires_keyframe);
    assert!(!peer.has_snapshot);
    assert_eq!(
        rx.screen_epoch(&envelope(9, 4, 12), false, 0),
        Err(ProtocolError::KeyframeRequired { source_id: 9, epoch: 4 })
    );
}

#[test]
fn transmit_sequence_numbers_keyframes_and_rotates() {
    assert_eq!(
        TxSequence::new(5, 1, 0).err(),
        Some(ProtocolError::Air(AirError::InvalidLength))
    );
    let mut tx = TxSequence::new(5, 1, 3).unwrap();
    assert_eq!(
        tx.reserve(6).err(),
        Some(ProtocolError::SourceMismatch { source_id: 5, node_id: 6 })
    );
    let mut keyframes = Vec::new();
    for expected in 0..7u64 {
        let slot = tx.reserve(5).unwrap();
        assert_eq!(slot.logical_sequence, expected);
        assert_eq!(u64::from(slot.message_id), expected);
        keyframes.push(slot.keyframe);
        tx.commit(&slot);
    }
    assert_eq!(keyframes, vec![true, false, false, true, false, false, true]);
    assert_eq!(tx.next_logical_sequence(), 7);
    assert_eq!(
        tx.rotate_epoch(1),
        Err(ProtocolError::InvalidEpochRotation { current_epoch: 1, new_epoch: 1 })
    );
    assert_eq!(tx.rotate_epoch(2), Ok(()));
    assert_eq!(tx.epoch(), 2);
    assert_eq!(tx.next_logical_sequence(), 0);
    assert!(tx.reserve(5).unwrap().keyframe);
}
