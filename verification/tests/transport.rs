use ruview_swarm::latentmesh::transport::{
    validate_channel_capacity, validate_frame_bound, validate_frame_length, TransportError,
};

#[test]
fn oversized_frames_are_refused_before_queueing() {
    let frame = vec![0u8; 257];
    assert_eq!(
        validate_frame_bound(&frame, 256),
        Err(TransportError::FrameTooLarge { length: 257, maximum: 256 })
    );
    assert_eq!(validate_frame_bound(&frame[..256], 256), Ok(()));
    assert_eq!(validate_frame_length(0, 256), Ok(()));
    assert_eq!(
        validate_frame_length(1_000, 256),
        Err(TransportError::FrameTooLarge { length: 1_000, maximum: 256 })
    );
}

#[test]
fn channel_capacity_is_bounded() {
    assert_eq!(validate_channel_capacity(0), Err(TransportError::InvalidCapacity));
    assert_eq!(validate_channel_capacity(1), Ok(()));
    assert_eq!(validate_channel_capacity(4_096), Ok(()));
    assert_eq!(validate_channel_capacity(4_097), Err(TransportError::InvalidCapacity));
}
