use rustv::{NdiReceiver, NdiSource, ReceiverError};

#[test]
fn test_receiver_connect_disconnect() {
    let mut receiver = NdiReceiver::new();
    let source = NdiSource::new("Test".to_string(), "ndi://test".to_string());

    assert!(!receiver.is_active());
    assert!(receiver.connect(source).is_ok());
    assert!(receiver.is_active());

    receiver.disconnect();
    assert!(!receiver.is_active());
}

#[test]
fn inactive_receiver_refuses_frames() {
    let receiver = NdiReceiver::new();
    assert_eq!(receiver.receive_video_frame(), Err(ReceiverError::NotActive));
    assert_eq!(receiver.receive_audio_frame(), Err(ReceiverError::NotActive));
    assert_eq!(receiver.receive_metadata(), Err(ReceiverError::NotActive));
    assert_eq!(receiver.current_source(), None);
}

#[test]
fn active_receiver_delivers_frames() {
    let mut receiver = NdiReceiver::new();
    let source = NdiSource::new("Test".to_string(), "ndi://test".to_string());
    receiver.connect(source.clone()).unwrap();
    assert_eq!(receiver.receive_video_frame(), Ok(()));
    assert_eq!(receiver.receive_audio_frame(), Ok(()));
    assert_eq!(receiver.receive_metadata(), Ok("{}".to_string()));
    assert_eq!(receiver.current_source(), Some(source));
}

#[test]
fn default_receiver_is_inactive() {
    let receiver = NdiReceiver::default();
    assert!(!receiver.is_active());
    assert_eq!(receiver.current_source(), None);
}
