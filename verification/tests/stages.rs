use shard_runner::model::ConnectionStage;

#[test]
fn connecting_stages_are_connecting() {
    assert!(ConnectionStage::Connecting.is_connecting());
    assert!(ConnectionStage::Handshake.is_connecting());
    assert!(ConnectionStage::Identifying.is_connecting());
    assert!(ConnectionStage::Resuming.is_connecting());
}

#[test]
fn settled_stages_are_not_connecting() {
    assert!(!ConnectionStage::Connected.is_connecting());
    assert!(!ConnectionStage::Disconnected.is_connecting());
}
