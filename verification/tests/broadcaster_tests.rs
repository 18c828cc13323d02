use audiocast::broadcaster::{
    blob_object_key, page_duration_ms, session_dir, staged_download_check, staged_file_path,
    BroadcasterCommand, BroadcasterDirective, BroadcasterState,
};
use audiocast::errors::Error;

#[test]
fn play_starts_pacing_and_stop_halts_it() {
    let mut b = BroadcasterState::new();
    let d = b.handle_command(BroadcasterCommand::Play { key: "k1".to_string() });
    assert!(matches!(d, BroadcasterDirective::StartPacing { ref key } if key == "k1"));
    // generation 0 is the live pacing task now
    assert!(b.pacing_eof_step(0));
    assert!(b.pacing_page_step(0, 960, 0).is_some());

    let d = b.handle_command(BroadcasterCommand::Stop);
    assert!(matches!(d, BroadcasterDirective::HaltPacing));
    // after Stop the stopped play must not emit End
    assert!(!b.pacing_eof_step(0));
    assert!(b.pacing_page_step(0, 1920, 960).is_none());
}

#[test]
fn a_new_play_retires_the_previous_task() {
    let mut b = BroadcasterState::new();
    b.handle_command(BroadcasterCommand::Play { key: "k1".to_string() });
    b.handle_command(BroadcasterCommand::Play { key: "k2".to_string() });
    // only the second task (generation 1) is live
    assert!(!b.pacing_eof_step(0));
    assert!(b.pacing_eof_step(1));
}

#[test]
fn stop_twice_is_idempotent() {
    let mut b = BroadcasterState::new();
    b.handle_command(BroadcasterCommand::Play { key: "k1".to_string() });
    assert!(matches!(b.handle_command(BroadcasterCommand::Stop), BroadcasterDirective::HaltPacing));
    assert!(matches!(b.handle_command(BroadcasterCommand::Stop), BroadcasterDirective::HaltPacing));
    assert!(!b.pacing_eof_step(0));
}

#[test]
fn empty_key_and_pause_are_ignored_and_attach_is_forwarded() {
    let mut b = BroadcasterState::new();
    assert!(matches!(
        b.handle_command(BroadcasterCommand::Play { key: String::new() }),
        BroadcasterDirective::Ignore
    ));
    assert!(matches!(b.handle_command(BroadcasterCommand::Pause), BroadcasterDirective::Ignore));
    let d = b.handle_command(BroadcasterCommand::Attach { peer_id: "p1".to_string() });
    assert!(matches!(d, BroadcasterDirective::AttachPeer { ref peer_id } if peer_id == "p1"));
    // nothing was started
    assert!(!b.pacing_eof_step(0));
}

#[test]
fn page_durations_follow_the_granule_positions() {
    // one 20 ms Opus page at 48 kHz carries 960 samples
    assert_eq!(page_duration_ms(960, 0), 20);
    assert_eq!(page_duration_ms(1920, 960), 20);
    assert_eq!(page_duration_ms(48000, 0), 1000);
    // a non-increasing granule position contributes no duration
    assert_eq!(page_duration_ms(960, 960), 0);
    assert_eq!(page_duration_ms(0, 960), 0);
}

#[test]
fn scratch_paths_and_object_keys() {
    assert_eq!(session_dir("s1"), "./sessions/s1");
    assert_eq!(staged_file_path("s1", "k9"), "./sessions/s1/k9.ogg");
    assert_eq!(blob_object_key("k9"), "k9.ogg");
}

#[test]
fn an_empty_download_is_rejected() {
    assert!(matches!(staged_download_check(0), Err(Error::S3DownloadError { .. })));
    assert!(staged_download_check(1).is_ok());
    assert!(staged_download_check(4096).is_ok());
}
