use audiocast::errors::Error;
use audiocast::ingest::{
    config_value, fresh_blob_key, live_probe, playlist_probe, process_audio, size_check,
    title_probe, FileRecord, IngestAction, IngestOutcomes, IngestPool, SenderRegistry,
    StoreModel,
};

fn good_outcomes() -> IngestOutcomes {
    IngestOutcomes {
        size_probe_success: true,
        size_text: "5000000".to_string(),
        download_ok: true,
        upload_ok: true,
        insert_ok: true,
    }
}

#[test]
fn the_pool_never_exceeds_its_capacity() {
    let mut p = IngestPool::new(4);
    for _ in 0..4 {
        assert!(p.try_acquire());
    }
    assert!(!p.try_acquire());
    assert!(!p.try_acquire());
    p.release();
    assert!(p.try_acquire());
    assert!(!p.try_acquire());
}

#[test]
fn duplicate_download_publishes_the_title_and_acquires_nothing() {
    let mut store = StoreModel::new();
    store.mark_uploaded("k0".to_string());
    store.add_record(FileRecord {
        key: "k0".to_string(),
        owner_user_id: "U".to_string(),
        url: "u1".to_string(),
        title: "First".to_string(),
        created_at: 1,
    });

    let (r, actions) = process_audio(
        &mut store,
        "U".to_string(),
        "u1".to_string(),
        "First".to_string(),
        "k-dup".to_string(),
        2,
        10_000_000,
        good_outcomes(),
    );
    assert!(matches!(r, Err(Error::DuplicateContent { ref msg }) if msg == "u1"));
    assert_eq!(actions.len(), 1);
    assert!(matches!(actions[0], IngestAction::PublishTitle));
    // no new record, no new blob
    assert_eq!(store.records().len(), 1);

    // the same URL from another user is not a duplicate
    let (r2, _) = process_audio(
        &mut store,
        "V".to_string(),
        "u1".to_string(),
        "First".to_string(),
        "k-other-user".to_string(),
        3,
        10_000_000,
        good_outcomes(),
    );
    assert!(r2.is_ok());
    assert_eq!(store.records().len(), 2);
}

#[test]
fn a_successful_ingestion_runs_every_step_in_order() {
    let mut store = StoreModel::new();
    let (r, actions) = process_audio(
        &mut store,
        "U".to_string(),
        "u9".to_string(),
        "Song".to_string(),
        "k-song".to_string(),
        77,
        10_000_000,
        good_outcomes(),
    );
    assert!(r.is_ok());
    assert!(matches!(actions[0], IngestAction::AcquirePermit));
    assert!(matches!(actions[1], IngestAction::ProbeSize));
    assert!(matches!(actions[2], IngestAction::Download));
    assert!(matches!(actions[3], IngestAction::Upload));
    assert!(matches!(actions[4], IngestAction::DeleteLocal));
    assert!(matches!(actions[5], IngestAction::InsertRecord));
    assert!(matches!(actions[6], IngestAction::PublishCheck));
    assert!(matches!(actions[7], IngestAction::ReleasePermit));
    assert_eq!(actions.len(), 8);
    let records = store.records();
    assert_eq!(records.len(), 1);
    assert_eq!(records[0].owner_user_id, "U");
    assert_eq!(records[0].url, "u9");
    assert_eq!(records[0].title, "Song");
    assert_eq!(records[0].created_at, 77);
    // the record carries exactly the key the blob was uploaded under
    assert_eq!(records[0].key, "k-song");
}

#[test]
fn an_oversized_source_is_rejected_before_downloading() {
    let mut store = StoreModel::new();
    let mut o = good_outcomes();
    o.size_text = "20000000".to_string();
    let (r, actions) = process_audio(
        &mut store,
        "U".to_string(),
        "u1".to_string(),
        "Big".to_string(),
        "k-big".to_string(),
        1,
        10_000_000,
        o,
    );
    assert!(
        matches!(r, Err(Error::FileTooLarge { size, limit }) if size == 20_000_000 && limit == 10_000_000)
    );
    assert_eq!(actions.len(), 3);
    assert!(matches!(actions[2], IngestAction::ReleasePermit));
    assert_eq!(store.records().len(), 0);
}

#[test]
fn failures_surface_in_pipeline_order() {
    let mut store = StoreModel::new();
    let mut o = good_outcomes();
    o.download_ok = false;
    let (r, _) = process_audio(
        &mut store,
        "U".to_string(),
        "u1".to_string(),
        "T".to_string(),
        "k-dl".to_string(),
        1,
        10_000_000,
        o,
    );
    assert!(matches!(r, Err(Error::DownloadFailed { ref url }) if url == "u1"));

    let mut o = good_outcomes();
    o.upload_ok = false;
    let (r, actions) = process_audio(
        &mut store,
        "U".to_string(),
        "u1".to_string(),
        "T".to_string(),
        "k-up".to_string(),
        1,
        10_000_000,
        o,
    );
    assert!(matches!(r, Err(Error::UploadFailed { .. })));
    assert!(actions.iter().any(|a| matches!(a, IngestAction::DeleteLocal)));
    assert_eq!(store.records().len(), 0);

    let mut o = good_outcomes();
    o.insert_ok = false;
    let (r, _) = process_audio(
        &mut store,
        "U".to_string(),
        "u1".to_string(),
        "T".to_string(),
        "k-ins".to_string(),
        1,
        10_000_000,
        o,
    );
    assert!(matches!(r, Err(Error::DatabaseWriteError { .. })));
    assert_eq!(store.records().len(), 0);
}

#[test]
fn an_unreadable_size_probe_is_not_fatal() {
    let mut store = StoreModel::new();
    let mut o = good_outcomes();
    o.size_probe_success = false;
    let (r, _) = process_audio(
        &mut store,
        "U".to_string(),
        "u1".to_string(),
        "T".to_string(),
        "k-ns1".to_string(),
        1,
        10_000_000,
        o,
    );
    assert!(r.is_ok());

    let mut o = good_outcomes();
    o.size_text = "NA".to_string();
    let (r, _) = process_audio(
        &mut store,
        "U".to_string(),
        "u2".to_string(),
        "T".to_string(),
        "k-ns2".to_string(),
        1,
        10_000_000,
        o,
    );
    assert!(r.is_ok());
}

#[test]
fn size_check_matches_the_pipeline_rule() {
    assert!(size_check(false, &"99999999999".to_string(), 10).is_ok());
    assert!(size_check(true, &"garbage".to_string(), 10).is_ok());
    assert!(size_check(true, &"9".to_string(), 10).is_ok());
    assert!(matches!(
        size_check(true, &"11".to_string(), 10),
        Err(Error::FileTooLarge { size: 11, limit: 10 })
    ));
}

#[test]
fn config_values_fall_back_to_defaults() {
    assert_eq!(config_value(None, 4), 4);
    assert_eq!(config_value(Some(&"8".to_string()), 4), 8);
    assert_eq!(config_value(Some(&"not a number".to_string()), 4), 4);
    assert_eq!(config_value(Some(&"10000000".to_string()), 0), 10_000_000);
}

#[test]
fn probes_decide_like_the_external_tool() {
    let r = title_probe(true, "Song".to_string(), String::new(), "u1".to_string()).unwrap();
    assert_eq!(r, vec![("Song".to_string(), "u1".to_string())]);
    assert!(matches!(
        title_probe(false, String::new(), "boom".to_string(), "u1".to_string()),
        Err(Error::ContentNotFound { ref msg }) if msg == "boom"
    ));

    let entries = vec![("T1".to_string(), "u1".to_string()), ("T2".to_string(), "u2".to_string())];
    assert_eq!(playlist_probe(true, Some(entries.clone()), String::new()).unwrap(), entries);
    assert!(matches!(
        playlist_probe(true, None, String::new()),
        Err(Error::PlayListParseErr { .. })
    ));
    assert!(matches!(
        playlist_probe(false, None, "bad".to_string()),
        Err(Error::PlayListParseErr { ref msg }) if msg == "bad"
    ));

    assert_eq!(live_probe(true, "True".to_string(), "u".to_string()).unwrap(), true);
    assert_eq!(live_probe(true, "False".to_string(), "u".to_string()).unwrap(), false);
    assert_eq!(live_probe(true, "NA".to_string(), "u".to_string()).unwrap(), false);
    assert!(matches!(
        live_probe(false, String::new(), "u".to_string()),
        Err(Error::InvalidURL { ref url }) if url == "u"
    ));
}

#[test]
fn the_notification_registry_installs_and_replaces_endpoints() {
    let mut reg: SenderRegistry<u32> = SenderRegistry::new();
    assert!(matches!(
        reg.get_sender_with_id(&"7".to_string()),
        Err(Error::DBError { .. })
    ));
    reg.add_sender_with_id("7".to_string(), 100);
    assert_eq!(*reg.get_sender_with_id(&"7".to_string()).unwrap(), 100);
    reg.add_sender_with_id("8".to_string(), 200);
    reg.add_sender_with_id("7".to_string(), 300);
    assert_eq!(*reg.get_sender_with_id(&"7".to_string()).unwrap(), 300);
    assert_eq!(*reg.get_sender_with_id(&"8".to_string()).unwrap(), 200);
}

#[test]
fn blob_keys_are_hyphenated_identifiers() {
    let a = fresh_blob_key();
    let b = fresh_blob_key();
    assert_eq!(a.len(), 36);
    assert_eq!(b.len(), 36);
    assert_ne!(a, b);
}
