use parseable_storage::convert::keep_decoded;
use parseable_storage::error::{MoveDataError, ObjectStorageError};
use parseable_storage::local_dir::{filename_at_timestamp, filename_by_current_time, select_arrow_files, select_parquet_files, StorageDir};
use parseable_storage::metadata::{
    format_document, get_stats_from_document, put_stats_into_document, stats_from_json, stats_to_json,
    ObjectStoreFormat, Stats,
};
use parseable_storage::naming::{
    extension_is, filename_by_time, object_key_of, parquet_name_of, BucketTime,
};
use parseable_storage::remote::{
    alert_key_of, check_error, columnar_object_suffix, create_stream_writes, delete_batches,
    listing_urls, metadata_key_of, optional_document, schema_key_of, stream_prefix_of,
    streams_from_prefixes, BlobFetch, HeadBucketFailure, S3Config,
};
use parseable_storage::sync::{SyncAction, SyncEvent, SyncPass, SyncPhase};
use std::collections::HashMap;

fn names(v: &[&str]) -> Vec<String> {
    v.iter().map(|s| s.to_string()).collect()
}

fn minute(y: i32, mo: u32, d: u32, h: u32, mi: u32) -> BucketTime {
    BucketTime::new(y, mo, d, h, mi).unwrap()
}

#[test]
fn filename_by_time_exact() {
    let name = filename_by_time(minute(2022, 10, 19, 11, 5), "host1");
    assert_eq!(name, "date=2022-10-19.hour=11.minute=05.host1.data.arrows");
    let name = filename_by_time(minute(7, 1, 2, 0, 59), "h");
    assert_eq!(name, "date=0007-01-02.hour=00.minute=59.h.data.arrows");
    let name = filename_by_time(minute(-1, 1, 2, 3, 4), "h");
    assert_eq!(name, "date=-0001-01-02.hour=03.minute=04.h.data.arrows");
    let name = filename_by_time(minute(12345, 12, 31, 23, 0), "h");
    assert_eq!(name, "date=+12345-12-31.hour=23.minute=00.h.data.arrows");
    let name = filename_by_time(minute(-262143, 1, 1, 0, 0), "h");
    assert_eq!(name, "date=-262143-01-01.hour=00.minute=00.h.data.arrows");
}

#[test]
fn filename_same_bucket_is_identical() {
    let t = minute(2023, 3, 4, 22, 17);
    let a = filename_by_time(t, "node-a");
    let b = filename_by_time(t, "node-a");
    assert_eq!(a, b);
    let other = filename_by_time(minute(2023, 3, 4, 22, 18), "node-a");
    assert_ne!(a, other);
}

#[test]
fn bucket_time_ranges() {
    assert!(BucketTime::new(2022, 12, 31, 23, 59).is_some());
    assert!(BucketTime::new(2022, 13, 1, 0, 0).is_none());
    assert!(BucketTime::new(2022, 0, 1, 0, 0).is_none());
    assert!(BucketTime::new(2022, 1, 32, 0, 0).is_none());
    assert!(BucketTime::new(2022, 1, 1, 24, 0).is_none());
    assert!(BucketTime::new(2022, 1, 1, 0, 60).is_none());
    assert!(BucketTime::new(10000, 1, 1, 0, 0).is_some());
    assert!(BucketTime::new(-1, 1, 1, 0, 0).is_some());
}

#[test]
fn filename_at_timestamp_exact() {
    // 2015-05-15 00:00:00 UTC
    assert_eq!(
        filename_at_timestamp(1431648000, 0, "h").unwrap(),
        "date=2015-05-15.hour=00.minute=00.h.data.arrows"
    );
    // 2022-10-19 11:05:30 UTC
    assert_eq!(
        filename_at_timestamp(1666177530, 999_999_999, "h").unwrap(),
        "date=2022-10-19.hour=11.minute=05.h.data.arrows"
    );
    assert!(filename_at_timestamp(u64::MAX, 0, "h").is_none());
    let dir = StorageDir::new("/d", "s");
    assert_eq!(
        dir.path_at_timestamp(1431648000, 0, "h").unwrap(),
        "/d/s/date=2015-05-15.hour=00.minute=00.h.data.arrows"
    );
    let entries = names(&[
        "date=2015-05-15.hour=00.minute=00.h.data.arrows",
        "date=2015-05-14.hour=23.minute=59.h.data.arrows",
    ]);
    assert_eq!(
        dir.arrow_files_at(&entries, 1431648010, 0, "h"),
        names(&["date=2015-05-14.hour=23.minute=59.h.data.arrows"])
    );
    assert!(dir.arrow_files_at(&entries, u64::MAX, 0, "h").is_empty());
}

#[test]
fn sync_pass_unknown_hot_converts_nothing() {
    let mut pass = SyncPass::new(names(&["s"]));
    pass.step(SyncEvent::Started { local_root_exists: true });
    let a = pass.step(SyncEvent::Listed { entries: names(&["x.data.arrows"]), hot: None });
    assert!(matches!(a, SyncAction::ListDirectory { .. }));
}

#[test]
fn current_filename_has_segment_shape() {
    let name = filename_by_current_time("myhost").unwrap();
    assert!(name.starts_with("date="));
    assert!(name.ends_with(".myhost.data.arrows"));
    assert!(name.contains(".hour="));
    assert!(name.contains(".minute="));
}

#[test]
fn extension_rules() {
    assert!(extension_is("a.data.arrows", "arrows"));
    assert!(extension_is("x.arrows", "arrows"));
    assert!(!extension_is(".arrows", "arrows"));
    assert!(!extension_is("arrows", "arrows"));
    assert!(!extension_is("a.data.arrows.tmp", "arrows"));
    assert!(!extension_is("a.dataarrows", "arrows"));
    assert!(extension_is("a.data.parquet", "parquet"));
}

#[test]
fn arrow_selection_excludes_hot_file() {
    let hot = "date=2022-10-19.hour=11.minute=05.h.data.arrows".to_string();
    let entries = names(&[
        "date=2022-10-19.hour=11.minute=03.h.data.arrows",
        &hot,
        "date=2022-10-19.hour=11.minute=02.h.data.parquet",
        "notes.txt",
        "date=2022-10-19.hour=11.minute=04.h.data.arrows",
    ]);
    let r = select_arrow_files(&entries, &hot);
    assert_eq!(
        r,
        names(&[
            "date=2022-10-19.hour=11.minute=03.h.data.arrows",
            "date=2022-10-19.hour=11.minute=04.h.data.arrows",
        ])
    );
    for e in &entries {
        let count = r.iter().filter(|x| *x == e).count();
        if e.ends_with(".arrows") && *e != hot {
            assert_eq!(count, 1);
        } else {
            assert_eq!(count, 0);
        }
    }
}

#[test]
fn arrow_selection_of_empty_listing() {
    let r = select_arrow_files(&Vec::new(), &"x.data.arrows".to_string());
    assert!(r.is_empty());
}

#[test]
fn parquet_selection_keeps_leftovers() {
    let entries = names(&["a.data.parquet", "b.data.arrows", "c.data.parquet", "parquet"]);
    assert_eq!(select_parquet_files(&entries), names(&["a.data.parquet", "c.data.parquet"]));
}

#[test]
fn storage_dir_paths() {
    let dir = StorageDir::new("/var/data", "weblog");
    assert_eq!(dir.data_path, "/var/data/weblog");
    let p = dir.path_by_current_time("h").unwrap();
    assert!(p.starts_with("/var/data/weblog/date="));
    let entries = names(&["a.data.arrows", "b.data.parquet"]);
    assert_eq!(dir.arrow_files(&entries, "h"), names(&["a.data.arrows"]));
    assert_eq!(dir.parquet_files(&entries), names(&["b.data.parquet"]));
}

#[test]
fn parquet_name_swaps_extension() {
    assert_eq!(
        parquet_name_of("date=2022-10-19.hour=11.minute=05.h.data.arrows"),
        "date=2022-10-19.hour=11.minute=05.h.data.parquet"
    );
}

#[test]
fn object_key_restores_hierarchy() {
    assert_eq!(
        object_key_of("weblog", "date=2022-10-19.hour=11.minute=05.host1.data.parquet"),
        "weblog/date=2022-10-19/hour=11/minute=05/host1.data.parquet"
    );
    assert_eq!(object_key_of("s", "a.b"), "s/a/b");
}

#[test]
fn metadata_keys() {
    assert_eq!(schema_key_of("weblog"), "weblog/.schema");
    assert_eq!(metadata_key_of("weblog"), "weblog/.parseable.json");
    assert_eq!(alert_key_of("weblog"), "weblog/.alert.json");
    assert_eq!(stream_prefix_of("weblog"), "weblog/");
}

#[test]
fn object_store_format_is_v1() {
    assert_eq!(ObjectStoreFormat::new().version, "v1");
    let doc = format_document(&ObjectStoreFormat::new());
    let v: serde_json::Value = serde_json::from_slice(&doc).unwrap();
    let mut expected = serde_json::Map::new();
    expected.insert("objectstore-format".to_string(), serde_json::Value::from("v1"));
    assert_eq!(v, serde_json::Value::Object(expected));
}

#[test]
fn put_then_get_stats_round_trip() {
    let doc = br#"{"objectstore-format":"v1","stats":{"size":0},"other":[1,2]}"#;
    let s = Stats { records: 12345, size: u64::MAX };
    let new_doc = put_stats_into_document(doc, &s).unwrap();
    assert_eq!(get_stats_from_document(&new_doc).unwrap(), s);
    let v: serde_json::Value = serde_json::from_slice(&new_doc).unwrap();
    assert_eq!(v.get("objectstore-format").unwrap(), "v1");
    assert_eq!(v.get("other").unwrap(), &serde_json::Value::from(vec![1, 2]));
}

#[test]
fn stats_json_round_trip() {
    let s = Stats { records: 3, size: 7 };
    let j = stats_to_json(&s);
    assert_eq!(stats_from_json(&j), s);
}

#[test]
fn get_stats_defaults_and_errors() {
    assert_eq!(get_stats_from_document(br#"{"objectstore-format":"v1"}"#).unwrap(), Stats::zero());
    assert_eq!(
        get_stats_from_document(br#"{"stats":{"size":"big"}}"#).unwrap(),
        Stats { records: 0, size: 0 }
    );
    assert_eq!(
        get_stats_from_document(br#"{"stats":{"size":9,"records":4}}"#).unwrap(),
        Stats { records: 4, size: 9 }
    );
    assert_eq!(
        get_stats_from_document(br#"{"stats":{"size":9,"records":"x"}}"#).unwrap(),
        Stats::zero()
    );
    assert_eq!(get_stats_from_document(br#"{"stats":[9,4]}"#).unwrap(), Stats::zero());
    assert_eq!(
        get_stats_from_document(br#"{"stats":{"size":1024}}"#).unwrap(),
        Stats { records: 0, size: 1024 }
    );
    assert!(matches!(
        get_stats_from_document(b"not json"),
        Err(ObjectStorageError::SerializationError(_))
    ));
    assert!(matches!(
        put_stats_into_document(b"[1,2]", &Stats::zero()),
        Err(ObjectStorageError::SerializationError(_))
    ));
    assert!(matches!(
        put_stats_into_document(b"{", &Stats::zero()),
        Err(ObjectStorageError::SerializationError(_))
    ));
}

fn apply(store: &mut HashMap<String, Vec<u8>>, stream: &str) {
    let schema_present = store.contains_key(&schema_key_of(stream));
    let metadata_present = store.contains_key(&metadata_key_of(stream));
    for w in create_stream_writes(stream, schema_present, metadata_present) {
        store.insert(w.key, w.body);
    }
}

#[test]
fn create_stream_twice_keeps_stats() {
    let mut store: HashMap<String, Vec<u8>> = HashMap::new();
    apply(&mut store, "weblog");
    assert_eq!(store.len(), 2);
    assert_eq!(store[&schema_key_of("weblog")], Vec::<u8>::new());
    let with_stats =
        put_stats_into_document(&store[&metadata_key_of("weblog")], &Stats { records: 5, size: 99 })
            .unwrap();
    store.insert(metadata_key_of("weblog"), with_stats.clone());
    apply(&mut store, "weblog");
    assert_eq!(store.len(), 2);
    assert_eq!(store[&metadata_key_of("weblog")], with_stats);
    assert_eq!(
        get_stats_from_document(&store[&metadata_key_of("weblog")]).unwrap(),
        Stats { records: 5, size: 99 }
    );
}

#[test]
fn create_stream_writes_for_new_stream() {
    let ws = create_stream_writes("s", false, false);
    assert_eq!(ws.len(), 2);
    assert_eq!(ws[0].key, "s/.schema");
    assert!(ws[0].body.is_empty());
    assert_eq!(ws[1].key, "s/.parseable.json");
    assert!(create_stream_writes("s", true, true).is_empty());
}

#[test]
fn delete_batches_split_at_limit() {
    let keys: Vec<String> = (0..2500).map(|i| format!("s/k{}", i)).collect();
    let b = delete_batches(&keys);
    assert_eq!(b.iter().map(|x| x.len()).collect::<Vec<_>>(), vec![1000, 1000, 500]);
    assert_eq!(b.concat(), keys);
    assert!(delete_batches(&Vec::new()).is_empty());
    assert_eq!(delete_batches(&names(&["a"])), vec![names(&["a"])]);
}

#[test]
fn list_streams_from_prefixes() {
    let r = streams_from_prefixes(&names(&["weblog/", "file", "app/", "/"]));
    let got: Vec<String> = r.into_iter().map(|s| s.name).collect();
    assert_eq!(got, names(&["weblog", "app", ""]));
}

#[test]
fn optional_documents() {
    assert_eq!(optional_document(BlobFetch::Found(vec![1, 2])).unwrap(), Some(vec![1, 2]));
    assert_eq!(optional_document(BlobFetch::Missing).unwrap(), None);
    assert_eq!(
        optional_document(BlobFetch::Failed(ObjectStorageError::ConnectionError("x".into()))),
        Err(ObjectStorageError::ConnectionError("x".into()))
    );
}

#[test]
fn check_errors_map_by_kind() {
    assert_eq!(
        check_error(HeadBucketFailure::NotFound, "bkt"),
        ObjectStorageError::NoSuchBucket("bkt".into())
    );
    assert_eq!(
        check_error(HeadBucketFailure::Unhandled("403".into()), "b"),
        ObjectStorageError::AuthenticationError("403".into())
    );
    assert_eq!(
        check_error(HeadBucketFailure::Dispatch("d".into()), "b"),
        ObjectStorageError::ConnectionError("d".into())
    );
    assert_eq!(
        check_error(HeadBucketFailure::Timeout("t".into()), "b"),
        ObjectStorageError::ConnectionError("t".into())
    );
    assert_eq!(
        check_error(HeadBucketFailure::Other("o".into()), "b"),
        ObjectStorageError::UnhandledError("o".into())
    );
}

#[test]
fn query_listing_urls() {
    assert_eq!(
        listing_urls("parseable", &names(&["weblog/date=2022-10-19/hour=11/"])),
        names(&["s3://parseable/weblog/date=2022-10-19/hour=11/"])
    );
    assert_eq!(columnar_object_suffix(), ".data.parquet");
}

#[test]
fn demo_config() {
    let c = S3Config::demo();
    assert_eq!(c.bucket_name(), "parseable");
    assert_eq!(c.endpoint_url(), "https://minio.parseable.io:9000");
    assert_eq!(c.s3_region, "us-east-1");
}

/// Drives a pass against an in-memory directory per stream and an in-memory remote
/// store; `fail_upload` names a file whose upload fails.
fn run_pass(
    dirs: &mut HashMap<String, Vec<String>>,
    sizes: &HashMap<String, u64>,
    remote: &mut HashMap<String, u64>,
    streams: Vec<String>,
    hot: &str,
    fail_upload: Option<&str>,
) -> (SyncAction, Vec<(String, u64)>) {
    let mut pass = SyncPass::new(streams);
    let mut pushed = Vec::new();
    let mut current = String::new();
    let mut event = SyncEvent::Started { local_root_exists: true };
    loop {
        match pass.step(event) {
            SyncAction::ListDirectory { stream } => {
                current = stream.clone();
                event = SyncEvent::Listed { entries: dirs[&stream].clone(), hot: Some(hot.to_string()) };
            }
            SyncAction::Convert { source, target } => {
                let d = dirs.get_mut(&current).unwrap();
                d.retain(|f| *f != source);
                d.push(target);
                event = SyncEvent::Converted;
            }
            SyncAction::Upload { file, key } => {
                if fail_upload == Some(file.as_str()) {
                    event = SyncEvent::UploadFailed(ObjectStorageError::ConnectionError("down".into()));
                } else {
                    let size = sizes.get(&file).copied().unwrap_or(0);
                    remote.insert(key, size);
                    event = SyncEvent::Uploaded { size };
                }
            }
            SyncAction::RemoveUploaded { file } => {
                dirs.get_mut(&current).unwrap().retain(|f| *f != file);
                event = SyncEvent::Removed { ok: true };
            }
            SyncAction::PushStats { stream, bytes } => {
                pushed.push((stream, bytes));
                event = SyncEvent::StatsPushed { ok: true };
            }
            done => return (done, pushed),
        }
    }
}

#[test]
fn sync_pass_uploads_every_file() {
    let hot = "date=2022-10-19.hour=11.minute=09.h.data.arrows";
    let mut dirs = HashMap::new();
    dirs.insert(
        "weblog".to_string(),
        names(&[
            "date=2022-10-19.hour=11.minute=07.h.data.arrows",
            "date=2022-10-19.hour=11.minute=08.h.data.arrows",
            "date=2022-10-19.hour=11.minute=06.h.data.parquet",
            hot,
        ]),
    );
    dirs.insert("empty".to_string(), Vec::new());
    let mut sizes = HashMap::new();
    sizes.insert("date=2022-10-19.hour=11.minute=07.h.data.parquet".to_string(), 10u64);
    sizes.insert("date=2022-10-19.hour=11.minute=08.h.data.parquet".to_string(), 20u64);
    sizes.insert("date=2022-10-19.hour=11.minute=06.h.data.parquet".to_string(), 5u64);
    let mut remote = HashMap::new();
    let (end, pushed) =
        run_pass(&mut dirs, &sizes, &mut remote, names(&["weblog", "empty"]), hot, None);
    assert!(matches!(end, SyncAction::Finished));
    assert_eq!(dirs["weblog"], names(&[hot]));
    assert_eq!(remote.len(), 3);
    assert_eq!(remote["weblog/date=2022-10-19/hour=11/minute=07/h.data.parquet"], 10);
    assert_eq!(remote["weblog/date=2022-10-19/hour=11/minute=08/h.data.parquet"], 20);
    assert_eq!(remote["weblog/date=2022-10-19/hour=11/minute=06/h.data.parquet"], 5);
    assert_eq!(pushed, vec![("weblog".to_string(), 35)]);
}

#[test]
fn sync_pass_keeps_file_whose_upload_failed() {
    let mut dirs = HashMap::new();
    dirs.insert("s".to_string(), names(&["a.data.arrows", "b.data.arrows"]));
    let sizes = HashMap::new();
    let mut remote = HashMap::new();
    let (end, pushed) =
        run_pass(&mut dirs, &sizes, &mut remote, names(&["s"]), "", Some("b.data.parquet"));
    assert!(matches!(
        end,
        SyncAction::Failed(MoveDataError::ObjectStorage(ObjectStorageError::ConnectionError(_)))
    ));
    assert!(dirs["s"].contains(&"b.data.parquet".to_string()));
    assert!(!dirs["s"].contains(&"a.data.parquet".to_string()));
    assert_eq!(remote.len(), 1);
    assert!(pushed.is_empty());
}

#[test]
fn sync_pass_without_local_root_finishes() {
    let mut pass = SyncPass::new(names(&["s"]));
    let a = pass.step(SyncEvent::Started { local_root_exists: false });
    assert!(matches!(a, SyncAction::Finished));
    assert_eq!(pass.phase, SyncPhase::Done);
    assert!(!pass.accepts(&SyncEvent::Converted));
}

#[test]
fn sync_pass_conversion_failure_is_fatal() {
    let mut pass = SyncPass::new(names(&["s"]));
    let a = pass.step(SyncEvent::Started { local_root_exists: true });
    assert!(matches!(a, SyncAction::ListDirectory { .. }));
    let a = pass.step(SyncEvent::Listed { entries: names(&["x.data.arrows"]), hot: Some(String::new()) });
    match a {
        SyncAction::Convert { source, target } => {
            assert_eq!(source, "x.data.arrows");
            assert_eq!(target, "x.data.parquet");
        }
        other => panic!("unexpected {:?}", other),
    }
    let a = pass.step(SyncEvent::ConvertFailed(MoveDataError::Create));
    assert!(matches!(a, SyncAction::Failed(MoveDataError::Create)));
    assert_eq!(pass.phase, SyncPhase::Failed);
}

#[test]
fn sync_pass_counts_soft_failures() {
    let mut pass = SyncPass::new(names(&["s"]));
    pass.step(SyncEvent::Started { local_root_exists: true });
    pass.step(SyncEvent::Listed { entries: Vec::new(), hot: Some(String::new()) });
    let a = pass.step(SyncEvent::Listed { entries: names(&["p.data.parquet"]), hot: Some(String::new()) });
    assert!(matches!(a, SyncAction::Upload { .. }));
    let a = pass.step(SyncEvent::Uploaded { size: 7 });
    assert!(matches!(a, SyncAction::RemoveUploaded { .. }));
    let a = pass.step(SyncEvent::Removed { ok: false });
    assert!(matches!(a, SyncAction::PushStats { bytes: 7, .. }));
    let a = pass.step(SyncEvent::StatsPushed { ok: false });
    assert!(matches!(a, SyncAction::Finished));
    assert_eq!(pass.soft_failures, 2);
}

#[test]
fn weblog_stats_after_upload() {
    let doc = br#"{"objectstore-format":"v1","stats":{"size":0}}"#;
    let mut live = get_stats_from_document(doc).unwrap();
    assert_eq!(live.size, 0);
    let mut dirs = HashMap::new();
    dirs.insert("weblog".to_string(), names(&["f.data.parquet"]));
    let mut sizes = HashMap::new();
    sizes.insert("f.data.parquet".to_string(), 1024u64);
    let mut remote = HashMap::new();
    let (end, pushed) = run_pass(&mut dirs, &sizes, &mut remote, names(&["weblog"]), "", None);
    assert!(matches!(end, SyncAction::Finished));
    assert_eq!(pushed, vec![("weblog".to_string(), 1024)]);
    live.size += pushed[0].1;
    let new_doc = put_stats_into_document(doc, &live).unwrap();
    assert_eq!(get_stats_from_document(&new_doc).unwrap().size, 1024);
}

#[test]
fn malformed_record_dropped_alone() {
    let results: Vec<Result<u32, &str>> = vec![Ok(1), Err("bad header"), Ok(2), Ok(3)];
    let (kept, dropped) = keep_decoded(results);
    assert_eq!(kept, vec![1, 2, 3]);
    assert_eq!(dropped, 1);
    let (kept, dropped) = keep_decoded::<u32, &str>(vec![Ok(4), Ok(5)]);
    assert_eq!(kept, vec![4, 5]);
    assert_eq!(dropped, 0);
    let (kept, dropped) = keep_decoded::<u32, &str>(Vec::new());
    assert!(kept.is_empty());
    assert_eq!(dropped, 0);
}

#[test]
fn distinct_files_get_distinct_keys() {
    let a = object_key_of("s", "date=2022-01-01.hour=00.minute=00.h.data.parquet");
    let b = object_key_of("s", "date=2022-01-01.hour=00.minute=01.h.data.parquet");
    assert_ne!(a, b);
    assert_ne!(parquet_name_of("a.data.arrows"), parquet_name_of("b.data.arrows"));
}
