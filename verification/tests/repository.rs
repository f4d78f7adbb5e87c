use shanji::repository::{
    check_package, conflict_title, package_checksum, decide_item_merge, latest_packages, package_size_ok,
    preview_outcome, repository_status, tombstone_deletes, ItemMerge, LocalItem, MergeCounts,
    PackageHeader, PreviewOutcome, RepositoryConfig, SeenRevision,
};

fn local(revision: i64, hash: &str) -> Option<LocalItem> {
    Some(LocalItem { revision, content_hash: hash.into() })
}

fn seen(revision: i64, hash: &str, destination: Option<&str>) -> Option<SeenRevision> {
    Some(SeenRevision { revision, content_hash: hash.into(), destination_item_id: destination.map(str::to_string) })
}

/// SHA-256 of the bytes `abc`, in hexadecimal.
const ABC_SHA256: &str = "ba7816bf8f01cfea414140de5dae2223b00361a396177a9cb410ff61f20015ad";

fn header(source: &str, exported_at: &str) -> PackageHeader {
    PackageHeader {
        format: "shanji-local-repository".into(),
        package_version: 1,
        schema_version: 7,
        source_instance_id: source.into(),
        exported_at: exported_at.into(),
        table_names: vec!["items".into(), "tags".into()],
        checksum_sha256: ABC_SHA256.into(),
    }
}

#[test]
fn divergent_same_id_becomes_a_conflict_copy() {
    assert_eq!(decide_item_merge(None, &local(3, "local"), &seen(2, "old", Some("x")), 3, "remote"), ItemMerge::Conflict);
    assert_eq!(decide_item_merge(None, &local(2, "local"), &seen(2, "old", Some("x")), 3, "remote"), ItemMerge::Update);
    assert_eq!(decide_item_merge(None, &None, &None, 1, "remote"), ItemMerge::Insert);
    assert_eq!(decide_item_merge(None, &local(5, "same"), &None, 1, "same"), ItemMerge::Unchanged);
    assert_eq!(
        decide_item_merge(None, &local(5, "l"), &seen(4, "h", Some("copy")), 4, "h"),
        ItemMerge::AlreadyMerged(Some("copy".into()))
    );
    assert_eq!(decide_item_merge(Some(4), &local(5, "l"), &None, 4, "h"), ItemMerge::Deleted);
    assert_eq!(decide_item_merge(Some(3), &None, &None, 4, "h"), ItemMerge::Insert);
    assert_eq!(conflict_title("合同"), "合同（冲突副本）");
}

#[test]
fn merge_counts_follow_the_decisions() {
    let mut counts = MergeCounts::new();
    counts.record(&ItemMerge::Insert);
    counts.record(&ItemMerge::Update);
    counts.record(&ItemMerge::Conflict);
    counts.record(&ItemMerge::Unchanged);
    counts.record(&ItemMerge::Deleted);
    assert_eq!((counts.imported, counts.unchanged, counts.conflicts, counts.tombstones), (2, 2, 1, 0));
}

#[test]
fn tombstones_delete_only_unchanged_local_copies() {
    assert!(tombstone_deletes(Some(3), Some(3)));
    assert!(!tombstone_deletes(Some(4), Some(3)));
    assert!(!tombstone_deletes(None, Some(3)));
    assert!(!tombstone_deletes(Some(1), None));
}

#[test]
fn tampered_or_foreign_packages_are_refused() {
    assert!(check_package(&header("device", "t"), b"abc").is_ok());
    assert_eq!(
        check_package(&header("device", "t"), b"abd").unwrap_err().message(),
        "个人仓库中的数据包未通过完整性检查，归并已停止"
    );
    let mut foreign = header("device", "t");
    foreign.table_names.push("secrets".into());
    assert_eq!(
        check_package(&foreign, b"abc").unwrap_err().message(),
        "个人仓库中的数据包版本暂不兼容，归并已停止"
    );
    let mut newer = header("device", "t");
    newer.schema_version = 8;
    assert!(check_package(&newer, b"abc").is_err());
    assert!(check_package(&header("  ", "t"), b"abc").is_err());
    assert!(package_size_ok(0).is_err());
    assert!(package_size_ok(268_435_457).is_err());
    assert!(package_size_ok(1024).is_ok());
}

#[test]
fn only_the_latest_package_of_each_device_is_read_newest_first() {
    let headers = vec![
        header("a", "2026-09-01T00:00:00Z"),
        header("b", "2026-09-03T00:00:00Z"),
        header("a", "2026-09-02T00:00:00Z"),
        header("c", "2026-08-01T00:00:00Z"),
    ];
    assert_eq!(latest_packages(&headers), vec![1, 2, 3]);
}

#[test]
fn preview_classifies_incoming_items() {
    assert_eq!(preview_outcome(&Some("h".into()), &Some("x".into()), "h"), PreviewOutcome::Unchanged);
    assert_eq!(preview_outcome(&None, &None, "h"), PreviewOutcome::New);
    assert_eq!(preview_outcome(&None, &Some("h".into()), "h"), PreviewOutcome::Unchanged);
    assert_eq!(preview_outcome(&Some("old".into()), &Some("x".into()), "h"), PreviewOutcome::Conflict);
}

#[test]
fn repository_status_explains_each_state() {
    let none = repository_status(3, 0, None, false, &Vec::new(), "me");
    assert!(!none.configured);
    assert_eq!(none.message, "尚未选择个人仓库，本机记录与提醒不受影响。");
    let config = |enabled| RepositoryConfig {
        path: "/repo".into(),
        enabled,
        last_synced_at: None,
        last_package_at: Some("t".into()),
        last_error_code: None,
    };
    let off = repository_status(3, 1, Some(config(false)), true, &vec!["me".into()], "me");
    assert_eq!(off.message, "个人仓库已停用，本机仍可正常记录和提醒。");
    assert_eq!(off.path.as_deref(), Some("/repo"));
    let sources = vec!["me".to_string(), "laptop".to_string()];
    let ready = repository_status(3, 1, Some(config(true)), true, &sources, "me");
    assert!(ready.snapshot_ready);
    assert_eq!(ready.package_count, 2);
    assert_eq!(ready.pending_source_count, 1);
    assert_eq!(ready.message, "个人仓库可用；归并期间本机仍是运行数据来源。");
    let missing = repository_status(3, 1, Some(config(true)), true, &vec!["laptop".into()], "me");
    assert_eq!(missing.message, "个人仓库位置可用，但本机快照尚未写入。");
    let away = repository_status(3, 1, Some(config(true)), false, &sources, "me");
    assert_eq!(away.package_count, 0);
    assert_eq!(away.message, "个人仓库暂时不可用，本机记录仍然安全并可继续使用。");
}

#[test]
fn divergent_same_id_creates_a_conflict_copy_instead_of_overwriting() {
    // This device holds the same item id with other content and has never seen the source's copy.
    let first = decide_item_merge(None, &local(1, "本机版本"), &None, 1, "来源版本");
    assert_eq!(first, ItemMerge::Conflict);
    assert!(conflict_title("来源版本").contains("冲突副本"));
    let mut counts = MergeCounts::new();
    counts.record(&first);
    assert_eq!(counts.conflicts, 1);

    // The next sync remembers the merged revision: no second conflict.
    let remembered = seen(1, "来源版本", Some("copy-id"));
    let repeated = decide_item_merge(None, &local(1, "本机版本"), &remembered, 1, "来源版本");
    assert_eq!(repeated, ItemMerge::AlreadyMerged(Some("copy-id".into())));
    let mut again = MergeCounts::new();
    again.record(&repeated);
    assert_eq!(again.conflicts, 0);
    assert_eq!(
        preview_outcome(&Some("来源版本".into()), &Some("本机版本".into()), "来源版本"),
        PreviewOutcome::Unchanged
    );
}

#[test]
fn tampered_package_is_rejected_before_merge() {
    let error = check_package(&header("device", "t"), b"{\"tampered\":true}").unwrap_err();
    assert!(error.message().contains("数据包"));
}

#[test]
fn configuring_repository_immediately_writes_this_devices_snapshot() {
    // Right after configuring, the repository holds this device's own snapshot.
    let config = RepositoryConfig {
        path: "/repo".into(),
        enabled: true,
        last_synced_at: None,
        last_package_at: Some("2026-09-01T00:00:00Z".into()),
        last_error_code: None,
    };
    let status = repository_status(1, 0, Some(config), true, &vec!["this-device".into()], "this-device");
    assert!(status.snapshot_ready);
    assert_eq!(status.package_count, 1);
    assert_eq!(status.local_item_count, 1);
    assert!(status.last_package_at.is_some());
}

#[test]
fn package_checksums_are_hexadecimal_sha256_digests() {
    assert_eq!(package_checksum(b"abc"), ABC_SHA256);
    assert_eq!(
        package_checksum(b""),
        "e3b0c44298fc1c149afbf4c8996fb92427ae41e4649b934ca495991b7852b855"
    );
}
