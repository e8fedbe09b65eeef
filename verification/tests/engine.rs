use freecarnival::catalog::{check_updates, version_lt, CatalogProduct, InstalledEntry, VersionEntry};
use freecarnival::digest::{check_bytes, digest_bytes, DigestCheck, Hasher, DIGEST_SEED};
use freecarnival::fetch::{
    backoff_ms, fetch_start, next_fetch_step, resolve_fetch, FetchDecision, FetchEvent,
    FetchFailure,
};
use freecarnival::install::{
    assemble_entry, install_product, join_path, preflight_allows, resolve_install_path,
    EntryFailure, InstallVerdict, StagedFile,
};
use freecarnival::launch::{build_launch_command, LaunchCommand, LaunchStrategy};
use freecarnival::manifest::{parse_manifest, Chunk, Manifest, RowError};
use freecarnival::session::{fresh_cookies, login_accepted, sync_accepted, CookieRecord};
use freecarnival::update::{plan_update, removals_after};
use freecarnival::verify::verify_files;

fn manifest_line(path: &str, data: &[u8], chunks: &[&[u8]]) -> String {
    let mut line = format!("{},{},{}", path, data.len(), digest_bytes(data));
    for c in chunks {
        line.push_str(&format!(",{},{}", c.len(), digest_bytes(c)));
    }
    line
}

fn three_entry_manifest() -> (Manifest, Vec<Vec<u8>>, Vec<Vec<u8>>, Vec<Vec<u8>>) {
    let a: Vec<u8> = vec![7u8; 100];
    let b: Vec<u8> = (0..200u32).map(|x| (x % 251) as u8).collect();
    let c: Vec<u8> = vec![42u8; 50];
    let (b1, b2) = b.split_at(120);
    let text = format!(
        "{}\n{}\n{}\n",
        manifest_line("a.bin", &a, &[&a]),
        manifest_line("dir/b.bin", &b, &[b1, b2]),
        manifest_line("c.bin", &c, &[&c]),
    );
    let m = parse_manifest(text.as_bytes()).expect("manifest parses");
    (
        m,
        vec![a],
        vec![b1.to_vec(), b2.to_vec()],
        vec![c],
    )
}

#[test]
fn digest_of_empty_is_seed() {
    assert_eq!(digest_bytes(&[]), DIGEST_SEED);
}

#[test]
fn digest_streams_like_whole() {
    let data = b"the quick brown fox jumps over the lazy dog";
    let whole = digest_bytes(data);
    let mut h = Hasher::new();
    h.update(&data[..10]);
    h.update(&data[10..17]);
    h.update(&data[17..]);
    assert_eq!(h.finish(), whole);
    assert_ne!(whole, digest_bytes(b"the quick brown fox jumps over the lazy doh"));
}

#[test]
fn digest_check_reports_mismatch() {
    let data = b"abc";
    match check_bytes(data, digest_bytes(data)) {
        DigestCheck::Match => {},
        DigestCheck::Mismatch { .. } => panic!("expected a match"),
    }
    match check_bytes(data, digest_bytes(data).wrapping_add(1)) {
        DigestCheck::Match => panic!("expected a mismatch"),
        DigestCheck::Mismatch { actual } => assert_eq!(actual, digest_bytes(data)),
    }
}

#[test]
fn manifest_parses_entries_in_order() {
    let (m, _, _, _) = three_entry_manifest();
    assert_eq!(m.entries.len(), 3);
    assert_eq!(m.entries[0].path, b"a.bin".to_vec());
    assert_eq!(m.entries[0].size, 100);
    assert_eq!(m.entries[1].path, b"dir/b.bin".to_vec());
    assert_eq!(m.entries[1].chunks.len(), 2);
    assert_eq!(m.entries[1].chunks[0].length, 120);
    assert_eq!(m.entries[2].size, 50);
}

#[test]
fn manifest_chunk_sums_match_declared_length() {
    let (m, _, _, _) = three_entry_manifest();
    for e in &m.entries {
        let total: u64 = e.chunks.iter().map(|c: &Chunk| c.length).sum();
        assert_eq!(total, e.size);
    }
}

#[test]
fn manifest_rejects_length_mismatch() {
    let a: Vec<u8> = vec![1u8; 10];
    let line = format!("a.bin,11,{},10,{}", digest_bytes(&a), digest_bytes(&a));
    let err = parse_manifest(line.as_bytes()).unwrap_err();
    assert_eq!(err.row, 0);
    assert!(matches!(err.kind, RowError::LengthMismatch));
}

#[test]
fn manifest_rejects_missing_field() {
    let err = parse_manifest(b"a.bin,10").unwrap_err();
    assert!(matches!(err.kind, RowError::MissingField));
    let err = parse_manifest(b"good,0,5\nbad,1,2,3").unwrap_err();
    assert_eq!(err.row, 1);
    assert!(matches!(err.kind, RowError::MissingField));
}

#[test]
fn manifest_rejects_bad_number() {
    let err = parse_manifest(b"a.bin,1x,5").unwrap_err();
    assert!(matches!(err.kind, RowError::BadNumber));
    let err = parse_manifest(b"a.bin,99999999999999999999999,5").unwrap_err();
    assert!(matches!(err.kind, RowError::BadNumber));
}

#[test]
fn assemble_rejects_corrupt_chunk() {
    let (m, a, _, _) = three_entry_manifest();
    let mut bad = a.clone();
    bad[0][0] ^= 0xff;
    match assemble_entry(&m.entries[0], &bad) {
        Err(EntryFailure::ChunkDigest { index }) => assert_eq!(index, 0),
        other => panic!("expected a chunk digest failure, got {:?}", other),
    }
    let empty: Vec<Vec<u8>> = vec![];
    match assemble_entry(&m.entries[0], &empty) {
        Err(EntryFailure::ChunkCount) => {},
        other => panic!("expected a chunk count failure, got {:?}", other),
    }
}

#[test]
fn install_three_entries_succeeds() {
    let (m, a, b, c) = three_entry_manifest();
    let fetched: Vec<Result<Vec<Vec<u8>>, FetchFailure>> = vec![Ok(a), Ok(b), Ok(c)];
    match install_product(&m, &fetched) {
        InstallVerdict::Complete { files } => {
            assert_eq!(files.len(), 3);
            for (f, e) in files.iter().zip(m.entries.iter()) {
                assert_eq!(f.path, e.path);
                assert_eq!(f.data.len() as u64, e.size);
                assert_eq!(digest_bytes(&f.data), e.digest);
            }
            let report = verify_files(&m, &files);
            assert!(report.passed);
            assert!(report.bad.is_empty());
        },
        InstallVerdict::Failed { failed } => panic!("install failed on {:?}", failed),
    }
}

#[test]
fn install_is_deterministic_across_runs() {
    let (m, a, b, c) = three_entry_manifest();
    let fetched: Vec<Result<Vec<Vec<u8>>, FetchFailure>> =
        vec![Ok(a), Ok(b), Ok(c)];
    let first = match install_product(&m, &fetched) {
        InstallVerdict::Complete { files } => files,
        InstallVerdict::Failed { failed } => panic!("install failed on {:?}", failed),
    };
    let second = match install_product(&m, &fetched) {
        InstallVerdict::Complete { files } => files,
        InstallVerdict::Failed { failed } => panic!("install failed on {:?}", failed),
    };
    assert_eq!(first.len(), second.len());
    for (x, y) in first.iter().zip(second.iter()) {
        assert_eq!(x.path, y.path);
        assert_eq!(x.data, y.data);
    }
}

#[test]
fn install_corrupt_entry_fails_whole_product() {
    let (m, a, mut b, c) = three_entry_manifest();
    b[0][5] ^= 0x55;
    let fetched: Vec<Result<Vec<Vec<u8>>, FetchFailure>> = vec![Ok(a), Ok(b), Ok(c)];
    match install_product(&m, &fetched) {
        InstallVerdict::Complete { .. } => panic!("corrupt entry must fail the install"),
        InstallVerdict::Failed { failed } => assert_eq!(failed, vec![1usize]),
    }
}

#[test]
fn install_fetch_failure_fails_whole_product() {
    let (m, a, _, c) = three_entry_manifest();
    let fetched: Vec<Result<Vec<Vec<u8>>, FetchFailure>> =
        vec![Ok(a), Err(FetchFailure::Exhausted), Ok(c)];
    match install_product(&m, &fetched) {
        InstallVerdict::Complete { .. } => panic!("fetch failure must fail the install"),
        InstallVerdict::Failed { failed } => assert_eq!(failed, vec![1usize]),
    }
}

#[test]
fn verify_detects_missing_and_corrupt_files() {
    let (m, a, b, c) = three_entry_manifest();
    let fetched: Vec<Result<Vec<Vec<u8>>, FetchFailure>> = vec![Ok(a), Ok(b), Ok(c)];
    let mut files = match install_product(&m, &fetched) {
        InstallVerdict::Complete { files } => files,
        InstallVerdict::Failed { failed } => panic!("install failed on {:?}", failed),
    };
    files[0].data[3] ^= 1;
    files.remove(2);
    let report = verify_files(&m, &files);
    assert!(!report.passed);
    assert_eq!(report.bad, vec![0usize, 2usize]);
}

#[test]
fn retry_policy_retries_transient_until_budget() {
    let events = vec![
        FetchEvent::TransientError,
        FetchEvent::TransientError,
        FetchEvent::Received,
    ];
    assert_eq!(resolve_fetch(&events), Ok(2));
    let events = vec![
        FetchEvent::TransientError,
        FetchEvent::TransientError,
        FetchEvent::TransientError,
        FetchEvent::TransientError,
    ];
    assert_eq!(resolve_fetch(&events), Err(FetchFailure::Exhausted));
}

#[test]
fn retry_policy_fails_permanent_at_once() {
    let events = vec![FetchEvent::PermanentError, FetchEvent::Received];
    assert_eq!(resolve_fetch(&events), Err(FetchFailure::Permanent));
}

#[test]
fn retry_policy_allows_one_corrupt_retry() {
    let events = vec![FetchEvent::CorruptData, FetchEvent::Received];
    assert_eq!(resolve_fetch(&events), Ok(1));
    let events = vec![FetchEvent::CorruptData, FetchEvent::CorruptData];
    assert_eq!(resolve_fetch(&events), Err(FetchFailure::Corrupt));
}

#[test]
fn backoff_grows_and_caps() {
    assert_eq!(backoff_ms(0), 500);
    assert_eq!(backoff_ms(1), 1000);
    assert_eq!(backoff_ms(2), 2000);
    assert_eq!(backoff_ms(10), 8000);
    let s = fetch_start();
    match next_fetch_step(s, FetchEvent::TransientError) {
        (s2, FetchDecision::RetryAfter { delay_ms }) => {
            assert_eq!(delay_ms, 500);
            assert_eq!(s2.transient_seen, 1);
        },
        other => panic!("expected a retry, got {:?}", other),
    }
}

#[test]
fn update_plan_refetches_only_changed_entries() {
    let (old_m, _, _, _) = three_entry_manifest();
    let a: Vec<u8> = vec![7u8; 100];
    let b2: Vec<u8> = vec![9u8; 30];
    let d: Vec<u8> = vec![1u8; 5];
    let text = format!(
        "{}\n{}\n{}\n",
        manifest_line("a.bin", &a, &[&a]),
        manifest_line("dir/b.bin", &b2, &[&b2]),
        manifest_line("d.bin", &d, &[&d]),
    );
    let new_m = parse_manifest(text.as_bytes()).expect("manifest parses");
    let plan = plan_update(&old_m, &new_m);
    assert_eq!(plan.keep, vec![0usize]);
    assert_eq!(plan.fetch, vec![1usize, 2usize]);
    assert_eq!(plan.remove, vec![b"c.bin".to_vec()]);
}

#[test]
fn update_removals_wait_for_success() {
    let (old_m, a, b, c) = three_entry_manifest();
    let plan = plan_update(&old_m, &old_m);
    let fetched: Vec<Result<Vec<Vec<u8>>, FetchFailure>> = vec![Ok(a), Ok(b), Ok(c)];
    let complete = install_product(&old_m, &fetched);
    let failed = InstallVerdict::Failed { failed: vec![0] };
    assert!(removals_after(&failed, plan_update(&old_m, &old_m)).is_empty());
    assert_eq!(removals_after(&complete, plan), plan_update(&old_m, &old_m).remove);
}

#[test]
fn check_updates_picks_maximal_version() {
    let catalog = vec![CatalogProduct {
        slug: b"game".to_vec(),
        versions: vec![
            VersionEntry { version: b"1.0".to_vec(), platform: b"linux".to_vec() },
            VersionEntry { version: b"1.1".to_vec(), platform: b"linux".to_vec() },
            VersionEntry { version: b"2.0".to_vec(), platform: b"linux".to_vec() },
        ],
    }];
    let installed = vec![InstalledEntry {
        slug: b"game".to_vec(),
        version: b"1.0".to_vec(),
        platform: b"linux".to_vec(),
    }];
    let notices = check_updates(&catalog, &installed);
    assert_eq!(notices.len(), 1);
    assert_eq!(notices[0].slug, b"game".to_vec());
    assert_eq!(notices[0].latest, b"2.0".to_vec());
}

#[test]
fn check_updates_skips_current_and_delisted() {
    let catalog = vec![CatalogProduct {
        slug: b"game".to_vec(),
        versions: vec![VersionEntry { version: b"2.0".to_vec(), platform: b"linux".to_vec() }],
    }];
    let installed = vec![
        InstalledEntry {
            slug: b"game".to_vec(),
            version: b"2.0".to_vec(),
            platform: b"linux".to_vec(),
        },
        InstalledEntry {
            slug: b"gone".to_vec(),
            version: b"1.0".to_vec(),
            platform: b"linux".to_vec(),
        },
    ];
    assert!(check_updates(&catalog, &installed).is_empty());
}

#[test]
fn check_updates_respects_platform() {
    let catalog = vec![CatalogProduct {
        slug: b"game".to_vec(),
        versions: vec![VersionEntry { version: b"9.9".to_vec(), platform: b"windows".to_vec() }],
    }];
    let installed = vec![InstalledEntry {
        slug: b"game".to_vec(),
        version: b"1.0".to_vec(),
        platform: b"linux".to_vec(),
    }];
    assert!(check_updates(&catalog, &installed).is_empty());
}

#[test]
fn version_order_is_lexicographic() {
    assert!(version_lt(b"1.0", b"1.1"));
    assert!(version_lt(b"1.1", b"2.0"));
    assert!(version_lt(b"1.0", b"2.0"));
    assert!(!version_lt(b"2.0", b"1.1"));
    assert!(version_lt(b"1.0", b"1.0.1"));
    assert!(!version_lt(b"1.0", b"1.0"));
}

#[test]
fn install_path_resolution_precedence() {
    let explicit = resolve_install_path(
        Some(b"/opt/here".to_vec()),
        Some(b"/base".to_vec()),
        b"/default",
        b"game",
    );
    assert_eq!(explicit, b"/opt/here".to_vec());
    let based = resolve_install_path(None, Some(b"/base".to_vec()), b"/default", b"game");
    assert_eq!(based, b"/base/game".to_vec());
    let fallback = resolve_install_path(None, None, b"/default", b"game");
    assert_eq!(fallback, b"/default/game".to_vec());
    assert_eq!(join_path(b"a", b"b"), b"a/b".to_vec());
}

#[test]
fn preflight_blocks_reinstall_without_info() {
    assert!(preflight_allows(false, false));
    assert!(preflight_allows(true, true));
    assert!(!preflight_allows(true, false));
}

#[test]
fn login_and_sync_labels() {
    assert!(login_accepted(b"success"));
    assert!(!login_accepted(b"failed"));
    assert!(sync_accepted(b"success", b"true"));
    assert!(!sync_accepted(b"success", b"false"));
    assert!(!sync_accepted(b"error", b"true"));
}

#[test]
fn cookie_filter_keeps_only_unexpired() {
    let cookies = vec![
        CookieRecord { cookie: b"keep=1".to_vec(), expires: Some(1000) },
        CookieRecord { cookie: b"stale=1".to_vec(), expires: Some(10) },
        CookieRecord { cookie: b"session=1".to_vec(), expires: None },
        CookieRecord { cookie: b"edge=1".to_vec(), expires: Some(100) },
    ];
    let kept = fresh_cookies(&cookies, 100);
    assert_eq!(kept, vec![b"keep=1".to_vec()]);
}

#[test]
fn launch_command_native_and_compat() {
    let LaunchCommand { argv, prefix } = build_launch_command(
        b"game.exe".to_vec(),
        vec![b"--fast".to_vec()],
        LaunchStrategy::Native,
        None,
    );
    assert_eq!(argv, vec![b"game.exe".to_vec(), b"--fast".to_vec()]);
    assert!(prefix.is_none());

    let LaunchCommand { argv, prefix } = build_launch_command(
        b"game.exe".to_vec(),
        vec![b"--fast".to_vec()],
        LaunchStrategy::Compat {
            runtime: b"wine".to_vec(),
            prefix: Some(b"/prefixes/game".to_vec()),
        },
        Some(vec![b"mangohud".to_vec()]),
    );
    assert_eq!(
        argv,
        vec![
            b"mangohud".to_vec(),
            b"wine".to_vec(),
            b"game.exe".to_vec(),
            b"--fast".to_vec(),
        ]
    );
    assert_eq!(prefix, Some(b"/prefixes/game".to_vec()));
}
