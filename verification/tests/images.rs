use cratebay_core::images::{
    builtin_catalog, check_checksum, find_image, hex_lower, image_dir, images_dir, is_image_ready,
    list_available_images, list_downloaded_images, metadata_path, plan_download, read_download_progress,
    recorded_status, sha256_hex, verify_image_file, ImageError, ImageStatus, download_start, download_step,
    DownloadAction, DownloadEvent, DownloadState, run_download, file_fetch, FileFetch,
};

#[test]
fn sha256_of_known_inputs() {
    assert_eq!(sha256_hex(b"abc"), "ba7816bf8f01cfea414140de5dae2223b00361a396177a9cb410ff61f20015ad");
    assert_eq!(sha256_hex(b""), "e3b0c44298fc1c149afbf4c8996fb92427ae41e4649b934ca495991b7852b855");
}

#[test]
fn hex_is_lowercase_two_digits_per_byte() {
    assert_eq!(hex_lower(&vec![0x00, 0x0f, 0xa0, 0xff]), "000fa0ff");
    assert_eq!(hex_lower(&vec![]), "");
}

#[test]
fn downloaded_files_are_checked_against_their_checksum() {
    assert!(verify_image_file("", b"anything").is_ok());
    assert!(verify_image_file("ba7816bf8f01cfea414140de5dae2223b00361a396177a9cb410ff61f20015ad", b"abc").is_ok());
    match verify_image_file("00", b"abc") {
        Err(ImageError::ChecksumMismatch { expected, actual }) => {
            assert_eq!(expected, "00");
            assert_eq!(actual, "ba7816bf8f01cfea414140de5dae2223b00361a396177a9cb410ff61f20015ad");
        }
        other => panic!("unexpected {:?}", other),
    }
    assert!(check_checksum("", "x").is_ok());
    assert!(check_checksum("ab", "ab").is_ok());
    let e = check_checksum("ab", "cd").unwrap_err();
    assert_eq!(e.describe(), "checksum mismatch: expected ab, got cd");
}

#[test]
fn image_error_messages() {
    assert_eq!(ImageError::NotFound("x".into()).describe(), "image not found: x");
    assert_eq!(ImageError::AlreadyExists("x".into()).describe(), "image already exists: x");
    assert_eq!(ImageError::DownloadFailed("x".into()).describe(), "download failed: x");
    assert_eq!(ImageError::Io("x".into()).describe(), "IO error: x");
}

#[test]
fn image_locations() {
    assert_eq!(images_dir("/data"), "/data/images");
    assert_eq!(image_dir("/data", "alpine-3.19"), "/data/images/alpine-3.19");
    assert_eq!(metadata_path("/data", "alpine-3.19"), "/data/images/alpine-3.19/metadata.json");
}

#[test]
fn recorded_statuses_decide_what_is_listed() {
    let recorded = vec![
        ("ubuntu-24.04".to_string(), ImageStatus::Ready),
        ("debian-12".to_string(), ImageStatus::Downloading),
        ("ubuntu-24.04".to_string(), ImageStatus::NotDownloaded),
    ];
    assert_eq!(recorded_status(&recorded, "ubuntu-24.04"), ImageStatus::Ready);
    assert_eq!(recorded_status(&recorded, "alpine-3.19"), ImageStatus::NotDownloaded);
    assert!(is_image_ready("ubuntu-24.04", &recorded));
    assert!(!is_image_ready("debian-12", &recorded));

    let all = list_available_images(&recorded);
    assert_eq!(all.len(), builtin_catalog().len());
    let downloaded = list_downloaded_images(&recorded);
    assert_eq!(downloaded.len(), 1);
    assert_eq!(downloaded[0].id, "ubuntu-24.04");
    assert_eq!(find_image("debian-12", &recorded).unwrap().status, ImageStatus::Downloading);
    assert!(find_image("nope", &recorded).is_none());
}

#[test]
fn download_progress_from_disk() {
    let size = find_image("alpine-3.19", &vec![]).unwrap().size_bytes;
    let p = read_download_progress("alpine-3.19", ImageStatus::Ready, &vec![]);
    assert!(p.done);
    assert_eq!(p.current_file, "done");
    assert_eq!(p.bytes_downloaded, size);
    assert_eq!(p.bytes_total, size);
    let p = read_download_progress("alpine-3.19", ImageStatus::Downloading, &vec![100, 50]);
    assert!(!p.done);
    assert_eq!(p.current_file, "downloading");
    assert_eq!(p.bytes_downloaded, 150);
    let p = read_download_progress("nope", ImageStatus::NotDownloaded, &vec![100]);
    assert_eq!(p.current_file, "");
    assert_eq!(p.bytes_downloaded, 0);
    assert_eq!(p.bytes_total, 0);
    assert!(p.error.is_none());
}

#[test]
fn download_plans() {
    let plan = plan_download("alpine-3.19", &vec![], "/data").unwrap();
    assert_eq!(plan.total, 50_000_000);
    assert_eq!(plan.paths.kernel_path, "/data/images/alpine-3.19/vmlinuz");
    assert_eq!(plan.paths.rootfs_path, "/data/images/alpine-3.19/rootfs.img");
    let files = plan.files;
    assert_eq!(files.len(), 3);
    assert_eq!(files[0].label, "kernel");
    assert_eq!(files[0].dest, "/data/images/alpine-3.19/vmlinuz");
    assert_eq!(
        files[0].url,
        "https://dl-cdn.alpinelinux.org/alpine/v3.19/releases/aarch64/netboot/vmlinuz-lts"
    );
    assert_eq!(files[1].label, "initrd");
    assert_eq!(files[1].dest, "/data/images/alpine-3.19/initramfs");
    assert_eq!(files[2].label, "rootfs");
    assert_eq!(files[2].dest, "/data/images/alpine-3.19/rootfs.img");

    match plan_download("nope", &vec![], "/data") {
        Err(ImageError::NotFound(m)) => assert_eq!(m, "nope"),
        other => panic!("unexpected {:?}", other),
    }
    let busy = vec![("alpine-3.19".to_string(), ImageStatus::Downloading)];
    match plan_download("alpine-3.19", &busy, "/data") {
        Err(ImageError::DownloadFailed(m)) => assert_eq!(m, "Download already in progress"),
        other => panic!("unexpected {:?}", other),
    }
}

#[test]
fn download_follows_each_file() {
    let mut files = plan_download("alpine-3.19", &vec![], "/data").unwrap().files;
    files[1].sha256 = "ab".to_string();
    let total = 1000;
    let (state, action) = download_start(&files, total);
    assert!(matches!(action, DownloadAction::Report { ref label, downloaded: 0, total: 1000 } if label == "kernel"));

    let (state, action) = download_step(&files, total, state, DownloadEvent::Response { success: true, status: "200 OK".into() });
    assert!(matches!(action, DownloadAction::Receive));
    let (state, action) = download_step(&files, total, state, DownloadEvent::Chunk(300));
    assert!(matches!(action, DownloadAction::Report { downloaded: 300, .. }));
    assert_eq!(state, DownloadState { file: 0, downloaded: 300 });
    // No checksum for the kernel: any digest is accepted.
    let (state, action) = download_step(&files, total, state, DownloadEvent::Finished { digest: "ff".into() });
    assert!(matches!(action, DownloadAction::Report { ref label, downloaded: 300, .. } if label == "initrd"));
    assert_eq!(state.file, 1);

    // A wrong checksum stops the download and resets the status.
    let (_, action) = download_step(&files, total, state, DownloadEvent::Finished { digest: "cd".into() });
    match action {
        DownloadAction::Fail { error: ImageError::ChecksumMismatch { expected, actual }, reset } => {
            assert_eq!(expected, "ab");
            assert_eq!(actual, "cd");
            assert!(reset);
        }
        other => panic!("unexpected {:?}", other),
    }
    let (state, _) = download_step(&files, total, state, DownloadEvent::Finished { digest: "ab".into() });
    assert_eq!(state.file, 2);
    let (_, action) = download_step(&files, total, state, DownloadEvent::Finished { digest: "00".into() });
    assert!(
        matches!(action, DownloadAction::Complete { ref label, downloaded: 1000, total: 1000 } if label == "done")
    );
}

#[test]
fn download_failures() {
    let files = plan_download("debian-12", &vec![], "/data").unwrap().files;
    let state = DownloadState { file: 2, downloaded: 10 };
    match download_step(&files, 5, state, DownloadEvent::Response { success: false, status: "404 Not Found".into() }).1 {
        DownloadAction::Fail { error: ImageError::DownloadFailed(m), reset } => {
            assert_eq!(m, "rootfs: HTTP 404 Not Found");
            assert!(reset);
        }
        other => panic!("unexpected {:?}", other),
    }
    match download_step(&files, 5, state, DownloadEvent::StreamError("connection reset".into())).1 {
        DownloadAction::Fail { error: ImageError::DownloadFailed(m), reset } => {
            assert_eq!(m, "rootfs: connection reset");
            assert!(!reset);
        }
        other => panic!("unexpected {:?}", other),
    }
}

fn fetch(accepted: bool, chunks: Vec<u64>, stream_error: Option<&str>, digest: &str) -> FileFetch {
    FileFetch {
        accepted,
        status: if accepted { "200 OK".into() } else { "404 Not Found".into() },
        chunks,
        stream_error: stream_error.map(|e| e.to_string()),
        digest: digest.into(),
    }
}

#[test]
fn whole_download_reports_and_yields_paths() {
    let plan = plan_download("alpine-3.19", &vec![], "/data").unwrap();
    let fetches = vec![fetch(true, vec![10, 20], None, "aa"), fetch(true, vec![5], None, "bb"), fetch(true, vec![], None, "cc")];
    let (reports, result, reset) = run_download(plan, &fetches);
    let t = 50_000_000;
    let want: Vec<(String, u64, u64)> = vec![
        ("kernel".into(), 0, t),
        ("kernel".into(), 10, t),
        ("kernel".into(), 30, t),
        ("initrd".into(), 30, t),
        ("initrd".into(), 35, t),
        ("rootfs".into(), 35, t),
        ("done".into(), t, t),
    ];
    assert_eq!(reports, want);
    let paths = result.unwrap();
    assert_eq!(paths.kernel_path, "/data/images/alpine-3.19/vmlinuz");
    assert_eq!(paths.initrd_path, "/data/images/alpine-3.19/initramfs");
    assert_eq!(paths.rootfs_path, "/data/images/alpine-3.19/rootfs.img");
    assert!(!reset);
}

#[test]
fn whole_download_stops_at_the_first_failure() {
    let plan = plan_download("alpine-3.19", &vec![], "/data").unwrap();
    let fetches = vec![fetch(true, vec![1], None, "aa"), fetch(false, vec![], None, ""), fetch(true, vec![], None, "")];
    let (reports, result, reset) = run_download(plan, &fetches);
    assert_eq!(reports.len(), 3);
    assert_eq!(reports[2], ("initrd".to_string(), 1, 50_000_000));
    match result {
        Err(ImageError::DownloadFailed(m)) => assert_eq!(m, "initrd: HTTP 404 Not Found"),
        other => panic!("unexpected {:?}", other),
    }
    assert!(reset);

    let mut plan = plan_download("alpine-3.19", &vec![], "/data").unwrap();
    plan.files[0].sha256 = "ab".into();
    let fetches = vec![fetch(true, vec![4], None, "cd"), fetch(true, vec![], None, ""), fetch(true, vec![], None, "")];
    let (_, result, reset) = run_download(plan, &fetches);
    match result {
        Err(ImageError::ChecksumMismatch { expected, actual }) => {
            assert_eq!((expected.as_str(), actual.as_str()), ("ab", "cd"))
        }
        other => panic!("unexpected {:?}", other),
    }
    assert!(reset);

    let plan = plan_download("alpine-3.19", &vec![], "/data").unwrap();
    let fetches = vec![fetch(true, vec![4], Some("connection reset"), ""), fetch(true, vec![], None, ""), fetch(true, vec![], None, "")];
    let (reports, result, reset) = run_download(plan, &fetches);
    assert_eq!(reports.len(), 2);
    match result {
        Err(ImageError::DownloadFailed(m)) => assert_eq!(m, "kernel: connection reset"),
        other => panic!("unexpected {:?}", other),
    }
    assert!(!reset);
}

#[test]
fn fetched_files_carry_sizes_and_digest_of_the_whole_body() {
    let f = file_fetch(true, "200 OK".into(), &vec![b"a".to_vec(), b"bc".to_vec()], None);
    assert!(f.accepted);
    assert_eq!(f.status, "200 OK");
    assert_eq!(f.chunks, vec![1, 2]);
    assert!(f.stream_error.is_none());
    assert_eq!(f.digest, "ba7816bf8f01cfea414140de5dae2223b00361a396177a9cb410ff61f20015ad");
}
