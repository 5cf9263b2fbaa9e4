use cratebay_core::k3s::{
    count_nodes, download_status_error, download_url, install_plan, k3s_base_dir, k3s_binary_path, k3s_bin_dir, k3s_data_dir, parse_k3s_version,
    K3sConfig, K3sError, K3sManager,
};
use cratebay_core::store::Platform;

#[test]
fn download_urls_per_architecture() {
    assert_eq!(
        download_url("v1.29.0+k3s1", "x86_64"),
        "https://github.com/k3s-io/k3s/releases/download/v1.29.0+k3s1/k3s"
    );
    assert_eq!(
        download_url("v1.29.0+k3s1", "aarch64"),
        "https://github.com/k3s-io/k3s/releases/download/v1.29.0+k3s1/k3s-arm64"
    );
    assert_eq!(
        download_url("v1.29.0+k3s1", "arm64"),
        "https://github.com/k3s-io/k3s/releases/download/v1.29.0+k3s1/k3s-arm64"
    );
}

#[test]
fn k3s_locations() {
    assert_eq!(k3s_base_dir("/data"), "/data/k3s");
    assert_eq!(k3s_bin_dir("/data"), "/data/k3s/bin");
    assert_eq!(k3s_data_dir("/data"), "/data/k3s/data");
    assert_eq!(k3s_binary_path("/data"), "/data/k3s/bin/k3s");
    assert_eq!(K3sManager::kubeconfig_path("/data"), "/data/k3s/data/server/cred/admin.kubeconfig");
    assert!(K3sManager::is_installed("/data", &vec!["/data/k3s/bin/k3s".to_string()]));
    assert!(!K3sManager::is_installed("/data", &vec!["/data/k3s/bin".to_string()]));
}

#[test]
fn version_and_node_count_from_output() {
    assert_eq!(
        parse_k3s_version("k3s version v1.29.0+k3s1 (abc123)\ngo version go1.21").as_deref(),
        Some("v1.29.0+k3s1")
    );
    assert_eq!(parse_k3s_version("no version here"), None);
    assert_eq!(count_nodes("node1 Ready\nnode2 Ready\n\n   \n"), 2);
    assert_eq!(count_nodes(""), 0);
}

#[test]
fn cluster_lifecycle_decisions() {
    let mut config = K3sConfig::default_for("/data");
    assert_eq!(config.data_dir, "/data/k3s/data");
    assert_eq!(config.flannel_backend, "vxlan");
    assert!(!config.disable_traefik);

    assert!(matches!(K3sManager::start_cluster(&config, false, false), Err(K3sError::NotInstalled)));
    assert!(matches!(K3sManager::start_cluster(&config, true, true), Err(K3sError::AlreadyRunning)));
    let args = K3sManager::start_cluster(&config, true, false).unwrap();
    assert_eq!(
        args,
        vec!["server", "--write-kubeconfig-mode", "644", "--data-dir", "/data/k3s/data", "--flannel-backend", "vxlan"]
    );
    config.disable_traefik = true;
    let args = K3sManager::start_cluster(&config, true, false).unwrap();
    assert_eq!(&args[7..], &["--disable".to_string(), "traefik".to_string()]);

    assert!(matches!(K3sManager::stop_cluster(false, true), Err(K3sError::NotRunning)));
    assert!(K3sManager::stop_cluster(true, true).is_ok());
    let e = K3sManager::stop_cluster(true, false).unwrap_err();
    assert_eq!(e.describe(), "unsupported platform: Stopping K3s on this platform is not yet supported.");

    let s = K3sManager::cluster_status(true, true, Some("k3s version v1.30.1+k3s1 (x)"), Some("n1 Ready\n"));
    assert!(s.installed && s.running);
    assert_eq!(s.version, "v1.30.1+k3s1");
    assert_eq!(s.node_count, 1);
    let s = K3sManager::cluster_status(false, false, Some("k3s version v1"), Some("n1\n"));
    assert_eq!(s.version, "");
    assert_eq!(s.node_count, 0);
}

#[test]
fn install_decisions() {
    assert_eq!(
        install_plan(None, Platform::Linux, true, "x86_64").unwrap(),
        "https://github.com/k3s-io/k3s/releases/download/v1.31.4+k3s1/k3s"
    );
    assert_eq!(
        install_plan(Some("v1.30.0+k3s1"), Platform::Linux, true, "aarch64").unwrap(),
        "https://github.com/k3s-io/k3s/releases/download/v1.30.0+k3s1/k3s-arm64"
    );
    let e = install_plan(None, Platform::MacOs, true, "aarch64").unwrap_err();
    assert_eq!(
        e.describe(),
        "unsupported platform: K3s requires Linux. On macOS/Windows it will run inside a CargoBay VM (coming soon)."
    );
    assert!(matches!(install_plan(None, Platform::Linux, false, "x86_64"), Err(K3sError::DownloadFailed(_))));
    assert_eq!(
        download_status_error("404 Not Found", "https://x/k3s").describe(),
        "K3s download failed: HTTP 404 Not Found: https://x/k3s"
    );
}
