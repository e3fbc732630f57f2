use angelsuite_installer::extract::{extraction_plan, ArchiveEntry};
use angelsuite_installer::install::Install;
use angelsuite_installer::manifest::{
    DownloadSpec, DownloadStrategy, Manifest, Product, ProductDownloads, ProductVersion, Removals,
};
use angelsuite_installer::orchestrate::{
    apply_install_success, apply_remove, offline_summaries, online_summaries, plan_install,
    plan_remove, product_state, set_prerelease, start_plan, InstallError, ProductState,
};
use angelsuite_installer::version::SemVer;
use angelsuite_installer::{local_environment_file, local_install_file, Platform};

fn ver(major: u64, minor: u64, patch: u64, pre: &str) -> SemVer {
    SemVer::new(major, minor, patch, pre.chars().collect())
}

fn tarball(url: &str, executable: Option<&str>) -> DownloadSpec {
    DownloadSpec {
        url: url.to_string(),
        strategy: DownloadStrategy::GzippedTarball,
        executable: executable.map(|s| s.to_string()),
        executable_absolute: None,
    }
}

fn linux_only(spec: DownloadSpec) -> ProductDownloads {
    ProductDownloads { windows: None, mac: None, mac_intel: None, linux: Some(spec) }
}

fn sample_manifest() -> Manifest {
    Manifest {
        latest_installer_version: ver(1, 0, 0, ""),
        products: vec![Product {
            id: "p".to_string(),
            name: "P".to_string(),
            description: "a product".to_string(),
            icon: None,
            install_directory: "p-dir".to_string(),
            removals: vec![Removals {
                on_upgrade_from: "<2.0.0".to_string(),
                on: None,
                files: vec!["stale.txt".to_string()],
            }],
            versions: vec![
                ProductVersion {
                    version: ver(1, 0, 0, ""),
                    downloads: linux_only(tarball(
                        "https://example.invalid/p-1.0.0.tar.gz",
                        Some("bin/p"),
                    )),
                },
                ProductVersion {
                    version: ver(1, 1, 0, "beta"),
                    downloads: linux_only(tarball(
                        "https://example.invalid/p-1.1.0-beta.tar.gz",
                        Some("bin/p"),
                    )),
                },
            ],
        }],
    }
}

fn render(v: &SemVer) -> String {
    v.render().into_iter().collect()
}

#[test]
fn fresh_install_with_wrapped_tarball() {
    let manifest = sample_manifest();
    let mut store = Install::new();

    let plan = plan_install(&manifest, &store, "p", Platform::Linux).unwrap();
    assert_eq!(plan.install_directory, "p-dir");
    assert_eq!(render(&plan.version), "1.0.0");
    assert!(plan.removal_files.is_empty(), "a fresh install runs no removal pass");
    let download = plan.download.expect("an artifact resolves for linux");
    assert_eq!(download.url, "https://example.invalid/p-1.0.0.tar.gz");
    assert!(matches!(download.strategy, DownloadStrategy::GzippedTarball));

    // the downloaded archive wraps everything in `P-1.0.0/`
    let entries = vec![
        ArchiveEntry { path: "P-1.0.0/".to_string(), is_dir: true },
        ArchiveEntry { path: "P-1.0.0/bin/".to_string(), is_dir: true },
        ArchiveEntry { path: "P-1.0.0/bin/p".to_string(), is_dir: false },
    ];
    let unpack = extraction_plan(&entries).unwrap();
    let paths: Vec<String> = unpack.iter().map(|e| e.path.clone()).collect();
    assert_eq!(paths, vec!["bin/".to_string(), "bin/p".to_string()]);

    apply_install_success(
        &mut store,
        "p".to_string(),
        &manifest.products[0].name,
        &manifest.products[0].description,
        render(&plan.version),
        Some(("/root/p-dir/bin/p".to_string(), "/root/p-dir".to_string())),
    );
    let rec = store.get("p").unwrap();
    assert_eq!(rec.version, Some("1.0.0".to_string()));
    assert_eq!(rec.name, "P");
    assert_eq!(rec.main_executable, Some("/root/p-dir/bin/p".to_string()));
    assert_eq!(rec.execute_working_directory, Some("/root/p-dir".to_string()));
}

#[test]
fn upgrade_applies_matching_removals() {
    let manifest = sample_manifest();
    let mut store = Install::new();
    {
        let rec = store.get_mut_product_or_default("p".to_string());
        rec.version = Some("1.5.0".to_string());
    }
    let plan = plan_install(&manifest, &store, "p", Platform::Linux).unwrap();
    assert_eq!(plan.removal_files, vec!["stale.txt".to_string()]);

    // an installed version outside the range skips the rule
    {
        let rec = store.get_mut_product_or_default("p".to_string());
        rec.version = Some("2.1.0".to_string());
    }
    let plan = plan_install(&manifest, &store, "p", Platform::Linux).unwrap();
    assert!(plan.removal_files.is_empty());
}

#[test]
fn removals_respect_platform_lists() {
    let mut manifest = sample_manifest();
    manifest.products[0].removals = vec![Removals {
        on_upgrade_from: "<2.0.0".to_string(),
        on: Some(vec!["windows".to_string()]),
        files: vec!["win-only.dll".to_string()],
    }];
    let mut store = Install::new();
    store.get_mut_product_or_default("p".to_string()).version = Some("1.0.0".to_string());
    let on_linux = plan_install(&manifest, &store, "p", Platform::Linux).unwrap();
    assert!(on_linux.removal_files.is_empty());
    let on_windows = plan_install(&manifest, &store, "p", Platform::Windows).unwrap();
    assert_eq!(on_windows.removal_files, vec!["win-only.dll".to_string()]);
}

#[test]
fn invalid_removal_range_matches_nothing() {
    let mut manifest = sample_manifest();
    manifest.products[0].removals = vec![Removals {
        on_upgrade_from: "not a range".to_string(),
        on: None,
        files: vec!["x".to_string()],
    }];
    let mut store = Install::new();
    store.get_mut_product_or_default("p".to_string()).version = Some("1.0.0".to_string());
    let plan = plan_install(&manifest, &store, "p", Platform::Linux).unwrap();
    assert!(plan.removal_files.is_empty());
}

#[test]
fn stored_preference_drives_resolution() {
    let manifest = sample_manifest();
    let mut store = Install::new();
    let plan = plan_install(&manifest, &store, "p", Platform::Linux).unwrap();
    assert_eq!(render(&plan.version), "1.0.0");
    set_prerelease(&mut store, "p".to_string(), true);
    let plan = plan_install(&manifest, &store, "p", Platform::Linux).unwrap();
    assert_eq!(render(&plan.version), "1.1.0-beta");
    assert_eq!(
        plan.download.unwrap().url,
        "https://example.invalid/p-1.1.0-beta.tar.gz"
    );
}

#[test]
fn install_errors() {
    let manifest = sample_manifest();
    let store = Install::new();
    assert!(matches!(
        plan_install(&manifest, &store, "unknown", Platform::Linux),
        Err(InstallError::ProductNotFound)
    ));
    let mut broken = Install::new();
    broken.get_mut_product_or_default("p".to_string()).version =
        Some("not a version".to_string());
    assert!(matches!(
        plan_install(&manifest, &broken, "p", Platform::Linux),
        Err(InstallError::InvalidStoredVersion)
    ));
    // no artifact for this platform: the plan carries no download and the
    // caller reports `NoArtifact`
    let plan = plan_install(&manifest, &store, "p", Platform::MacArm).unwrap();
    assert!(plan.download.is_none());
    assert_eq!(InstallError::ProductNotFound.message(), "No matching product found");
    assert_eq!(
        InstallError::NoArtifact.message(),
        "Download not available for this operating system"
    );
}

#[test]
fn remove_clears_install_fields_and_keeps_identity() {
    let manifest = sample_manifest();
    let mut store = Install::new();
    apply_install_success(
        &mut store,
        "p".to_string(),
        &"P".to_string(),
        &"a product".to_string(),
        "1.0.0".to_string(),
        Some(("/root/p-dir/bin/p".to_string(), "/root/p-dir".to_string())),
    );
    set_prerelease(&mut store, "p".to_string(), true);

    let dir = plan_remove(&manifest, "p").unwrap();
    assert_eq!(dir, "p-dir");
    assert!(matches!(plan_remove(&manifest, "zzz"), Err(InstallError::ProductNotFound)));

    apply_remove(&mut store, "p".to_string());
    let rec = store.get("p").unwrap();
    assert_eq!(rec.version, None);
    assert_eq!(rec.main_executable, None);
    assert_eq!(rec.execute_working_directory, None);
    assert_eq!(rec.name, "P");
    assert_eq!(rec.description, "a product");
    assert!(rec.use_prerelease);
}

#[test]
fn start_plan_follows_the_record() {
    let mut store = Install::new();
    assert!(matches!(start_plan(&store, "p"), Err(InstallError::ProductNotFound)));
    store.get_mut_product_or_default("p".to_string()).name = "P".to_string();
    assert!(matches!(start_plan(&store, "p"), Ok(None)));
    {
        let rec = store.get_mut_product_or_default("p".to_string());
        rec.main_executable = Some("/x/bin/p".to_string());
        rec.execute_working_directory = Some("/x".to_string());
    }
    let cmd = start_plan(&store, "p").unwrap().unwrap();
    assert_eq!(cmd.executable, "/x/bin/p");
    assert_eq!(cmd.working_directory, Some("/x".to_string()));
}

#[test]
fn online_summaries_reflect_manifest_and_store() {
    let manifest = sample_manifest();
    let mut store = Install::new();
    {
        let rec = store.get_mut_product_or_default("p".to_string());
        rec.version = Some("1.0.0".to_string());
        rec.main_executable = Some("/x/bin/p".to_string());
    }
    let rows = online_summaries(&manifest, &store, Platform::Linux);
    assert_eq!(rows.len(), 1);
    let row = &rows[0];
    assert_eq!(row.id, "p");
    assert_eq!(row.name, "P");
    assert_eq!(row.local_version, Some("1.0.0".to_string()));
    assert_eq!(row.remote_version, "1.0.0");
    assert_eq!(row.remote_version_prerelease, "1.1.0-beta");
    assert!(row.has_os_match);
    assert!(row.has_os_match_prerelease);
    assert!(row.can_start);
    assert!(!row.allow_prerelease);
    // a platform without artifacts
    let rows = online_summaries(&manifest, &store, Platform::MacIntel);
    assert!(!rows[0].has_os_match);
    assert!(!rows[0].has_os_match_prerelease);
}

#[test]
fn offline_summaries_list_installed_products_only() {
    let mut store = Install::new();
    {
        let rec = store.get_mut_product_or_default("installed".to_string());
        rec.name = "I".to_string();
        rec.version = Some("1.0.0".to_string());
        rec.main_executable = Some("/x".to_string());
    }
    store.get_mut_product_or_default("not-installed".to_string()).name = "N".to_string();
    let rows = offline_summaries(&store);
    assert_eq!(rows.len(), 1);
    let row = &rows[0];
    assert_eq!(row.id, "installed");
    assert_eq!(row.remote_version, "0.0.0");
    assert_eq!(row.remote_version_prerelease, "0.0.0");
    assert!(row.has_os_match && row.can_start);
}

#[test]
fn product_state_classification() {
    let installed = Some("1.0.0".to_string());
    assert!(matches!(product_state(&installed, "1.0.0"), ProductState::InstalledLatest));
    assert!(matches!(product_state(&installed, "2.0.0"), ProductState::InstalledUpdate));
    // a real installed version with only the sentinel remotely counts as latest
    assert!(matches!(product_state(&installed, "0.0.0"), ProductState::InstalledLatest));
    let sentinel = Some("0.0.0".to_string());
    assert!(matches!(product_state(&sentinel, "1.0.0"), ProductState::InstalledUpdate));
    assert!(matches!(product_state(&None, "1.0.0"), ProductState::NotInstalled));
}

#[test]
fn config_paths_join_under_the_install_root() {
    assert_eq!(local_install_file("/opt/suite"), "/opt/suite/installer.json");
    assert_eq!(local_environment_file("/opt/suite"), "/opt/suite/.env");
}

#[test]
fn get_or_default_creates_once_and_returns_the_same_record() {
    let mut store = Install::new();
    assert!(store.get("p").is_none());
    store.get_mut_product_or_default("p".to_string()).use_prerelease = true;
    assert_eq!(store.len(), 1);
    // the same id yields the existing record, not a fresh default
    assert!(store.get_mut_product_or_default("p".to_string()).use_prerelease);
    assert_eq!(store.len(), 1);
}
