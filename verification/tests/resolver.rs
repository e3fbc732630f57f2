use angelsuite_installer::manifest::{
    DownloadSpec, DownloadStrategy, Product, ProductDownloads, ProductVersion,
};
use angelsuite_installer::version::SemVer;
use angelsuite_installer::Platform;

fn ver(major: u64, minor: u64, patch: u64, pre: &str) -> SemVer {
    SemVer::new(major, minor, patch, pre.chars().collect())
}

fn spec(url: &str) -> DownloadSpec {
    DownloadSpec {
        url: url.to_string(),
        strategy: DownloadStrategy::GzippedTarball,
        executable: None,
        executable_absolute: None,
    }
}

fn no_downloads() -> ProductDownloads {
    ProductDownloads { windows: None, mac: None, mac_intel: None, linux: None }
}

fn product(versions: Vec<ProductVersion>) -> Product {
    Product {
        id: "p".to_string(),
        name: "P".to_string(),
        description: "a product".to_string(),
        icon: None,
        install_directory: "p-dir".to_string(),
        removals: Vec::new(),
        versions,
    }
}

fn render(v: &SemVer) -> String {
    v.render().into_iter().collect()
}

#[test]
fn empty_version_list_resolves_to_sentinel() {
    let p = product(Vec::new());
    assert_eq!(render(&p.latest_version(false)), "0.0.0");
    assert_eq!(render(&p.latest_version(true)), "0.0.0");
}

#[test]
fn stable_channel_never_resolves_a_prerelease() {
    let p = product(vec![
        ProductVersion { version: ver(1, 0, 0, ""), downloads: no_downloads() },
        ProductVersion { version: ver(1, 1, 0, "beta"), downloads: no_downloads() },
        ProductVersion { version: ver(2, 0, 0, "rc.1"), downloads: no_downloads() },
    ]);
    let latest = p.latest_version(false);
    assert!(latest.pre.is_empty());
    assert_eq!(render(&latest), "1.0.0");
}

#[test]
fn prerelease_toggle_changes_resolution() {
    let p = product(vec![
        ProductVersion { version: ver(1, 0, 0, ""), downloads: no_downloads() },
        ProductVersion { version: ver(1, 1, 0, "beta"), downloads: no_downloads() },
    ]);
    assert_eq!(render(&p.latest_version(false)), "1.0.0");
    assert_eq!(render(&p.latest_version(true)), "1.1.0-beta");
}

#[test]
fn precedence_follows_semver_rules() {
    // triple order
    assert!(ver(1, 0, 0, "").precedence_lt(&ver(1, 1, 0, "")));
    assert!(ver(1, 9, 9, "").precedence_lt(&ver(2, 0, 0, "")));
    // a release outranks any prerelease of the same triple
    assert!(ver(1, 0, 0, "alpha").precedence_lt(&ver(1, 0, 0, "")));
    assert!(!ver(1, 0, 0, "").precedence_lt(&ver(1, 0, 0, "alpha")));
    // lexical identifier order
    assert!(ver(1, 0, 0, "alpha").precedence_lt(&ver(1, 0, 0, "beta")));
    // numeric identifiers rank below alphanumeric ones
    assert!(ver(1, 0, 0, "alpha.1").precedence_lt(&ver(1, 0, 0, "alpha.beta")));
    // numeric identifiers compare numerically
    assert!(ver(1, 0, 0, "alpha.2").precedence_lt(&ver(1, 0, 0, "alpha.11")));
    // a shorter identifier list ranks below its extensions
    assert!(ver(1, 0, 0, "alpha").precedence_lt(&ver(1, 0, 0, "alpha.1")));
    // equality
    assert_eq!(ver(1, 0, 0, "beta").precedence_cmp(&ver(1, 0, 0, "beta")), 0);
}

#[test]
fn render_writes_canonical_text() {
    assert_eq!(render(&ver(1, 2, 3, "")), "1.2.3");
    assert_eq!(render(&ver(1, 0, 0, "beta.1")), "1.0.0-beta.1");
    assert_eq!(render(&ver(0, 0, 0, "")), "0.0.0");
    assert_eq!(render(&ver(u64::MAX, 0, 10, "")), "18446744073709551615.0.10");
}

#[test]
fn artifact_selection_is_per_platform() {
    let downloads = ProductDownloads {
        windows: Some(spec("https://example.invalid/p-windows.tar.gz")),
        mac: None,
        mac_intel: None,
        linux: Some(spec("https://example.invalid/p-linux.tar.gz")),
    };
    let p = product(vec![ProductVersion { version: ver(1, 0, 0, ""), downloads }]);
    let win = p.latest_version_data(false, Platform::Windows);
    assert_eq!(win.unwrap().url, "https://example.invalid/p-windows.tar.gz");
    let linux = p.latest_version_data(false, Platform::Linux);
    assert_eq!(linux.unwrap().url, "https://example.invalid/p-linux.tar.gz");
    assert!(p.latest_version_data(false, Platform::MacArm).is_none());
    assert!(p.latest_version_data(false, Platform::MacIntel).is_none());
}

#[test]
fn artifact_absent_when_no_version_matches() {
    let p = product(Vec::new());
    assert!(p.latest_version_data(false, Platform::Linux).is_none());
}

#[test]
fn platform_tags() {
    assert_eq!(Platform::Windows.tag(), "windows");
    assert_eq!(Platform::MacArm.tag(), "mac");
    assert_eq!(Platform::MacIntel.tag(), "mac-intel");
    assert_eq!(Platform::Linux.tag(), "linux");
}
