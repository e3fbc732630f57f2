//! The install/upgrade/remove state machine.
//!
//! Each operation is split in two pure halves around the I/O that the
//! caller performs: planning (what to download, which files to delete,
//! which version is being installed) and the state-store update applied
//! once the outside work succeeded. The caller looks up nothing itself:
//! product resolution, removal matching and record bookkeeping all happen
//! here, against the manifest and the install store.

use vstd::prelude::*;

use crate::Platform;
use crate::install::{
    Install, InstalledProduct, InstalledProductView, spec_default_record, spec_find, spec_get,
};
use crate::manifest::{
    DownloadSpec, DownloadSpecView, Manifest, ManifestView, Product, ProductView, opt_spec_view,
    opt_str_view, spec_latest, spec_latest_data, spec_removal_files,
};
use crate::strutil;
use crate::version::{SemVer, SemVerView, version_text};

verus! {

/// Why an operation could not proceed.
#[derive(Debug)]
pub enum InstallError {
    /// The manifest lists no product with the given id.
    ProductNotFound,
    /// Version resolution yielded no artifact for this platform.
    NoArtifact,
    /// The version recorded for the installed product is not valid
    /// version text.
    InvalidStoredVersion,
}

impl InstallError {
    /// The text shown for this failure.
    pub open spec fn spec_message(self) -> Seq<char> {
        match self {
            InstallError::ProductNotFound => "No matching product found"@,
            InstallError::NoArtifact => "Download not available for this operating system"@,
            InstallError::InvalidStoredVersion => "The installed version on record is not a valid version"@,
        }
    }

    /// The text shown for this failure.
    pub fn message(&self) -> (r: &'static str)
        ensures
            r@ == self.spec_message(),
    {
        match self {
            InstallError::ProductNotFound => "No matching product found",
            InstallError::NoArtifact => "Download not available for this operating system",
            InstallError::InvalidStoredVersion => "The installed version on record is not a valid version",
        }
    }
}

// ---------------------------------------------------------------------------
// Stored version text
// ---------------------------------------------------------------------------

/// What `semver`'s parser makes of version text: the numeric triple and
/// the pre-release component, or nothing when the text is not a valid
/// semantic version.
pub uninterp spec fn spec_parsed_version(s: Seq<char>) -> Option<(u64, u64, u64, Seq<char>)>;

/// Relies on `semver::Version::parse`: splits valid version text into its
/// numeric triple and pre-release component (build metadata, which never
/// affects precedence, is dropped); fails exactly on invalid text.
#[verifier::external_body]
fn parse_version_exec(s: &str) -> (r: Option<SemVer>)
    ensures
        r is Some <==> spec_parsed_version(s@) is Some,
        r matches Some(v) ==> spec_parsed_version(s@) == Some((v.major, v.minor, v.patch, v.pre@)),
{
    match semver::Version::parse(s) {
        Ok(v) => Some(
            SemVer {
                major: v.major,
                minor: v.minor,
                patch: v.patch,
                pre: v.pre.as_str().chars().collect(),
            },
        ),
        Err(_) => None,
    }
}

/// The version view that parsed version text denotes.
pub open spec fn spec_version_of_text(s: Seq<char>) -> Option<SemVerView> {
    match spec_parsed_version(s) {
        Some((major, minor, patch, pre)) => Some(SemVerView { major, minor, patch, pre }),
        None => None,
    }
}

// ---------------------------------------------------------------------------
// Install planning
// ---------------------------------------------------------------------------

/// Everything the caller needs to carry out an install: where to put the
/// files, what to delete first, what to download, and the version being
/// installed.
pub struct InstallPlan {
    /// The product's install directory, relative to the install root.
    pub install_directory: String,
    /// Paths (relative to the install directory) to delete, best-effort,
    /// before re-extraction.
    pub removal_files: Vec<String>,
    /// The resolved target version.
    pub version: SemVer,
    /// The artifact to download, absent when this platform has none.
    pub download: Option<DownloadSpec>,
}

pub ghost struct InstallPlanView {
    pub install_directory: Seq<char>,
    pub removal_files: Seq<Seq<char>>,
    pub version: SemVerView,
    pub download: Option<DownloadSpecView>,
}

impl View for InstallPlan {
    type V = InstallPlanView;

    open spec fn view(&self) -> InstallPlanView {
        InstallPlanView {
            install_directory: self.install_directory@,
            removal_files: self.removal_files.deep_view(),
            version: self.version@,
            download: opt_spec_view(self.download),
        }
    }
}

/// The pre-release preference stored for a product (false for an unknown id).
pub open spec fn spec_allow(inst: Seq<(Seq<char>, InstalledProductView)>, id: Seq<char>) -> bool {
    match spec_get(inst, id) {
        Some(rec) => rec.use_prerelease,
        None => false,
    }
}

/// The version text recorded for a product, if one is installed.
pub open spec fn spec_stored_version(
    inst: Seq<(Seq<char>, InstalledProductView)>,
    id: Seq<char>,
) -> Option<Seq<char>> {
    match spec_get(inst, id) {
        Some(rec) => rec.version,
        None => None,
    }
}

/// The plan that installing `id` must follow, given the product found for
/// it and the (possibly absent) installed version.
pub open spec fn spec_install_plan_ok(
    p: ProductView,
    inst: Seq<(Seq<char>, InstalledProductView)>,
    id: Seq<char>,
    platform: Platform,
    plan: InstallPlanView,
) -> bool {
    let allow = spec_allow(inst, id);
    &&& plan.install_directory == p.install_directory
    &&& plan.version == spec_latest(p.versions, allow)
    &&& plan.download == spec_latest_data(p.versions, spec_latest(p.versions, allow), platform)
    &&& plan.removal_files == match spec_stored_version(inst, id) {
        Some(text) => spec_removal_files(
            p.removals,
            spec_version_of_text(text).unwrap(),
            platform,
        ),
        None => Seq::<Seq<char>>::empty(),
    }
}

/// Plan the installation (or upgrade) of a product: resolve it in the
/// manifest, resolve the target version and artifact for the stored
/// pre-release preference, and gather the removal paths whose rules match
/// the installed version on this platform.
///
/// Fails with `ProductNotFound` exactly when the manifest has no product
/// with this id, and with `InvalidStoredVersion` exactly when a version is
/// recorded that is not valid version text (the plan itself never fails
/// for lack of an artifact: `download` is absent then, and the caller
/// reports `NoArtifact` after running the removal pass).
pub fn plan_install(manifest: &Manifest, install: &Install, id: &str, platform: Platform) -> (r:
    Result<InstallPlan, InstallError>)
    ensures
        match r {
            Ok(plan) => exists|pi: int|
                0 <= pi < manifest@.products.len() && (#[trigger] manifest@.products[pi]).id == id@
                    && spec_install_plan_ok(
                    manifest@.products[pi],
                    install@,
                    id@,
                    platform,
                    plan@,
                ),
            Err(e) => match e {
                InstallError::ProductNotFound => forall|k: int|
                    0 <= k < manifest@.products.len() ==> (#[trigger] manifest@.products[k]).id
                        != id@,
                InstallError::InvalidStoredVersion => (exists|k: int|
                    0 <= k < manifest@.products.len() && (#[trigger] manifest@.products[k]).id
                        == id@) && (spec_stored_version(install@, id@) matches Some(text)
                    && spec_version_of_text(text) is None),
                InstallError::NoArtifact => false,
            },
        },
{
    let pi = match manifest.find_product(id) {
        Some(pi) => pi,
        None => {
            return Err(InstallError::ProductNotFound);
        },
    };
    let prod = &manifest.products[pi];
    proof {
        assert(manifest@.products[pi as int] == manifest.products@[pi as int]@);
    }
    let record = install.get(id);
    let allow_prerelease = match record {
        Some(rec) => rec.use_prerelease,
        None => false,
    };
    let current: Option<SemVer> = match record {
        Some(rec) => match &rec.version {
            Some(text) => match parse_version_exec(text.as_str()) {
                Some(v) => Some(v),
                None => {
                    return Err(InstallError::InvalidStoredVersion);
                },
            },
            None => None,
        },
        None => None,
    };
    let removal_files = match &current {
        Some(cur) => prod.removal_files(cur, platform),
        None => Vec::new(),
    };
    let version = prod.latest_version(allow_prerelease);
    let download = prod.latest_version_data(allow_prerelease, platform);
    let plan = InstallPlan {
        install_directory: prod.install_directory.clone(),
        removal_files,
        version,
        download,
    };
    proof {
        if spec_stored_version(install@, id@) is None {
            assert(plan@.removal_files =~= Seq::<Seq<char>>::empty());
        }
        assert(spec_install_plan_ok(manifest@.products[pi as int], install@, id@, platform, plan@));
    }
    Ok(plan)
}

// ---------------------------------------------------------------------------
// State-store updates
// ---------------------------------------------------------------------------

/// The record after a successful install: identity snapshot from the
/// manifest, the installed version, executable paths when the artifact
/// declares an entry point (otherwise whatever was recorded before), and
/// the pre-release preference untouched.
pub open spec fn spec_installed_update(
    old_rec: InstalledProductView,
    name: Seq<char>,
    description: Seq<char>,
    version_txt: Seq<char>,
    exec_paths: Option<(Seq<char>, Seq<char>)>,
) -> InstalledProductView {
    InstalledProductView {
        name: name,
        description: description,
        version: Some(version_txt),
        main_executable: match exec_paths {
            Some(p) => Some(p.0),
            None => old_rec.main_executable,
        },
        execute_working_directory: match exec_paths {
            Some(p) => Some(p.1),
            None => old_rec.execute_working_directory,
        },
        use_prerelease: old_rec.use_prerelease,
    }
}

/// The view of optional executable paths.
pub open spec fn opt_paths_view(o: Option<(String, String)>) -> Option<(Seq<char>, Seq<char>)> {
    match o {
        Some(p) => Some((p.0@, p.1@)),
        None => None,
    }
}

/// Record that `id` was installed: snapshot name and description, set the
/// version, and set the executable and working-directory paths when given
/// (`exec_paths` is the absolute executable path and working directory).
/// Every other record is untouched.
pub fn apply_install_success(
    install: &mut Install,
    id: String,
    name: &String,
    description: &String,
    version_txt: String,
    exec_paths: Option<(String, String)>,
)
    ensures
        match spec_find(old(install)@, id@) {
            Some(i) => final(install)@ == old(install)@.update(
                i,
                (
                    id@,
                    spec_installed_update(
                        old(install)@[i].1,
                        name@,
                        description@,
                        version_txt@,
                        opt_paths_view(exec_paths),
                    ),
                ),
            ),
            None => final(install)@ == old(install)@.push(
                (
                    id@,
                    spec_installed_update(
                        spec_default_record(),
                        name@,
                        description@,
                        version_txt@,
                        opt_paths_view(exec_paths),
                    ),
                ),
            ),
        },
        old(install).wf() ==> final(install).wf(),
{
    let rec = install.get_mut_product_or_default(id);
    rec.name = name.clone();
    rec.description = description.clone();
    rec.version = Some(version_txt);
    match exec_paths {
        Some(p) => {
            rec.main_executable = Some(p.0);
            rec.execute_working_directory = Some(p.1);
        },
        None => {},
    }
}

/// The record after removal: the version and executable paths cleared,
/// the identity fields and the pre-release preference kept.
pub open spec fn spec_removed_update(old_rec: InstalledProductView) -> InstalledProductView {
    InstalledProductView {
        name: old_rec.name,
        description: old_rec.description,
        version: None,
        main_executable: None,
        execute_working_directory: None,
        use_prerelease: old_rec.use_prerelease,
    }
}

/// Record that `id` was removed: clear the version and both executable
/// paths; the name, description and pre-release preference persist, and
/// every other record is untouched.
pub fn apply_remove(install: &mut Install, id: String)
    ensures
        match spec_find(old(install)@, id@) {
            Some(i) => final(install)@ == old(install)@.update(
                i,
                (id@, spec_removed_update(old(install)@[i].1)),
            ),
            None => final(install)@ == old(install)@.push(
                (id@, spec_removed_update(spec_default_record())),
            ),
        },
        old(install).wf() ==> final(install).wf(),
{
    let rec = install.get_mut_product_or_default(id);
    rec.version = None;
    rec.main_executable = None;
    rec.execute_working_directory = None;
}

/// The record after a preference change.
pub open spec fn spec_prerelease_update(
    old_rec: InstalledProductView,
    allow_prerelease: bool,
) -> InstalledProductView {
    InstalledProductView { use_prerelease: allow_prerelease, ..old_rec }
}

/// Store the pre-release preference for `id` (creating the record when
/// the id is unknown); nothing else changes.
pub fn set_prerelease(install: &mut Install, id: String, allow_prerelease: bool)
    ensures
        match spec_find(old(install)@, id@) {
            Some(i) => final(install)@ == old(install)@.update(
                i,
                (id@, spec_prerelease_update(old(install)@[i].1, allow_prerelease)),
            ),
            None => final(install)@ == old(install)@.push(
                (id@, spec_prerelease_update(spec_default_record(), allow_prerelease)),
            ),
        },
        old(install).wf() ==> final(install).wf(),
{
    let rec = install.get_mut_product_or_default(id);
    rec.use_prerelease = allow_prerelease;
}

// ---------------------------------------------------------------------------
// Removal planning and process start
// ---------------------------------------------------------------------------

/// The install directory (relative to the install root) that removing
/// `id` must delete; fails exactly when the manifest has no such product.
pub fn plan_remove(manifest: &Manifest, id: &str) -> (r: Result<String, InstallError>)
    ensures
        match r {
            Ok(dir) => exists|pi: int|
                0 <= pi < manifest@.products.len() && (#[trigger] manifest@.products[pi]).id == id@
                    && dir@ == manifest@.products[pi].install_directory,
            Err(e) => e is ProductNotFound && forall|k: int|
                0 <= k < manifest@.products.len() ==> (#[trigger] manifest@.products[k]).id != id@,
        },
{
    match manifest.find_product(id) {
        Some(pi) => {
            proof {
                assert(manifest@.products[pi as int] == manifest.products@[pi as int]@);
            }
            Ok(manifest.products[pi].install_directory.clone())
        },
        None => Err(InstallError::ProductNotFound),
    }
}

/// How to start an installed product: its recorded executable and working
/// directory.
pub struct StartCommand {
    /// The recorded executable path.
    pub executable: String,
    /// The recorded working directory, if any (the caller falls back to
    /// the install root).
    pub working_directory: Option<String>,
}

/// What starting `id` must do: nothing when the record has no executable,
/// spawn the recorded executable otherwise; fails exactly when the store
/// has no record of the product.
pub fn start_plan(install: &Install, id: &str) -> (r: Result<Option<StartCommand>, InstallError>)
    ensures
        match r {
            Ok(cmd) => spec_get(install@, id@) matches Some(rec) && (match cmd {
                Some(c) => rec.main_executable == Some(c.executable@) && rec.execute_working_directory
                    == opt_str_view(c.working_directory),
                None => rec.main_executable is None,
            }),
            Err(e) => e is ProductNotFound && spec_get(install@, id@) is None,
        },
{
    let rec = match install.get(id) {
        Some(rec) => rec,
        None => {
            return Err(InstallError::ProductNotFound);
        },
    };
    match &rec.main_executable {
        Some(exe) => Ok(
            Some(
                StartCommand {
                    executable: exe.clone(),
                    working_directory: strutil::copy_opt_string(&rec.execute_working_directory),
                },
            ),
        ),
        None => Ok(None),
    }
}

// ---------------------------------------------------------------------------
// Catalog summaries
// ---------------------------------------------------------------------------

/// One row of the catalog as shown to the user.
pub struct ManifestLoadResultProduct {
    /// The internal id of this product.
    pub id: String,
    /// The name of this product.
    pub name: String,
    /// An encoded icon, if the product has one.
    pub icon: Option<String>,
    /// The locally installed version, if installed.
    pub local_version: Option<String>,
    /// The latest remote version, excluding pre-releases.
    pub remote_version: String,
    /// The latest remote version, including pre-releases.
    pub remote_version_prerelease: String,
    /// The description of this product.
    pub description: String,
    /// Is an artifact available for this platform, including pre-releases?
    pub has_os_match_prerelease: bool,
    /// Is an artifact available for this platform, excluding pre-releases?
    pub has_os_match: bool,
    /// Can this installation be started?
    pub can_start: bool,
    /// Is the pre-release channel enabled for this product?
    pub allow_prerelease: bool,
}

pub ghost struct SummaryView {
    pub id: Seq<char>,
    pub name: Seq<char>,
    pub icon: Option<Seq<char>>,
    pub local_version: Option<Seq<char>>,
    pub remote_version: Seq<char>,
    pub remote_version_prerelease: Seq<char>,
    pub description: Seq<char>,
    pub has_os_match_prerelease: bool,
    pub has_os_match: bool,
    pub can_start: bool,
    pub allow_prerelease: bool,
}

impl View for ManifestLoadResultProduct {
    type V = SummaryView;

    open spec fn view(&self) -> SummaryView {
        SummaryView {
            id: self.id@,
            name: self.name@,
            icon: opt_str_view(self.icon),
            local_version: opt_str_view(self.local_version),
            remote_version: self.remote_version@,
            remote_version_prerelease: self.remote_version_prerelease@,
            description: self.description@,
            has_os_match_prerelease: self.has_os_match_prerelease,
            has_os_match: self.has_os_match,
            can_start: self.can_start,
            allow_prerelease: self.allow_prerelease,
        }
    }
}

impl DeepView for ManifestLoadResultProduct {
    type V = SummaryView;

    open spec fn deep_view(&self) -> SummaryView {
        self.view()
    }
}

/// The summary row of one product against its (possibly absent) record.
pub open spec fn spec_summary(
    p: ProductView,
    rec: Option<InstalledProductView>,
    platform: Platform,
) -> SummaryView {
    SummaryView {
        id: p.id,
        name: p.name,
        icon: p.icon,
        local_version: match rec {
            Some(r) => r.version,
            None => None,
        },
        remote_version: version_text(spec_latest(p.versions, false)),
        remote_version_prerelease: version_text(spec_latest(p.versions, true)),
        description: p.description,
        has_os_match: spec_latest_data(p.versions, spec_latest(p.versions, false), platform)
            is Some,
        has_os_match_prerelease: spec_latest_data(
            p.versions,
            spec_latest(p.versions, true),
            platform,
        ) is Some,
        can_start: match rec {
            Some(r) => r.main_executable is Some,
            None => false,
        },
        allow_prerelease: match rec {
            Some(r) => r.use_prerelease,
            None => false,
        },
    }
}

/// Build the summary row of one product.
pub fn product_summary(prod: &Product, record: Option<&InstalledProduct>, platform: Platform) -> (r:
    ManifestLoadResultProduct)
    ensures
        r@ == spec_summary(
            prod@,
            match record {
                Some(rec) => Some(rec@),
                None => None,
            },
            platform,
        ),
{
    let stable = prod.latest_version(false);
    let pre = prod.latest_version(true);
    let has_os_match = prod.latest_version_data(false, platform).is_some();
    let has_os_match_prerelease = prod.latest_version_data(true, platform).is_some();
    ManifestLoadResultProduct {
        id: prod.id.clone(),
        name: prod.name.clone(),
        icon: strutil::copy_opt_string(&prod.icon),
        local_version: match record {
            Some(rec) => strutil::copy_opt_string(&rec.version),
            None => None,
        },
        remote_version: strutil::chars_to_string(&stable.render()),
        remote_version_prerelease: strutil::chars_to_string(&pre.render()),
        description: prod.description.clone(),
        has_os_match_prerelease,
        has_os_match,
        can_start: match record {
            Some(rec) => rec.main_executable.is_some(),
            None => false,
        },
        allow_prerelease: match record {
            Some(rec) => rec.use_prerelease,
            None => false,
        },
    }
}

/// The summary rows for a fetched manifest, product by product, each
/// against the record stored for its id.
pub fn online_summaries(manifest: &Manifest, install: &Install, platform: Platform) -> (r: Vec<
    ManifestLoadResultProduct,
>)
    ensures
        r.deep_view() == Seq::new(
            manifest@.products.len(),
            |i: int|
                spec_summary(
                    manifest@.products[i],
                    spec_get(install@, manifest@.products[i].id),
                    platform,
                ),
        ),
{
    let ghost target = Seq::new(
        manifest@.products.len(),
        |i: int|
            spec_summary(
                manifest@.products[i],
                spec_get(install@, manifest@.products[i].id),
                platform,
            ),
    );
    let mut out: Vec<ManifestLoadResultProduct> = Vec::new();
    let mut i: usize = 0;
    while i < manifest.products.len()
        invariant
            target == Seq::new(
                manifest@.products.len(),
                |k: int|
                    spec_summary(
                        manifest@.products[k],
                        spec_get(install@, manifest@.products[k].id),
                        platform,
                    ),
            ),
            manifest@.products.len() == manifest.products@.len(),
            i <= manifest.products@.len(),
            out.deep_view() == target.take(i as int),
        decreases manifest.products@.len() - i,
    {
        proof {
            assert(manifest@.products[i as int] == manifest.products@[i as int]@);
        }
        let prod = &manifest.products[i];
        let record = install.get(prod.id.as_str());
        let row = product_summary(prod, record, platform);
        proof {
            assert(row@ == target[i as int]);
        }
        let ghost prev = out.deep_view();
        out.push(row);
        i = i + 1;
        proof {
            assert(out.deep_view() =~= prev.push(target[i - 1]));
            assert(prev.push(target[i - 1]) =~= target.take(i as int));
            assert(out.deep_view() == target.take(i as int));
        }
    }
    proof {
        assert(target.take(target.len() as int) =~= target);
    }
    out
}

/// The offline rows: one per installed record (a record with a version),
/// in store order, with the sentinel `0.0.0` as the remote version and
/// artifact availability taken from whether an executable is recorded.
pub open spec fn spec_offline_summary(id: Seq<char>, r: InstalledProductView) -> SummaryView {
    SummaryView {
        id: id,
        name: r.name,
        icon: None,
        local_version: r.version,
        remote_version: "0.0.0"@,
        remote_version_prerelease: "0.0.0"@,
        description: r.description,
        has_os_match_prerelease: r.main_executable is Some,
        has_os_match: r.main_executable is Some,
        can_start: r.main_executable is Some,
        allow_prerelease: r.use_prerelease,
    }
}

/// The offline summary rows of a store.
pub open spec fn spec_offline_summaries(
    inst: Seq<(Seq<char>, InstalledProductView)>,
) -> Seq<SummaryView>
    decreases inst.len(),
{
    if inst.len() == 0 {
        Seq::empty()
    } else {
        spec_offline_summaries(inst.drop_last()) + (if inst.last().1.version is Some {
            seq![spec_offline_summary(inst.last().0, inst.last().1)]
        } else {
            Seq::empty()
        })
    }
}

/// Build the catalog rows without a manifest, from the store alone.
pub fn offline_summaries(install: &Install) -> (r: Vec<ManifestLoadResultProduct>)
    ensures
        r.deep_view() == spec_offline_summaries(install@),
{
    let mut out: Vec<ManifestLoadResultProduct> = Vec::new();
    let mut i: usize = 0;
    let n = install.len();
    proof {
        assert(install@.take(0) =~= Seq::<(Seq<char>, InstalledProductView)>::empty());
        assert(out.deep_view() =~= spec_offline_summaries(install@.take(0)));
    }
    while i < n
        invariant
            n == install@.len(),
            i <= n,
            out.deep_view() == spec_offline_summaries(install@.take(i as int)),
        decreases n - i,
    {
        proof {
            assert(install@.take(i + 1).drop_last() =~= install@.take(i as int));
            assert(install@.take(i + 1).last() == install@[i as int]);
        }
        let rec = install.record_at(i);
        let installed = rec.version.is_some();
        if installed {
            let id = install.key_at(i);
            let row = ManifestLoadResultProduct {
                id: id.clone(),
                name: rec.name.clone(),
                icon: None,
                local_version: strutil::copy_opt_string(&rec.version),
                remote_version: sentinel_version_text(),
                remote_version_prerelease: sentinel_version_text(),
                description: rec.description.clone(),
                has_os_match_prerelease: rec.main_executable.is_some(),
                has_os_match: rec.main_executable.is_some(),
                can_start: rec.main_executable.is_some(),
                allow_prerelease: rec.use_prerelease,
            };
            out.push(row);
            proof {
                assert(out.deep_view() =~= spec_offline_summaries(install@.take(i + 1)));
            }
        } else {
            proof {
                assert(out.deep_view() =~= spec_offline_summaries(install@.take(i + 1)));
            }
        }
        i = i + 1;
    }
    proof {
        assert(install@.take(n as int) =~= install@);
    }
    out
}

/// The text of the sentinel version.
pub fn sentinel_version_text() -> (r: String)
    ensures
        r@ == "0.0.0"@,
{
    let z = SemVer::zero();
    let text = strutil::chars_to_string(&z.render());
    proof {
        reveal_strlit("0.0.0");
        assert(text@ =~= "0.0.0"@);
    }
    text
}

// ---------------------------------------------------------------------------
// Display state of one product
// ---------------------------------------------------------------------------

/// The state a product presents: installed and up to date, installed with
/// an update available, or not installed.
pub enum ProductState {
    InstalledLatest,
    InstalledUpdate,
    NotInstalled,
}

/// The display state, decided from the local and the selected remote
/// version text: an installed product is up to date when the versions
/// agree, or when it has a real version while the remote shows only the
/// sentinel (nothing available); otherwise an update is on offer.
pub open spec fn spec_product_state(
    local_version: Option<Seq<char>>,
    remote_version: Seq<char>,
) -> ProductState {
    match local_version {
        Some(local) => {
            if local == remote_version || (local != "0.0.0"@ && remote_version == "0.0.0"@) {
                ProductState::InstalledLatest
            } else {
                ProductState::InstalledUpdate
            }
        },
        None => ProductState::NotInstalled,
    }
}

/// Classify a product's display state.
pub fn product_state(local_version: &Option<String>, remote_version: &str) -> (r: ProductState)
    ensures
        r == spec_product_state(crate::manifest::opt_str_view_ref(local_version), remote_version@),
{
    match local_version {
        Some(local) => {
            let sentinel = sentinel_version_text();
            if strutil::str_eq(local.as_str(), remote_version) || (!strutil::str_eq(
                local.as_str(),
                sentinel.as_str(),
            ) && strutil::str_eq(remote_version, sentinel.as_str())) {
                ProductState::InstalledLatest
            } else {
                ProductState::InstalledUpdate
            }
        },
        None => ProductState::NotInstalled,
    }
}

} // verus!
