//! The catalog data model and the version/platform resolution algorithm.
//!
//! A manifest lists products; each product has versions, per-platform
//! downloads, and version-range-gated removal rules that are applied when
//! upgrading. `latest_version` resolves the newest version a product offers
//! on a channel (with or without pre-releases), `latest_version_data`
//! selects the download for the running platform, and `removal_files`
//! collects the cleanup paths whose rules match the installed version.

use vstd::prelude::*;

use crate::Platform;
use crate::strutil;
use crate::version::{
    SemVer, SemVerView, cmp_version, lemma_cmp_version_antisym, lemma_cmp_version_trans,
    cmp_pre, cmp_idents, cmp_ident, ident_end, rest_after, lemma_ident_end_bounds,
};

verus! {

/// The remote manifest: the catalog of installable products.
pub struct Manifest {
    /// The newest version of the installer itself.
    pub latest_installer_version: SemVer,
    /// Available products.
    pub products: Vec<Product>,
}

/// An installable product.
pub struct Product {
    /// A unique, unchanging internal id for this product.
    pub id: String,
    /// The name of the product.
    pub name: String,
    /// The description of the product.
    pub description: String,
    /// An encoded icon, if the product has one.
    pub icon: Option<String>,
    /// The directory (relative to the install root) this product installs
    /// to; also the directory removed on uninstall, so unique per product.
    pub install_directory: String,
    /// Files and directories to remove when upgrading from particular versions.
    pub removals: Vec<Removals>,
    /// The available versions.
    pub versions: Vec<ProductVersion>,
}

/// Files to remove when upgrading from versions in a given range.
pub struct Removals {
    /// The version-range predicate gating this rule, e.g. `<2.0.0`.
    pub on_upgrade_from: String,
    /// Platform tags the rule is restricted to; absent means all platforms.
    pub on: Option<Vec<String>>,
    /// Paths (relative to the install directory) to delete.
    pub files: Vec<String>,
}

/// One available version of a product.
pub struct ProductVersion {
    pub version: SemVer,
    pub downloads: ProductDownloads,
}

/// The per-platform download slots of a version.
pub struct ProductDownloads {
    pub windows: Option<DownloadSpec>,
    pub mac: Option<DownloadSpec>,
    pub mac_intel: Option<DownloadSpec>,
    pub linux: Option<DownloadSpec>,
}

/// Where to fetch an artifact and how to install it.
pub struct DownloadSpec {
    /// The URL to download the data from.
    pub url: String,
    /// The install strategy.
    pub strategy: DownloadStrategy,
    /// The path (relative to the install directory) of the executable that
    /// starts the product, if it can be started.
    pub executable: Option<String>,
    /// An absolute path to that executable, if recorded.
    pub executable_absolute: Option<String>,
}

/// How a downloaded artifact becomes installed files.
pub enum DownloadStrategy {
    /// A single file, stored unprocessed in the install directory.
    File {
        /// The name to save the file as.
        name: String,
        /// Grant execute permission after the copy (on platforms that have one)?
        chmod: bool,
    },
    /// A platform installer package, dispatched to the system installer.
    Msi { product_code: String },
    /// A zip archive, extracted into the install directory with an
    /// incidental wrapping directory stripped.
    ZipFile,
    /// A gzip-compressed tarball, treated like `ZipFile`.
    GzippedTarball,
}

// ---------------------------------------------------------------------------
// Views
// ---------------------------------------------------------------------------

pub ghost enum StrategyView {
    File { name: Seq<char>, chmod: bool },
    Msi { product_code: Seq<char> },
    ZipFile,
    GzippedTarball,
}

pub ghost struct DownloadSpecView {
    pub url: Seq<char>,
    pub strategy: StrategyView,
    pub executable: Option<Seq<char>>,
    pub executable_absolute: Option<Seq<char>>,
}

pub ghost struct ProductDownloadsView {
    pub windows: Option<DownloadSpecView>,
    pub mac: Option<DownloadSpecView>,
    pub mac_intel: Option<DownloadSpecView>,
    pub linux: Option<DownloadSpecView>,
}

pub ghost struct ProductVersionView {
    pub version: SemVerView,
    pub downloads: ProductDownloadsView,
}

pub ghost struct RemovalView {
    pub on_upgrade_from: Seq<char>,
    pub on: Option<Seq<Seq<char>>>,
    pub files: Seq<Seq<char>>,
}

pub ghost struct ProductView {
    pub id: Seq<char>,
    pub name: Seq<char>,
    pub description: Seq<char>,
    pub icon: Option<Seq<char>>,
    pub install_directory: Seq<char>,
    pub removals: Seq<RemovalView>,
    pub versions: Seq<ProductVersionView>,
}

pub ghost struct ManifestView {
    pub latest_installer_version: SemVerView,
    pub products: Seq<ProductView>,
}

/// The view of an optional string.
pub open spec fn opt_str_view(o: Option<String>) -> Option<Seq<char>> {
    match o {
        Some(s) => Some(s@),
        None => None,
    }
}

/// The view of an optional string behind a reference.
pub open spec fn opt_str_view_ref(o: &Option<String>) -> Option<Seq<char>> {
    match o {
        Some(s) => Some(s@),
        None => None,
    }
}

impl View for DownloadStrategy {
    type V = StrategyView;

    open spec fn view(&self) -> StrategyView {
        match self {
            DownloadStrategy::File { name, chmod } => StrategyView::File {
                name: name@,
                chmod: *chmod,
            },
            DownloadStrategy::Msi { product_code } => StrategyView::Msi {
                product_code: product_code@,
            },
            DownloadStrategy::ZipFile => StrategyView::ZipFile,
            DownloadStrategy::GzippedTarball => StrategyView::GzippedTarball,
        }
    }
}

impl View for DownloadSpec {
    type V = DownloadSpecView;

    open spec fn view(&self) -> DownloadSpecView {
        DownloadSpecView {
            url: self.url@,
            strategy: self.strategy@,
            executable: opt_str_view(self.executable),
            executable_absolute: opt_str_view(self.executable_absolute),
        }
    }
}

/// The view of an optional download slot.
pub open spec fn opt_spec_view(o: Option<DownloadSpec>) -> Option<DownloadSpecView> {
    match o {
        Some(d) => Some(d@),
        None => None,
    }
}

impl View for ProductDownloads {
    type V = ProductDownloadsView;

    open spec fn view(&self) -> ProductDownloadsView {
        ProductDownloadsView {
            windows: opt_spec_view(self.windows),
            mac: opt_spec_view(self.mac),
            mac_intel: opt_spec_view(self.mac_intel),
            linux: opt_spec_view(self.linux),
        }
    }
}

impl View for ProductVersion {
    type V = ProductVersionView;

    open spec fn view(&self) -> ProductVersionView {
        ProductVersionView { version: self.version@, downloads: self.downloads@ }
    }
}

impl View for Removals {
    type V = RemovalView;

    open spec fn view(&self) -> RemovalView {
        RemovalView {
            on_upgrade_from: self.on_upgrade_from@,
            on: match self.on {
                Some(ref tags) => Some(tags.deep_view()),
                None => None,
            },
            files: self.files.deep_view(),
        }
    }
}

impl View for Product {
    type V = ProductView;

    open spec fn view(&self) -> ProductView {
        ProductView {
            id: self.id@,
            name: self.name@,
            description: self.description@,
            icon: opt_str_view(self.icon),
            install_directory: self.install_directory@,
            removals: self.removals@.map_values(|r: Removals| r@),
            versions: self.versions@.map_values(|v: ProductVersion| v@),
        }
    }
}

impl View for Manifest {
    type V = ManifestView;

    open spec fn view(&self) -> ManifestView {
        ManifestView {
            latest_installer_version: self.latest_installer_version@,
            products: self.products@.map_values(|p: Product| p@),
        }
    }
}

// ---------------------------------------------------------------------------
// Copies
// ---------------------------------------------------------------------------

impl DownloadStrategy {
    /// An identical copy.
    pub fn duplicate(&self) -> (r: DownloadStrategy)
        ensures
            r@ == self@,
    {
        match self {
            DownloadStrategy::File { name, chmod } => DownloadStrategy::File {
                name: name.clone(),
                chmod: *chmod,
            },
            DownloadStrategy::Msi { product_code } => DownloadStrategy::Msi {
                product_code: product_code.clone(),
            },
            DownloadStrategy::ZipFile => DownloadStrategy::ZipFile,
            DownloadStrategy::GzippedTarball => DownloadStrategy::GzippedTarball,
        }
    }
}

impl DownloadSpec {
    /// An identical copy.
    pub fn duplicate(&self) -> (r: DownloadSpec)
        ensures
            r@ == self@,
    {
        DownloadSpec {
            url: self.url.clone(),
            strategy: self.strategy.duplicate(),
            executable: strutil::copy_opt_string(&self.executable),
            executable_absolute: strutil::copy_opt_string(&self.executable_absolute),
        }
    }
}

// ---------------------------------------------------------------------------
// Version resolution
// ---------------------------------------------------------------------------

/// The sentinel `0.0.0`.
pub open spec fn zero_version() -> SemVerView {
    SemVerView { major: 0, minor: 0, patch: 0, pre: Seq::empty() }
}

/// Is this version on the channel: every version when pre-releases are
/// allowed, only releases otherwise?
pub open spec fn on_channel(v: SemVerView, allow_prerelease: bool) -> bool {
    allow_prerelease || v.pre.len() == 0
}

/// The resolved latest version: the precedence maximum of the sentinel
/// `0.0.0` and every version on the channel.
pub open spec fn spec_latest(versions: Seq<ProductVersionView>, allow_prerelease: bool) -> SemVerView
    decreases versions.len(),
{
    if versions.len() == 0 {
        zero_version()
    } else {
        let prev = spec_latest(versions.drop_last(), allow_prerelease);
        let lastv = versions.last().version;
        if on_channel(lastv, allow_prerelease) && cmp_version(prev, lastv) < 0 {
            lastv
        } else {
            prev
        }
    }
}

/// Comparing equal ranks the same against everything.
proof fn lemma_cmp_idents_zero_congruence(a: Seq<char>, b: Seq<char>, c: Seq<char>)
    requires
        cmp_idents(a, b) == 0,
    ensures
        cmp_idents(a, c) == cmp_idents(b, c),
    decreases a.len(),
{
    if a.len() == 0 && b.len() == 0 {
    } else if a.len() > 0 && b.len() > 0 {
        let ea = ident_end(a);
        let eb = ident_end(b);
        lemma_ident_end_bounds(a);
        lemma_ident_end_bounds(b);
        crate::version::lemma_cmp_ident_zero(a.take(ea), b.take(eb));
        if c.len() > 0 {
            let ec = ident_end(c);
            lemma_ident_end_bounds(c);
            if cmp_ident(a.take(ea), c.take(ec)) == 0 {
                lemma_cmp_idents_zero_congruence(rest_after(a, ea), rest_after(b, eb), rest_after(c, ec));
            }
        }
    }
}

proof fn lemma_cmp_version_zero_congruence(a: SemVerView, b: SemVerView, c: SemVerView)
    requires
        cmp_version(a, b) == 0,
    ensures
        cmp_version(a, c) == cmp_version(b, c),
{
    if a.major == b.major && a.minor == b.minor && a.patch == b.patch {
        if a.pre.len() > 0 && b.pre.len() > 0 && c.pre.len() > 0 {
            lemma_cmp_idents_zero_congruence(a.pre, b.pre, c.pre);
        }
    }
}

/// What `spec_latest` returns: the sentinel or a channel version, ranking
/// at least as high as every channel version, and a release when
/// pre-releases are not allowed.
pub proof fn lemma_latest_properties(versions: Seq<ProductVersionView>, allow_prerelease: bool)
    ensures
        forall|i: int|
            0 <= i < versions.len() && on_channel(#[trigger] versions[i].version, allow_prerelease)
                ==> cmp_version(versions[i].version, spec_latest(versions, allow_prerelease)) <= 0,
        spec_latest(versions, allow_prerelease) == zero_version() || exists|i: int|
            0 <= i < versions.len() && on_channel(#[trigger] versions[i].version, allow_prerelease)
                && versions[i].version == spec_latest(versions, allow_prerelease),
        !allow_prerelease ==> spec_latest(versions, allow_prerelease).pre.len() == 0,
    decreases versions.len(),
{
    if versions.len() > 0 {
        let prefix = versions.drop_last();
        lemma_latest_properties(prefix, allow_prerelease);
        let prev = spec_latest(prefix, allow_prerelease);
        let lastv = versions.last().version;
        let res = spec_latest(versions, allow_prerelease);
        assert forall|i: int|
            0 <= i < versions.len() && on_channel(#[trigger] versions[i].version, allow_prerelease)
                implies cmp_version(versions[i].version, res) <= 0 by {
            if i < versions.len() - 1 {
                assert(prefix[i] == versions[i]);
                let vi = versions[i].version;
                if res != prev {
                    // the last version took over: prev < lastv == res
                    if cmp_version(vi, prev) < 0 {
                        lemma_cmp_version_trans(vi, prev, lastv);
                    } else {
                        lemma_cmp_version_zero_congruence(vi, prev, lastv);
                    }
                }
            } else {
                // i is the last index
                if res == prev {
                    if on_channel(lastv, allow_prerelease) {
                        lemma_cmp_version_antisym(lastv, prev);
                    }
                } else {
                    // res == lastv; comparison is reflexively zero
                    lemma_cmp_version_antisym(lastv, lastv);
                }
            }
        }
        if res == prev && !(prev == zero_version()) {
            let i = choose|i: int|
                0 <= i < prefix.len() && on_channel(#[trigger] prefix[i].version, allow_prerelease)
                    && prefix[i].version == prev;
            assert(versions[i] == prefix[i]);
        }
    }
}

impl Product {
    /// The latest version of this product on the chosen channel, or the
    /// sentinel `0.0.0` when the channel offers nothing newer.
    pub fn latest_version(&self, allow_prerelease: bool) -> (r: SemVer)
        ensures
            r@ == spec_latest(self@.versions, allow_prerelease),
            self@.versions.len() == 0 ==> r@.is_zero(),
            !allow_prerelease ==> r@.pre.len() == 0,
            forall|i: int|
                0 <= i < self@.versions.len() && on_channel(
                    #[trigger] self@.versions[i].version,
                    allow_prerelease,
                ) ==> cmp_version(self@.versions[i].version, r@) <= 0,
            r@.is_zero() || exists|i: int|
                0 <= i < self@.versions.len() && on_channel(
                    #[trigger] self@.versions[i].version,
                    allow_prerelease,
                ) && self@.versions[i].version == r@,
    {
        let ghost vs = self@.versions;
        let mut latest = SemVer::zero();
        let mut i: usize = 0;
        proof {
            assert(vs.take(0) =~= Seq::<ProductVersionView>::empty());
            assert(latest@ == zero_version());
        }
        while i < self.versions.len()
            invariant
                vs == self@.versions,
                vs.len() == self.versions@.len(),
                i <= vs.len(),
                latest@ == spec_latest(vs.take(i as int), allow_prerelease),
            decreases vs.len() - i,
        {
            let v = &self.versions[i];
            proof {
                assert(vs[i as int] == self.versions@[i as int]@);
                assert(vs.take(i + 1).drop_last() =~= vs.take(i as int));
                assert(vs.take(i + 1).last() == vs[i as int]);
            }
            if (allow_prerelease || v.version.pre.len() == 0) && latest.precedence_lt(&v.version) {
                latest = v.version.duplicate();
            }
            i = i + 1;
        }
        proof {
            assert(vs.take(vs.len() as int) =~= vs);
            lemma_latest_properties(vs, allow_prerelease);
            if spec_latest(vs, allow_prerelease) == zero_version() {
                assert(latest@.is_zero());
            }
        }
        latest
    }
}

/// The download slot of the given platform.
pub open spec fn slot_of(d: ProductDownloadsView, platform: Platform) -> Option<DownloadSpecView> {
    match platform {
        Platform::Windows => d.windows,
        Platform::MacArm => d.mac,
        Platform::MacIntel => d.mac_intel,
        Platform::Linux => d.linux,
    }
}

/// The platform slot of the first version equal to `target`, if any.
pub open spec fn spec_latest_data(
    versions: Seq<ProductVersionView>,
    target: SemVerView,
    platform: Platform,
) -> Option<DownloadSpecView>
    decreases versions.len(),
{
    if versions.len() == 0 {
        None
    } else if versions.first().version == target {
        slot_of(versions.first().downloads, platform)
    } else {
        spec_latest_data(versions.drop_first(), target, platform)
    }
}

impl ProductDownloads {
    /// A copy of the slot for the given platform.
    pub fn slot(&self, platform: Platform) -> (r: Option<DownloadSpec>)
        ensures
            opt_spec_view(r) == slot_of(self@, platform),
    {
        let s = match platform {
            Platform::Windows => &self.windows,
            Platform::MacArm => &self.mac,
            Platform::MacIntel => &self.mac_intel,
            Platform::Linux => &self.linux,
        };
        match s {
            Some(d) => Some(d.duplicate()),
            None => None,
        }
    }
}

impl Product {
    /// The download for the resolved latest version on the given platform:
    /// the platform slot of the first version list entry equal to
    /// `latest_version(allow_prerelease)`, absent when that version has no
    /// artifact for this platform (or no version list entry matches).
    pub fn latest_version_data(&self, allow_prerelease: bool, platform: Platform) -> (r: Option<
        DownloadSpec,
    >)
        ensures
            opt_spec_view(r) == spec_latest_data(
                self@.versions,
                spec_latest(self@.versions, allow_prerelease),
                platform,
            ),
    {
        let ghost vs = self@.versions;
        let latest = self.latest_version(allow_prerelease);
        let ghost target = latest@;
        let mut i: usize = 0;
        proof {
            assert(vs.skip(0) =~= vs);
        }
        while i < self.versions.len()
            invariant
                vs == self@.versions,
                vs.len() == self.versions@.len(),
                i <= vs.len(),
                target == latest@,
                target == spec_latest(vs, allow_prerelease),
                spec_latest_data(vs, target, platform) == spec_latest_data(
                    vs.skip(i as int),
                    target,
                    platform,
                ),
            decreases vs.len() - i,
        {
            let v = &self.versions[i];
            proof {
                assert(vs.skip(i as int).first() == vs[i as int]);
                assert(vs[i as int] == self.versions@[i as int]@);
                assert(vs.skip(i as int).drop_first() =~= vs.skip(i + 1));
            }
            if v.version.same_version(&latest) {
                proof {
                    assert(vs.skip(i as int).first().version == target);
                    assert(spec_latest_data(vs.skip(i as int), target, platform) == slot_of(
                        vs[i as int].downloads,
                        platform,
                    ));
                }
                return v.downloads.slot(platform);
            }
            i = i + 1;
        }
        proof {
            assert(vs.skip(vs.len() as int).len() == 0);
        }
        None
    }
}

// ---------------------------------------------------------------------------
// Removal rules
// ---------------------------------------------------------------------------

/// What `semver`'s requirement matching decides: whether the version
/// `major.minor.patch-pre` satisfies the range written in `req`, or
/// nothing when `req` (or `pre`) does not parse.
pub uninterp spec fn spec_req_matches(
    req: Seq<char>,
    major: u64,
    minor: u64,
    patch: u64,
    pre: Seq<char>,
) -> Option<bool>;

/// Relies on `semver::VersionReq::parse` and `semver::VersionReq::matches`
/// (and `semver::Prerelease::new` to build the version): evaluates whether
/// the version satisfies the range; the answer depends only on the texts
/// and numbers passed in.
#[verifier::external_body]
fn req_matches_exec(req: &str, major: u64, minor: u64, patch: u64, pre: &str) -> (r: Option<bool>)
    ensures
        r == spec_req_matches(req@, major, minor, patch, pre@),
{
    let parsed = match semver::VersionReq::parse(req) {
        Ok(q) => q,
        Err(_) => {
            return None;
        },
    };
    let pre_id = match semver::Prerelease::new(pre) {
        Ok(p) => p,
        Err(_) => {
            return None;
        },
    };
    let mut version = semver::Version::new(major, minor, patch);
    version.pre = pre_id;
    Some(parsed.matches(&version))
}

/// Does the tag list contain `tag`?
pub open spec fn tags_contain(tags: Seq<Seq<char>>, tag: Seq<char>) -> bool {
    exists|k: int| 0 <= k < tags.len() && tags[k] == tag
}

/// Does this removal rule apply when upgrading from `cur` on `platform`?
/// It does exactly when the range matches the installed version and the
/// rule's platform list (if present) names the platform.
pub open spec fn removal_applies(r: RemovalView, cur: SemVerView, platform: Platform) -> bool {
    &&& spec_req_matches(r.on_upgrade_from, cur.major, cur.minor, cur.patch, cur.pre) == Some(true)
    &&& match r.on {
        None => true,
        Some(tags) => tags_contain(tags, platform.spec_tag()),
    }
}

/// The files of every applicable removal rule, in rule order.
pub open spec fn spec_removal_files(
    removals: Seq<RemovalView>,
    cur: SemVerView,
    platform: Platform,
) -> Seq<Seq<char>>
    decreases removals.len(),
{
    if removals.len() == 0 {
        Seq::empty()
    } else {
        spec_removal_files(removals.drop_last(), cur, platform) + (if removal_applies(
            removals.last(),
            cur,
            platform,
        ) {
            removals.last().files
        } else {
            Seq::empty()
        })
    }
}

fn tags_contain_exec(tags: &Vec<String>, tag: &str) -> (r: bool)
    ensures
        r == tags_contain(tags.deep_view(), tag@),
{
    let mut k: usize = 0;
    while k < tags.len()
        invariant
            k <= tags@.len(),
            forall|j: int| 0 <= j < k ==> tags.deep_view()[j] != tag@,
        decreases tags@.len() - k,
    {
        if strutil::str_eq(tags[k].as_str(), tag) {
            assert(tags.deep_view()[k as int] == tag@);
            return true;
        }
        k = k + 1;
    }
    false
}

impl Removals {
    /// Does this rule apply when upgrading from `cur` on `platform`?
    pub fn applies(&self, cur: &SemVer, platform: Platform) -> (r: bool)
        ensures
            r == removal_applies(self@, cur@, platform),
    {
        let pre_text = strutil::chars_to_string(&cur.pre);
        let matched = match req_matches_exec(
            self.on_upgrade_from.as_str(),
            cur.major,
            cur.minor,
            cur.patch,
            pre_text.as_str(),
        ) {
            Some(true) => true,
            _ => false,
        };
        if !matched {
            return false;
        }
        match &self.on {
            None => true,
            Some(tags) => tags_contain_exec(tags, platform.tag()),
        }
    }
}

impl Product {
    /// The paths every applicable removal rule lists, to be deleted
    /// (best-effort) before re-extraction when upgrading from `cur`.
    pub fn removal_files(&self, cur: &SemVer, platform: Platform) -> (r: Vec<String>)
        ensures
            r.deep_view() == spec_removal_files(self@.removals, cur@, platform),
    {
        let ghost rs = self@.removals;
        let mut out: Vec<String> = Vec::new();
        let mut i: usize = 0;
        proof {
            assert(rs.take(0) =~= Seq::<RemovalView>::empty());
            assert(out.deep_view() =~= spec_removal_files(rs.take(0), cur@, platform));
        }
        while i < self.removals.len()
            invariant
                rs == self@.removals,
                rs.len() == self.removals@.len(),
                i <= rs.len(),
                out.deep_view() == spec_removal_files(rs.take(i as int), cur@, platform),
            decreases rs.len() - i,
        {
            proof {
                assert(rs[i as int] == self.removals@[i as int]@);
                assert(rs.take(i + 1).drop_last() =~= rs.take(i as int));
                assert(rs.take(i + 1).last() == rs[i as int]);
            }
            let rule = &self.removals[i];
            if rule.applies(cur, platform) {
                let mut k: usize = 0;
                let ghost files = rs[i as int].files;
                while k < rule.files.len()
                    invariant
                        files == rule@.files,
                        files.len() == rule.files@.len(),
                        k <= files.len(),
                        out.deep_view() == spec_removal_files(rs.take(i as int), cur@, platform)
                            + files.take(k as int),
                        rs == self@.removals,
                        i < rs.len(),
                        rs[i as int] == rule@,
                    decreases files.len() - k,
                {
                    let ghost old_out = out.deep_view();
                    out.push(rule.files[k].clone());
                    k = k + 1;
                    proof {
                        assert(files.take(k as int).drop_last() =~= files.take(k - 1));
                        assert(out@.last()@ == files[k - 1]);
                        assert(out.deep_view() =~= old_out.push(files[k - 1]));
                        assert(out.deep_view() =~= spec_removal_files(rs.take(i as int), cur@, platform)
                            + files.take(k as int));
                    }
                }
                proof {
                    assert(files.take(files.len() as int) =~= files);
                }
            } else {
                proof {
                    assert(out.deep_view() =~= spec_removal_files(rs.take(i as int), cur@, platform)
                        + Seq::<Seq<char>>::empty());
                }
            }
            i = i + 1;
        }
        proof {
            assert(rs.take(rs.len() as int) =~= rs);
        }
        out
    }
}

// ---------------------------------------------------------------------------
// Lookup
// ---------------------------------------------------------------------------

impl Manifest {
    /// The index of the first product with the given id.
    pub fn find_product(&self, id: &str) -> (r: Option<usize>)
        ensures
            match r {
                Some(i) => i < self@.products.len() && self@.products[i as int].id == id@
                    && forall|k: int| 0 <= k < i ==> self@.products[k].id != id@,
                None => forall|k: int| 0 <= k < self@.products.len() ==> self@.products[k].id != id@,
            },
    {
        let mut i: usize = 0;
        while i < self.products.len()
            invariant
                i <= self.products@.len(),
                self@.products.len() == self.products@.len(),
                forall|k: int| 0 <= k < i ==> self@.products[k].id != id@,
            decreases self.products@.len() - i,
        {
            proof {
                assert(self@.products[i as int] == self.products@[i as int]@);
            }
            if strutil::str_eq(self.products[i].id.as_str(), id) {
                return Some(i);
            }
            i = i + 1;
        }
        None
    }
}

} // verus!
