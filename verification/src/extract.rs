//! The archive-normalization core: deciding how an archive's entries map
//! onto the install directory.
//!
//! Packaging tools often wrap an archive's real content in one incidental
//! top-level directory (`myapp-v1.2.3/bin/...`). Extraction strips such a
//! wrapper: if the first entry is a directory and every entry's path has it
//! as a (textual) prefix, that directory is the confirmed wrapper; every
//! entry is then extracted at its path with the wrapper prefix removed, and
//! the entry that is exactly the wrapper is skipped. Archives with several
//! top-level roots are extracted verbatim.
//!
//! Reading archive bytes and writing files is I/O and happens outside this
//! crate; callers list the entries (in archive order), take the plan
//! computed here, and unpack each entry at its planned relative path. A
//! plan is refused when a planned path could escape the target directory
//! (an absolute path or a `..` component).

use vstd::prelude::*;

use crate::strutil;
use crate::strutil::is_prefix;
use vstd::string::StrSliceExecFns;

verus! {

/// One archive entry: its path as stored in the archive, and whether it
/// is a directory entry.
pub struct ArchiveEntry {
    pub path: String,
    pub is_dir: bool,
}

pub ghost struct ArchiveEntryView {
    pub path: Seq<char>,
    pub is_dir: bool,
}

impl View for ArchiveEntry {
    type V = ArchiveEntryView;

    open spec fn view(&self) -> ArchiveEntryView {
        ArchiveEntryView { path: self.path@, is_dir: self.is_dir }
    }
}

impl DeepView for ArchiveEntry {
    type V = ArchiveEntryView;

    open spec fn deep_view(&self) -> ArchiveEntryView {
        self.view()
    }
}

/// The confirmed wrapper directory of an entry list: the first entry's
/// path, when that entry is a directory and every entry's path extends it.
pub open spec fn spec_detect_wrapper(entries: Seq<ArchiveEntryView>) -> Option<Seq<char>> {
    if entries.len() > 0 && entries[0].is_dir && (forall|i: int|
        0 <= i < entries.len() ==> is_prefix(entries[0].path, (#[trigger] entries[i]).path)) {
        Some(entries[0].path)
    } else {
        None
    }
}

/// Where one entry is extracted, relative to the target directory:
/// verbatim without a wrapper; with a wrapper, at its path with the
/// wrapper prefix removed, and not at all for the wrapper entry itself or
/// an entry outside the wrapper.
pub open spec fn spec_planned(e: ArchiveEntryView, wrapper: Option<Seq<char>>) -> Option<
    ArchiveEntryView,
> {
    match wrapper {
        None => Some(e),
        Some(w) => {
            if e.path == w {
                None
            } else if is_prefix(w, e.path) {
                Some(ArchiveEntryView { path: e.path.skip(w.len() as int), is_dir: e.is_dir })
            } else {
                None
            }
        },
    }
}

/// The extraction plan: the planned entries, in archive order.
pub open spec fn spec_plan(
    entries: Seq<ArchiveEntryView>,
    wrapper: Option<Seq<char>>,
) -> Seq<ArchiveEntryView>
    decreases entries.len(),
{
    if entries.len() == 0 {
        Seq::empty()
    } else {
        spec_plan(entries.drop_last(), wrapper) + (match spec_planned(entries.last(), wrapper) {
            Some(e) => seq![e],
            None => Seq::empty(),
        })
    }
}

/// A `..` path component starts at position `i`.
pub open spec fn dotdot_at(p: Seq<char>, i: int) -> bool {
    &&& 0 <= i
    &&& i + 2 <= p.len()
    &&& (i == 0 || p[i - 1] == '/')
    &&& p[i] == '.'
    &&& p[i + 1] == '.'
    &&& (i + 2 == p.len() || p[i + 2] == '/')
}

/// A relative path that cannot escape the directory it is resolved
/// against: not absolute and without `..` components.
pub open spec fn is_safe_rel_path(p: Seq<char>) -> bool {
    &&& (p.len() > 0 ==> p[0] != '/')
    &&& !(exists|i: int| dotdot_at(p, i))
}

/// Check that a planned path is safe.
pub fn is_safe_rel(p: &str) -> (r: bool)
    ensures
        r == is_safe_rel_path(p@),
{
    let n = p.unicode_len();
    if n > 0 && p.get_char(0) == '/' {
        return false;
    }
    let mut i: usize = 0;
    while i < n
        invariant
            n == p@.len(),
            i <= n,
            forall|k: int| 0 <= k < i ==> !dotdot_at(p@, k),
            p@.len() > 0 ==> p@[0] != '/',
        decreases n - i,
    {
        if n >= 2 && i <= n - 2 && (i == 0 || p.get_char(i - 1) == '/') && p.get_char(i) == '.'
            && p.get_char(i + 1) == '.' && (i == n - 2 || p.get_char(i + 2) == '/') {
            assert(dotdot_at(p@, i as int));
            return false;
        }
        i = i + 1;
    }
    assert forall|k: int| !dotdot_at(p@, k) by {
        if k + 2 <= p@.len() {
            assert(0 <= k < n ==> !dotdot_at(p@, k));
        }
    }
    true
}

/// Errors of extraction planning.
#[derive(Debug)]
pub enum ExtractError {
    /// A planned output path was absolute or held a `..` component, so
    /// writing it could escape the target directory.
    UnsafePath,
}

/// Scan the entry list for a wrapper directory: the first entry, when it
/// is a directory whose path prefixes every other entry's path.
pub fn detect_wrapper(entries: &Vec<ArchiveEntry>) -> (r: Option<String>)
    ensures
        crate::manifest::opt_str_view(r) == spec_detect_wrapper(entries.deep_view()),
{
    let ghost dv = entries.deep_view();
    if entries.len() == 0 {
        return None;
    }
    proof {
        assert(dv[0] == entries@[0].deep_view());
    }
    if !entries[0].is_dir {
        return None;
    }
    proof {
        assert(dv[0].path.take(dv[0].path.len() as int) =~= dv[0].path);
    }
    let mut i: usize = 1;
    while i < entries.len()
        invariant
            dv == entries.deep_view(),
            dv.len() == entries@.len(),
            1 <= i <= dv.len(),
            dv.len() > 0 && dv[0].is_dir,
            forall|k: int| 0 <= k < i ==> is_prefix(dv[0].path, (#[trigger] dv[k]).path),
        decreases dv.len() - i,
    {
        proof {
            assert(dv[i as int] == entries@[i as int].deep_view());
        }
        if !strutil::str_is_prefix(entries[0].path.as_str(), entries[i].path.as_str()) {
            return None;
        }
        i = i + 1;
    }
    Some(entries[0].path.clone())
}

/// The planned relative output path of one entry, given the confirmed
/// wrapper: the entry's path, stripped of the wrapper when one exists,
/// or nothing when the entry is skipped.
pub fn planned_path(entry: &ArchiveEntry, wrapper: &Option<String>) -> (r: Option<ArchiveEntry>)
    ensures
        match r {
            Some(e) => spec_planned(entry@, crate::manifest::opt_str_view_ref(wrapper)) == Some(e@),
            None => spec_planned(entry@, crate::manifest::opt_str_view_ref(wrapper)) is None,
        },
{
    match wrapper {
        None => Some(
            ArchiveEntry { path: entry.path.clone(), is_dir: entry.is_dir },
        ),
        Some(w) => {
            if strutil::str_eq(entry.path.as_str(), w.as_str()) {
                None
            } else if strutil::str_is_prefix(w.as_str(), entry.path.as_str()) {
                let wn = w.as_str().unicode_len();
                let pn = entry.path.as_str().unicode_len();
                let stripped = entry.path.as_str().substring_char(wn, pn).to_owned();
                Some(ArchiveEntry { path: stripped, is_dir: entry.is_dir })
            } else {
                None
            }
        },
    }
}

/// Compute the whole extraction plan for an entry list: detect the
/// wrapper, strip it, and refuse the archive when a planned path could
/// escape the target directory.
pub fn extraction_plan(entries: &Vec<ArchiveEntry>) -> (r: Result<Vec<ArchiveEntry>, ExtractError>)
    ensures
        ({
            let plan = spec_plan(entries.deep_view(), spec_detect_wrapper(entries.deep_view()));
            match r {
                Ok(out) => out.deep_view() == plan && forall|j: int|
                    0 <= j < plan.len() ==> is_safe_rel_path((#[trigger] plan[j]).path),
                Err(_) => exists|j: int|
                    0 <= j < plan.len() && !is_safe_rel_path((#[trigger] plan[j]).path),
            }
        }),
{
    let ghost dv = entries.deep_view();
    let wrapper = detect_wrapper(entries);
    let ghost w = crate::manifest::opt_str_view(wrapper);
    let mut out: Vec<ArchiveEntry> = Vec::new();
    let mut i: usize = 0;
    proof {
        assert(dv.take(0) =~= Seq::<ArchiveEntryView>::empty());
        assert(out.deep_view() =~= spec_plan(dv.take(0), w));
    }
    while i < entries.len()
        invariant
            dv == entries.deep_view(),
            dv.len() == entries@.len(),
            i <= dv.len(),
            w == crate::manifest::opt_str_view_ref(&wrapper),
            w == spec_detect_wrapper(dv),
            out.deep_view() == spec_plan(dv.take(i as int), w),
            forall|j: int|
                0 <= j < out.deep_view().len() ==> is_safe_rel_path(
                    (#[trigger] out.deep_view()[j]).path,
                ),
        decreases dv.len() - i,
    {
        proof {
            assert(dv[i as int] == entries@[i as int].deep_view());
            assert(dv.take(i + 1).drop_last() =~= dv.take(i as int));
            assert(dv.take(i + 1).last() == dv[i as int]);
        }
        let entry = &entries[i];
        match planned_path(entry, &wrapper) {
            Some(e) => {
                if !is_safe_rel(e.path.as_str()) {
                    proof {
                        let prior = spec_plan(dv.take(i as int), w);
                        assert(spec_plan(dv.take(i + 1), w) == prior + seq![e@]);
                        let j0 = prior.len() as int;
                        assert(spec_plan(dv.take(i + 1), w)[j0] == e@);
                        lemma_plan_prefix_extends(dv, w, i + 1);
                        assert(spec_plan(dv, w)[j0] == e@);
                        assert(!is_safe_rel_path(spec_plan(dv, w)[j0].path));
                    }
                    return Err(ExtractError::UnsafePath);
                }
                let ghost prev = out.deep_view();
                out.push(e);
                proof {
                    assert(out.deep_view() =~= prev.push(out@.last().deep_view()));
                    assert(out.deep_view() =~= spec_plan(dv.take(i + 1), w));
                }
            },
            None => {
                proof {
                    assert(out.deep_view() =~= spec_plan(dv.take(i + 1), w));
                }
            },
        }
        i = i + 1;
    }
    proof {
        assert(dv.take(dv.len() as int) =~= dv);
    }
    Ok(out)
}

/// Every planned entry of a prefix of the entry list stands, at the same
/// position, in the whole list's plan.
proof fn lemma_plan_prefix_extends(entries: Seq<ArchiveEntryView>, w: Option<Seq<char>>, i: int)
    requires
        0 <= i <= entries.len(),
    ensures
        forall|j: int|
            0 <= j < spec_plan(entries.take(i), w).len() ==> #[trigger] spec_plan(
                entries.take(i),
                w,
            )[j] == spec_plan(entries, w)[j],
        spec_plan(entries.take(i), w).len() <= spec_plan(entries, w).len(),
    decreases entries.len() - i,
{
    if i < entries.len() {
        assert(entries.take(i + 1).drop_last() =~= entries.take(i));
        assert(entries.take(i + 1).last() == entries[i]);
        lemma_plan_prefix_extends(entries, w, i + 1);
        assert forall|j: int|
            0 <= j < spec_plan(entries.take(i), w).len() implies #[trigger] spec_plan(
            entries.take(i),
            w,
        )[j] == spec_plan(entries, w)[j] by {
            assert(spec_plan(entries.take(i + 1), w)[j] == spec_plan(entries.take(i), w)[j]);
            assert(spec_plan(entries.take(i + 1), w)[j] == spec_plan(entries, w)[j]);
        }
    } else {
        assert(entries.take(i) =~= entries);
    }
}

// ---------------------------------------------------------------------------
// Laws
// ---------------------------------------------------------------------------

/// The plan of entries wrapped in a single root directory: the root is
/// confirmed as the wrapper, and every other entry is planned at its path
/// with the root prefix removed — never under the root.
pub proof fn lemma_single_root_strips(entries: Seq<ArchiveEntryView>, root: Seq<char>)
    requires
        entries.len() > 0,
        entries[0].is_dir,
        entries[0].path == root,
        forall|i: int| 0 <= i < entries.len() ==> is_prefix(root, (#[trigger] entries[i]).path),
    ensures
        spec_detect_wrapper(entries) == Some(root),
        spec_plan(entries, Some(root)) == spec_strip_all(entries, root),
{
    lemma_plan_is_strip_all(entries, root);
}

/// Each entry other than the root itself, at its path with the root
/// prefix removed.
pub open spec fn spec_strip_all(
    entries: Seq<ArchiveEntryView>,
    root: Seq<char>,
) -> Seq<ArchiveEntryView>
    decreases entries.len(),
{
    if entries.len() == 0 {
        Seq::empty()
    } else {
        spec_strip_all(entries.drop_last(), root) + (if entries.last().path == root {
            Seq::empty()
        } else {
            seq![
                ArchiveEntryView {
                    path: entries.last().path.skip(root.len() as int),
                    is_dir: entries.last().is_dir,
                },
            ]
        })
    }
}

proof fn lemma_plan_is_strip_all(entries: Seq<ArchiveEntryView>, root: Seq<char>)
    requires
        forall|i: int| 0 <= i < entries.len() ==> is_prefix(root, (#[trigger] entries[i]).path),
    ensures
        spec_plan(entries, Some(root)) == spec_strip_all(entries, root),
    decreases entries.len(),
{
    if entries.len() > 0 {
        assert forall|i: int|
            0 <= i < entries.drop_last().len() implies is_prefix(
            root,
            (#[trigger] entries.drop_last()[i]).path,
        ) by {
            assert(entries.drop_last()[i] == entries[i]);
        }
        lemma_plan_is_strip_all(entries.drop_last(), root);
        assert(entries[entries.len() - 1] == entries.last());
    }
}

/// The plan of a multi-root archive: when the first entry is not a
/// directory, or some entry does not extend the first entry's path, no
/// wrapper is confirmed and every entry is planned verbatim.
pub proof fn lemma_multi_root_verbatim(entries: Seq<ArchiveEntryView>)
    requires
        !(entries.len() > 0 && entries[0].is_dir && (forall|i: int|
            0 <= i < entries.len() ==> is_prefix(entries[0].path, (#[trigger] entries[i]).path))),
    ensures
        spec_detect_wrapper(entries) is None,
        spec_plan(entries, None) == entries,
{
    lemma_plan_verbatim(entries);
}

proof fn lemma_plan_verbatim(entries: Seq<ArchiveEntryView>)
    ensures
        spec_plan(entries, None) == entries,
    decreases entries.len(),
{
    if entries.len() == 0 {
        assert(spec_plan(entries, None) =~= entries);
    } else {
        lemma_plan_verbatim(entries.drop_last());
        assert(spec_plan(entries, None) =~= entries);
    }
}

} // verus!
