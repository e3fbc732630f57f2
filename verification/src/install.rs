//! The persisted install state: one record per product id.
//!
//! Records are created with defaults the first time an operation references
//! an unknown product id, mutated by install (which sets the version and
//! executable paths) and by remove (which clears them), and never deleted.
//! All mutation goes through [`Install::get_mut_product_or_default`].

use vstd::prelude::*;

use crate::strutil;

verus! {

/// The persisted record of one product.
pub struct InstalledProduct {
    /// The product name.
    pub name: String,
    /// The product description.
    pub description: String,
    /// The installed version, if the product is installed.
    pub version: Option<String>,
    /// The working directory to start the product in, if it can be started.
    pub execute_working_directory: Option<String>,
    /// The executable that starts the product, if it can be started.
    pub main_executable: Option<String>,
    /// Should this product use pre-release versions?
    pub use_prerelease: bool,
}

pub ghost struct InstalledProductView {
    pub name: Seq<char>,
    pub description: Seq<char>,
    pub version: Option<Seq<char>>,
    pub execute_working_directory: Option<Seq<char>>,
    pub main_executable: Option<Seq<char>>,
    pub use_prerelease: bool,
}

impl View for InstalledProduct {
    type V = InstalledProductView;

    open spec fn view(&self) -> InstalledProductView {
        InstalledProductView {
            name: self.name@,
            description: self.description@,
            version: crate::manifest::opt_str_view(self.version),
            execute_working_directory: crate::manifest::opt_str_view(
                self.execute_working_directory,
            ),
            main_executable: crate::manifest::opt_str_view(self.main_executable),
            use_prerelease: self.use_prerelease,
        }
    }
}

/// The record a fresh product id starts with.
pub open spec fn spec_default_record() -> InstalledProductView {
    InstalledProductView {
        name: Seq::empty(),
        description: Seq::empty(),
        version: None,
        execute_working_directory: None,
        main_executable: None,
        use_prerelease: false,
    }
}

impl InstalledProduct {
    /// A record with every field at its default.
    pub fn new_default() -> (r: InstalledProduct)
        ensures
            r@ == spec_default_record(),
    {
        let r = InstalledProduct {
            name: String::new(),
            description: String::new(),
            version: None,
            execute_working_directory: None,
            main_executable: None,
            use_prerelease: false,
        };
        r
    }

    /// An identical copy.
    pub fn duplicate(&self) -> (r: InstalledProduct)
        ensures
            r@ == self@,
    {
        InstalledProduct {
            name: self.name.clone(),
            description: self.description.clone(),
            version: strutil::copy_opt_string(&self.version),
            execute_working_directory: strutil::copy_opt_string(&self.execute_working_directory),
            main_executable: strutil::copy_opt_string(&self.main_executable),
            use_prerelease: self.use_prerelease,
        }
    }
}

/// The persisted root: product id -> record. Keys are unique; iteration
/// order carries no meaning.
pub struct Install {
    products: Vec<(String, InstalledProduct)>,
}

/// The view of an entry list.
spec fn view_of(v: Seq<(String, InstalledProduct)>) -> Seq<(Seq<char>, InstalledProductView)> {
    v.map_values(|p: (String, InstalledProduct)| (p.0@, p.1@))
}

impl View for Install {
    type V = Seq<(Seq<char>, InstalledProductView)>;

    closed spec fn view(&self) -> Seq<(Seq<char>, InstalledProductView)> {
        view_of(self.products@)
    }
}

proof fn lemma_view_update(
    v: Seq<(String, InstalledProduct)>,
    i: int,
    x: (String, InstalledProduct),
)
    requires
        0 <= i < v.len(),
    ensures
        view_of(v.update(i, x)) == view_of(v).update(i, (x.0@, x.1@)),
{
    assert(view_of(v.update(i, x)) =~= view_of(v).update(i, (x.0@, x.1@)));
}

proof fn lemma_view_push(v: Seq<(String, InstalledProduct)>, x: (String, InstalledProduct))
    ensures
        view_of(v.push(x)) == view_of(v).push((x.0@, x.1@)),
{
    assert(view_of(v.push(x)) =~= view_of(v).push((x.0@, x.1@)));
}

/// The index of the first entry with the given id.
pub open spec fn spec_find(
    s: Seq<(Seq<char>, InstalledProductView)>,
    id: Seq<char>,
) -> Option<int>
    decreases s.len(),
{
    if s.len() == 0 {
        None
    } else if s.first().0 == id {
        Some(0)
    } else {
        match spec_find(s.drop_first(), id) {
            Some(i) => Some(i + 1),
            None => None,
        }
    }
}

/// The record stored under the given id.
pub open spec fn spec_get(
    s: Seq<(Seq<char>, InstalledProductView)>,
    id: Seq<char>,
) -> Option<InstalledProductView> {
    match spec_find(s, id) {
        Some(i) => Some(s[i].1),
        None => None,
    }
}

/// `spec_find` is determined by a scan: if no entry before `i` matches and
/// entry `i` matches (or `i` is the length), the find is `i` (or nothing).
pub proof fn lemma_spec_find_scan(
    s: Seq<(Seq<char>, InstalledProductView)>,
    id: Seq<char>,
    i: int,
)
    requires
        0 <= i <= s.len(),
        forall|k: int| 0 <= k < i ==> (#[trigger] s[k]).0 != id,
        i < s.len() ==> s[i].0 == id,
    ensures
        spec_find(s, id) == if i < s.len() {
            Some(i)
        } else {
            Option::<int>::None
        },
    decreases s.len(),
{
    if s.len() > 0 {
        if s.first().0 == id {
            assert(i == 0);
        } else {
            let t = s.drop_first();
            assert forall|k: int| 0 <= k < i - 1 implies (#[trigger] t[k]).0 != id by {
                assert(t[k] == s[k + 1]);
            }
            if i - 1 < t.len() {
                assert(t[i - 1] == s[i]);
            }
            lemma_spec_find_scan(t, id, i - 1);
        }
    }
}


/// What a successful find points at: an in-range entry with the id.
pub proof fn lemma_spec_find_some(s: Seq<(Seq<char>, InstalledProductView)>, id: Seq<char>)
    ensures
        spec_find(s, id) matches Some(i) ==> 0 <= i < s.len() && s[i].0 == id,
    decreases s.len(),
{
    if s.len() > 0 && s.first().0 != id {
        lemma_spec_find_some(s.drop_first(), id);
    }
}

impl Install {
    /// Keys are unique.
    pub open spec fn wf(&self) -> bool {
        forall|i: int, j: int|
            0 <= i < j < self@.len() ==> (#[trigger] self@[i]).0 != (#[trigger] self@[j]).0
    }

    /// An empty store.
    pub fn new() -> (r: Install)
        ensures
            r@ == Seq::<(Seq<char>, InstalledProductView)>::empty(),
            r.wf(),
    {
        let r = Install { products: Vec::new() };
        proof {
            assert(r@ =~= Seq::<(Seq<char>, InstalledProductView)>::empty());
        }
        r
    }

    /// The number of records.
    pub fn len(&self) -> (n: usize)
        ensures
            n == self@.len(),
    {
        self.products.len()
    }

    /// The id of the record at an index.
    pub fn key_at(&self, i: usize) -> (r: &String)
        requires
            i < self@.len(),
        ensures
            r@ == self@[i as int].0,
    {
        &self.products[i].0
    }

    /// The record at an index.
    pub fn record_at(&self, i: usize) -> (r: &InstalledProduct)
        requires
            i < self@.len(),
        ensures
            r@ == self@[i as int].1,
    {
        &self.products[i].1
    }

    /// The record stored under an id, if any.
    pub fn get(&self, id: &str) -> (r: Option<&InstalledProduct>)
        ensures
            match r {
                Some(p) => spec_get(self@, id@) == Some(p@),
                None => spec_get(self@, id@) is None,
            },
    {
        let mut i: usize = 0;
        while i < self.products.len()
            invariant
                i <= self.products@.len(),
                self@.len() == self.products@.len(),
                forall|k: int| 0 <= k < i ==> (#[trigger] self@[k]).0 != id@,
            decreases self.products@.len() - i,
        {
            proof {
                assert(self@[i as int].0 == self.products@[i as int].0@);
            }
            if strutil::str_eq(self.products[i].0.as_str(), id) {
                proof {
                    lemma_spec_find_scan(self@, id@, i as int);
                }
                return Some(&self.products[i].1);
            }
            i = i + 1;
        }
        proof {
            lemma_spec_find_scan(self@, id@, self@.len() as int);
        }
        None
    }

    /// The record for an id, inserting a default record first when the id
    /// is unknown. This is the only way records are created or mutated.
    pub fn get_mut_product_or_default(&mut self, id: String) -> (r: &mut InstalledProduct)
        ensures
            match spec_find(old(self)@, id@) {
                Some(i) => {
                    &&& (*r)@ == old(self)@[i].1
                    &&& final(self)@ == old(self)@.update(i, (id@, (*final(r))@))
                },
                None => {
                    &&& (*r)@ == spec_default_record()
                    &&& final(self)@ == old(self)@.push((id@, (*final(r))@))
                },
            },
            old(self).wf() ==> final(self).wf(),
    {
        let ghost s0 = self@;
        let mut i: usize = 0;
        let n = self.products.len();
        while i < n
            invariant
                s0 == self@,
                s0 == old(self)@,
                old(self).wf() == self.wf(),
                n == self.products@.len(),
                self@.len() == self.products@.len(),
                i <= n,
                forall|k: int| 0 <= k < i ==> (#[trigger] self@[k]).0 != id@,
            decreases n - i,
        {
            proof {
                assert(self@[i as int].0 == self.products@[i as int].0@);
            }
            if strutil::str_eq(self.products[i].0.as_str(), id.as_str()) {
                proof {
                    lemma_spec_find_scan(s0, id@, i as int);
                    assert forall|x: (String, InstalledProduct)|
                        view_of(#[trigger] self.products@.update(i as int, x)) == view_of(
                            self.products@,
                        ).update(i as int, (x.0@, x.1@)) by {
                        lemma_view_update(self.products@, i as int, x);
                    }
                }
                return &mut self.products[i].1;
            }
            i = i + 1;
        }
        proof {
            lemma_spec_find_scan(s0, id@, s0.len() as int);
        }
        let entry_val = (id, InstalledProduct::new_default());
        let ghost ev = entry_val;
        let ghost p0 = self.products@;
        self.products.push(entry_val);
        let idx = self.products.len() - 1;
        proof {
            lemma_view_push(p0, ev);
            assert forall|x: (String, InstalledProduct)|
                view_of(#[trigger] self.products@.update(idx as int, x)) == view_of(
                    self.products@,
                ).update(idx as int, (x.0@, x.1@)) by {
                lemma_view_update(self.products@, idx as int, x);
            }
            assert forall|q: (Seq<char>, InstalledProductView)|
                #[trigger] self@.update(idx as int, q) == s0.push(q) by {
                assert(self@.update(idx as int, q) =~= s0.push(q));
            }
        }
        &mut self.products[idx].1
    }
}

} // verus!
