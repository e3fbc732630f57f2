//! Semantic versions and their precedence order.
//!
//! A version is `major.minor.patch` with an optional pre-release component
//! (the text after `-`, e.g. `beta.1`). Precedence follows the semantic
//! versioning rules: compare major, then minor, then patch; a release
//! (empty pre-release) ranks above every pre-release of the same triple;
//! pre-releases are compared identifier by identifier (dot-separated),
//! numerically for numeric identifiers, lexically otherwise, with numeric
//! identifiers ranking below alphanumeric ones and a shorter identifier
//! list ranking below a longer one that it is a prefix of.
//!
//! Numeric identifiers are compared here by length and then lexically,
//! which coincides with numeric value for canonical identifiers (no
//! leading zeros, as the semver grammar guarantees). Build metadata is
//! not modelled: it never affects precedence.

use vstd::prelude::*;

verus! {

/// A semantic version. `pre` holds the pre-release text (empty for a
/// release), e.g. the characters of `beta.1` in `1.2.0-beta.1`.
pub struct SemVer {
    pub major: u64,
    pub minor: u64,
    pub patch: u64,
    pub pre: Vec<char>,
}

pub ghost struct SemVerView {
    pub major: u64,
    pub minor: u64,
    pub patch: u64,
    pub pre: Seq<char>,
}

impl View for SemVer {
    type V = SemVerView;

    open spec fn view(&self) -> SemVerView {
        SemVerView { major: self.major, minor: self.minor, patch: self.patch, pre: self.pre@ }
    }
}

impl SemVerView {
    /// The sentinel `0.0.0`, used to mean "no version available".
    pub open spec fn is_zero(self) -> bool {
        self.major == 0 && self.minor == 0 && self.patch == 0 && self.pre.len() == 0
    }
}

impl SemVer {
    /// The sentinel version `0.0.0`.
    pub fn zero() -> (r: SemVer)
        ensures
            r@.is_zero(),
            r@ == (SemVerView { major: 0, minor: 0, patch: 0, pre: Seq::<char>::empty() }),
    {
        let r = SemVer { major: 0, minor: 0, patch: 0, pre: Vec::new() };
        proof {
            assert(r@.pre =~= Seq::<char>::empty());
        }
        r
    }

    pub fn new(major: u64, minor: u64, patch: u64, pre: Vec<char>) -> (r: SemVer)
        ensures
            r@ == (SemVerView { major, minor, patch, pre: pre@ }),
    {
        SemVer { major, minor, patch, pre }
    }

    /// An identical copy.
    pub fn duplicate(&self) -> (r: SemVer)
        ensures
            r@ == self@,
    {
        SemVer {
            major: self.major,
            minor: self.minor,
            patch: self.patch,
            pre: crate::strutil::copy_chars(&self.pre),
        }
    }
}

pub open spec fn is_digit(c: char) -> bool {
    48 <= c as u32 && c as u32 <= 57
}

/// A numeric identifier: nonempty, digits only.
pub open spec fn is_numeric_ident(x: Seq<char>) -> bool {
    x.len() > 0 && forall|i: int| 0 <= i < x.len() ==> is_digit(x[i])
}

/// Lexical three-way comparison of character sequences by scalar value.
pub open spec fn cmp_lex(a: Seq<char>, b: Seq<char>) -> int
    decreases a.len(),
{
    if a.len() == 0 && b.len() == 0 {
        0
    } else if a.len() == 0 {
        -1
    } else if b.len() == 0 {
        1
    } else if (a[0] as u32) < (b[0] as u32) {
        -1
    } else if (b[0] as u32) < (a[0] as u32) {
        1
    } else {
        cmp_lex(a.drop_first(), b.drop_first())
    }
}

/// Comparison of numeric identifiers: by length, then lexically.
/// For identifiers without leading zeros this is the numeric order.
pub open spec fn cmp_numeric(a: Seq<char>, b: Seq<char>) -> int {
    if a.len() < b.len() {
        -1
    } else if b.len() < a.len() {
        1
    } else {
        cmp_lex(a, b)
    }
}

/// Comparison of single pre-release identifiers.
pub open spec fn cmp_ident(a: Seq<char>, b: Seq<char>) -> int {
    if is_numeric_ident(a) && is_numeric_ident(b) {
        cmp_numeric(a, b)
    } else if is_numeric_ident(a) {
        -1
    } else if is_numeric_ident(b) {
        1
    } else {
        cmp_lex(a, b)
    }
}

/// Length of the first dot-separated identifier of `s`.
pub open spec fn ident_end(s: Seq<char>) -> int
    decreases s.len(),
{
    if s.len() == 0 {
        0
    } else if s[0] == '.' {
        0
    } else {
        1 + ident_end(s.drop_first())
    }
}

/// What remains of `s` after its first identifier (and the dot, if any).
pub open spec fn rest_after(s: Seq<char>, e: int) -> Seq<char> {
    if e < s.len() {
        s.skip(e + 1)
    } else {
        Seq::empty()
    }
}

/// Comparison of nonempty pre-release texts, identifier by identifier.
pub open spec fn cmp_idents(a: Seq<char>, b: Seq<char>) -> int
    decreases a.len(),
    via cmp_idents_dec
{
    if a.len() == 0 && b.len() == 0 {
        0
    } else if a.len() == 0 {
        -1
    } else if b.len() == 0 {
        1
    } else {
        let ea = ident_end(a);
        let eb = ident_end(b);
        let c = cmp_ident(a.take(ea), b.take(eb));
        if c != 0 {
            c
        } else {
            cmp_idents(rest_after(a, ea), rest_after(b, eb))
        }
    }
}

#[via_fn]
proof fn cmp_idents_dec(a: Seq<char>, b: Seq<char>) {
    lemma_ident_end_bounds(a);
}

/// Comparison of pre-release components, where the empty component
/// (a release) ranks above every nonempty one.
pub open spec fn cmp_pre(a: Seq<char>, b: Seq<char>) -> int {
    if a.len() == 0 && b.len() == 0 {
        0
    } else if a.len() == 0 {
        1
    } else if b.len() == 0 {
        -1
    } else {
        cmp_idents(a, b)
    }
}

/// Three-way precedence comparison of versions.
pub open spec fn cmp_version(a: SemVerView, b: SemVerView) -> int {
    if a.major != b.major {
        if a.major < b.major {
            -1
        } else {
            1
        }
    } else if a.minor != b.minor {
        if a.minor < b.minor {
            -1
        } else {
            1
        }
    } else if a.patch != b.patch {
        if a.patch < b.patch {
            -1
        } else {
            1
        }
    } else {
        cmp_pre(a.pre, b.pre)
    }
}

pub open spec fn version_lt(a: SemVerView, b: SemVerView) -> bool {
    cmp_version(a, b) < 0
}

// ---------------------------------------------------------------------------
// Order lemmas
// ---------------------------------------------------------------------------

pub proof fn lemma_ident_end_bounds(s: Seq<char>)
    ensures
        0 <= ident_end(s) <= s.len(),
        forall|k: int| 0 <= k < ident_end(s) ==> s[k] != '.',
        ident_end(s) < s.len() ==> s[ident_end(s)] == '.',
    decreases s.len(),
{
    if s.len() == 0 {
    } else if s[0] == '.' {
    } else {
        lemma_ident_end_bounds(s.drop_first());
        assert forall|k: int| 0 <= k < ident_end(s) implies s[k] != '.' by {
            if k > 0 {
                assert(s.drop_first()[k - 1] == s[k]);
            }
        }
    }
}

/// `ident_end` is determined by the position of the first dot.
pub proof fn lemma_ident_end_unique(s: Seq<char>, m: int)
    requires
        0 <= m <= s.len(),
        forall|k: int| 0 <= k < m ==> s[k] != '.',
        m < s.len() ==> s[m] == '.',
    ensures
        ident_end(s) == m,
    decreases s.len(),
{
    if s.len() == 0 {
    } else if s[0] == '.' {
        assert(m == 0);
    } else {
        assert(m >= 1);
        let t = s.drop_first();
        assert forall|k: int| 0 <= k < m - 1 implies t[k] != '.' by {
            assert(t[k] == s[k + 1]);
        }
        lemma_ident_end_unique(t, m - 1);
    }
}

/// Characters with the same scalar value are the same character.
proof fn lemma_char_eq_from_u32(x: char, y: char)
    requires
        x as u32 == y as u32,
    ensures
        x == y,
{
    vstd::utf8::char_u32_cast(x, x as u32);
    vstd::utf8::char_u32_cast(y, y as u32);
}

proof fn lemma_cmp_lex_antisym(a: Seq<char>, b: Seq<char>)
    ensures
        cmp_lex(a, b) == -cmp_lex(b, a),
    decreases a.len() + b.len(),
{
    if a.len() > 0 && b.len() > 0 && (a[0] as u32) == (b[0] as u32) {
        lemma_cmp_lex_antisym(a.drop_first(), b.drop_first());
    }
}

proof fn lemma_cmp_lex_zero(a: Seq<char>, b: Seq<char>)
    requires
        cmp_lex(a, b) == 0,
    ensures
        a == b,
    decreases a.len(),
{
    if a.len() == 0 && b.len() == 0 {
        assert(a =~= b);
    } else if a.len() > 0 && b.len() > 0 {
        lemma_char_eq_from_u32(a[0], b[0]);
        lemma_cmp_lex_zero(a.drop_first(), b.drop_first());
        assert forall|i: int| 0 <= i < a.len() implies a[i] == b[i] by {
            if i > 0 {
                assert(a[i] == a.drop_first()[i - 1]);
                assert(b[i] == b.drop_first()[i - 1]);
            }
        }
        assert(a =~= b);
    }
}

proof fn lemma_cmp_lex_trans(a: Seq<char>, b: Seq<char>, c: Seq<char>)
    requires
        cmp_lex(a, b) < 0,
        cmp_lex(b, c) < 0,
    ensures
        cmp_lex(a, c) < 0,
    decreases a.len() + b.len() + c.len(),
{
    if a.len() == 0 {
    } else if b.len() > 0 && c.len() > 0 {
        if (a[0] as u32) == (b[0] as u32) && (b[0] as u32) == (c[0] as u32) {
            lemma_cmp_lex_trans(a.drop_first(), b.drop_first(), c.drop_first());
        }
    }
}

proof fn lemma_cmp_numeric_antisym(a: Seq<char>, b: Seq<char>)
    ensures
        cmp_numeric(a, b) == -cmp_numeric(b, a),
{
    lemma_cmp_lex_antisym(a, b);
}

proof fn lemma_cmp_numeric_zero(a: Seq<char>, b: Seq<char>)
    requires
        cmp_numeric(a, b) == 0,
    ensures
        a == b,
{
    lemma_cmp_lex_zero(a, b);
}

proof fn lemma_cmp_numeric_trans(a: Seq<char>, b: Seq<char>, c: Seq<char>)
    requires
        cmp_numeric(a, b) < 0,
        cmp_numeric(b, c) < 0,
    ensures
        cmp_numeric(a, c) < 0,
{
    if a.len() == b.len() && b.len() == c.len() {
        lemma_cmp_lex_trans(a, b, c);
    }
}

proof fn lemma_cmp_ident_antisym(a: Seq<char>, b: Seq<char>)
    ensures
        cmp_ident(a, b) == -cmp_ident(b, a),
{
    lemma_cmp_numeric_antisym(a, b);
    lemma_cmp_lex_antisym(a, b);
}

/// Identifiers that compare equal are the same text.
pub proof fn lemma_cmp_ident_zero(a: Seq<char>, b: Seq<char>)
    requires
        cmp_ident(a, b) == 0,
    ensures
        a == b,
{
    if is_numeric_ident(a) && is_numeric_ident(b) {
        lemma_cmp_numeric_zero(a, b);
    } else {
        lemma_cmp_lex_zero(a, b);
    }
}

proof fn lemma_cmp_ident_trans(a: Seq<char>, b: Seq<char>, c: Seq<char>)
    requires
        cmp_ident(a, b) < 0,
        cmp_ident(b, c) < 0,
    ensures
        cmp_ident(a, c) < 0,
{
    if is_numeric_ident(a) && is_numeric_ident(b) && is_numeric_ident(c) {
        lemma_cmp_numeric_trans(a, b, c);
    } else if !is_numeric_ident(a) && !is_numeric_ident(b) && !is_numeric_ident(c) {
        lemma_cmp_lex_trans(a, b, c);
    }
}

proof fn lemma_cmp_idents_antisym(a: Seq<char>, b: Seq<char>)
    ensures
        cmp_idents(a, b) == -cmp_idents(b, a),
    decreases a.len() + b.len(),
{
    if a.len() > 0 && b.len() > 0 {
        let ea = ident_end(a);
        let eb = ident_end(b);
        lemma_ident_end_bounds(a);
        lemma_ident_end_bounds(b);
        lemma_cmp_ident_antisym(a.take(ea), b.take(eb));
        if cmp_ident(a.take(ea), b.take(eb)) == 0 {
            lemma_cmp_idents_antisym(rest_after(a, ea), rest_after(b, eb));
        }
    }
}

proof fn lemma_cmp_idents_trans(a: Seq<char>, b: Seq<char>, c: Seq<char>)
    requires
        cmp_idents(a, b) < 0,
        cmp_idents(b, c) < 0,
    ensures
        cmp_idents(a, c) < 0,
    decreases a.len() + b.len() + c.len(),
{
    if a.len() == 0 {
        // b nonempty (else cmp(a,b) == 0), so c nonempty (else cmp(b,c) == 1)
    } else {
        // a nonempty: cmp(a,b) < 0 forces b nonempty; cmp(b,c) < 0 forces c nonempty
        let ea = ident_end(a);
        let eb = ident_end(b);
        let ec = ident_end(c);
        lemma_ident_end_bounds(a);
        lemma_ident_end_bounds(b);
        lemma_ident_end_bounds(c);
        let ta = a.take(ea);
        let tb = b.take(eb);
        let tc = c.take(ec);
        let cab = cmp_ident(ta, tb);
        let cbc = cmp_ident(tb, tc);
        if cab < 0 && cbc < 0 {
            lemma_cmp_ident_trans(ta, tb, tc);
        } else if cab < 0 && cbc == 0 {
            lemma_cmp_ident_zero(tb, tc);
        } else if cab == 0 && cbc < 0 {
            lemma_cmp_ident_zero(ta, tb);
        } else {
            // both first identifiers equal
            lemma_cmp_ident_zero(ta, tb);
            lemma_cmp_ident_zero(tb, tc);
            lemma_cmp_idents_trans(rest_after(a, ea), rest_after(b, eb), rest_after(c, ec));
        }
    }
}

proof fn lemma_cmp_pre_antisym(a: Seq<char>, b: Seq<char>)
    ensures
        cmp_pre(a, b) == -cmp_pre(b, a),
{
    lemma_cmp_idents_antisym(a, b);
}

proof fn lemma_cmp_pre_trans(a: Seq<char>, b: Seq<char>, c: Seq<char>)
    requires
        cmp_pre(a, b) < 0,
        cmp_pre(b, c) < 0,
    ensures
        cmp_pre(a, c) < 0,
{
    if a.len() > 0 && b.len() > 0 && c.len() > 0 {
        lemma_cmp_idents_trans(a, b, c);
    }
}

/// Precedence comparison is antisymmetric.
pub proof fn lemma_cmp_version_antisym(a: SemVerView, b: SemVerView)
    ensures
        cmp_version(a, b) == -cmp_version(b, a),
{
    lemma_cmp_pre_antisym(a.pre, b.pre);
}

/// Precedence comparison is transitive.
pub proof fn lemma_cmp_version_trans(a: SemVerView, b: SemVerView, c: SemVerView)
    requires
        cmp_version(a, b) < 0,
        cmp_version(b, c) < 0,
    ensures
        cmp_version(a, c) < 0,
{
    if a.major == b.major && b.major == c.major && a.minor == b.minor && b.minor == c.minor
        && a.patch == b.patch && b.patch == c.patch {
        lemma_cmp_pre_trans(a.pre, b.pre, c.pre);
    }
}

// ---------------------------------------------------------------------------
// Executable comparison
// ---------------------------------------------------------------------------

/// Find the end of the identifier that starts at `i`.
fn find_ident_end(s: &Vec<char>, i: usize) -> (e: usize)
    requires
        i <= s@.len(),
    ensures
        i <= e <= s@.len(),
        e - i == ident_end(s@.skip(i as int)),
        forall|k: int| i <= k < e ==> s@[k] != '.',
        e < s@.len() ==> s@[e as int] == '.',
{
    let mut e = i;
    while e < s.len() && s[e] != '.'
        invariant
            i <= e <= s@.len(),
            forall|k: int| i <= k < e ==> s@[k] != '.',
        decreases s@.len() - e,
    {
        e = e + 1;
    }
    proof {
        let suf = s@.skip(i as int);
        assert forall|k: int| 0 <= k < e - i implies suf[k] != '.' by {
            assert(suf[k] == s@[k + i]);
        }
        if (e as int) - (i as int) < suf.len() {
            assert(suf[e - i] == s@[e as int]);
        }
        lemma_ident_end_unique(suf, e - i);
    }
    e
}

/// Is the range `[i, e)` of `s` a numeric identifier?
fn is_numeric_range(s: &Vec<char>, i: usize, e: usize) -> (r: bool)
    requires
        i <= e <= s@.len(),
    ensures
        r == is_numeric_ident(s@.subrange(i as int, e as int)),
{
    if i == e {
        return false;
    }
    let mut k = i;
    while k < e
        invariant
            i <= k <= e <= s@.len(),
            forall|j: int| i <= j < k ==> is_digit(s@[j]),
        decreases e - k,
    {
        let c = s[k] as u32;
        if c < 48 || c > 57 {
            assert(s@.subrange(i as int, e as int)[k - i] == s@[k as int]);
            return false;
        }
        k = k + 1;
    }
    proof {
        let x = s@.subrange(i as int, e as int);
        assert forall|j: int| 0 <= j < x.len() implies is_digit(x[j]) by {
            assert(x[j] == s@[j + i]);
        }
    }
    true
}

/// Lexical comparison of `a[ai..ae)` against `b[bi..be)`.
fn cmp_lex_range(a: &Vec<char>, ai: usize, ae: usize, b: &Vec<char>, bi: usize, be: usize) -> (r:
    i32)
    requires
        ai <= ae <= a@.len(),
        bi <= be <= b@.len(),
    ensures
        r as int == cmp_lex(a@.subrange(ai as int, ae as int), b@.subrange(bi as int, be as int)),
{
    let ghost xa = a@.subrange(ai as int, ae as int);
    let ghost xb = b@.subrange(bi as int, be as int);
    let mut k: usize = 0;
    proof {
        assert(xa.skip(0) =~= xa);
        assert(xb.skip(0) =~= xb);
    }
    loop
        invariant
            ai <= ae <= a@.len(),
            bi <= be <= b@.len(),
            xa == a@.subrange(ai as int, ae as int),
            xb == b@.subrange(bi as int, be as int),
            k <= xa.len() && k <= xb.len(),
            cmp_lex(xa, xb) == cmp_lex(xa.skip(k as int), xb.skip(k as int)),
        decreases xa.len() - k,
    {
        proof {
            assert(xa.skip(k as int).len() == xa.len() - k);
            assert(xb.skip(k as int).len() == xb.len() - k);
        }
        if ai + k == ae && bi + k == be {
            return 0;
        }
        if ai + k == ae {
            return -1;
        }
        if bi + k == be {
            return 1;
        }
        let ca = a[ai + k] as u32;
        let cb = b[bi + k] as u32;
        proof {
            assert(xa.skip(k as int)[0] == xa[k as int] && xa[k as int] == a@[ai + k]);
            assert(xb.skip(k as int)[0] == xb[k as int] && xb[k as int] == b@[bi + k]);
        }
        if ca < cb {
            return -1;
        }
        if cb < ca {
            return 1;
        }
        proof {
            assert(xa.skip(k as int).drop_first() =~= xa.skip(k + 1));
            assert(xb.skip(k as int).drop_first() =~= xb.skip(k + 1));
        }
        k = k + 1;
    }
}

/// Comparison of the identifiers `a[ai..ae)` and `b[bi..be)`.
fn cmp_ident_range(a: &Vec<char>, ai: usize, ae: usize, b: &Vec<char>, bi: usize, be: usize) -> (r:
    i32)
    requires
        ai <= ae <= a@.len(),
        bi <= be <= b@.len(),
    ensures
        r as int == cmp_ident(a@.subrange(ai as int, ae as int), b@.subrange(bi as int, be as int)),
{
    let na = is_numeric_range(a, ai, ae);
    let nb = is_numeric_range(b, bi, be);
    if na && nb {
        if ae - ai < be - bi {
            -1
        } else if be - bi < ae - ai {
            1
        } else {
            cmp_lex_range(a, ai, ae, b, bi, be)
        }
    } else if na {
        -1
    } else if nb {
        1
    } else {
        cmp_lex_range(a, ai, ae, b, bi, be)
    }
}

/// Comparison of two nonempty pre-release texts.
fn cmp_idents_exec(a: &Vec<char>, b: &Vec<char>) -> (r: i32)
    ensures
        r as int == cmp_idents(a@, b@),
{
    let mut ai: usize = 0;
    let mut bi: usize = 0;
    proof {
        assert(a@.skip(0) =~= a@);
        assert(b@.skip(0) =~= b@);
    }
    loop
        invariant
            ai <= a@.len(),
            bi <= b@.len(),
            cmp_idents(a@, b@) == cmp_idents(a@.skip(ai as int), b@.skip(bi as int)),
        decreases a@.len() - ai,
    {
        let ghost sa = a@.skip(ai as int);
        let ghost sb = b@.skip(bi as int);
        if ai == a.len() && bi == b.len() {
            return 0;
        }
        if ai == a.len() {
            return -1;
        }
        if bi == b.len() {
            return 1;
        }
        let ae = find_ident_end(a, ai);
        let be = find_ident_end(b, bi);
        proof {
            assert(sa.take(ident_end(sa)) =~= a@.subrange(ai as int, ae as int));
            assert(sb.take(ident_end(sb)) =~= b@.subrange(bi as int, be as int));
        }
        let c = cmp_ident_range(a, ai, ae, b, bi, be);
        if c != 0 {
            return c;
        }
        proof {
            if ident_end(sa) < sa.len() {
                assert(rest_after(sa, ident_end(sa)) =~= a@.skip(ae + 1));
            } else {
                assert(rest_after(sa, ident_end(sa)) =~= a@.skip(a@.len() as int));
            }
            if ident_end(sb) < sb.len() {
                assert(rest_after(sb, ident_end(sb)) =~= b@.skip(be + 1));
            } else {
                assert(rest_after(sb, ident_end(sb)) =~= b@.skip(b@.len() as int));
            }
        }
        if ae < a.len() {
            ai = ae + 1;
        } else {
            ai = a.len();
        }
        if be < b.len() {
            bi = be + 1;
        } else {
            bi = b.len();
        }
    }
}

impl SemVer {
    /// Three-way precedence comparison: negative, zero or positive as
    /// `self` ranks below, equal to or above `other`.
    pub fn precedence_cmp(&self, other: &SemVer) -> (r: i32)
        ensures
            r as int == cmp_version(self@, other@),
    {
        if self.major != other.major {
            if self.major < other.major {
                return -1;
            } else {
                return 1;
            }
        }
        if self.minor != other.minor {
            if self.minor < other.minor {
                return -1;
            } else {
                return 1;
            }
        }
        if self.patch != other.patch {
            if self.patch < other.patch {
                return -1;
            } else {
                return 1;
            }
        }
        if self.pre.len() == 0 && other.pre.len() == 0 {
            return 0;
        }
        if self.pre.len() == 0 {
            return 1;
        }
        if other.pre.len() == 0 {
            return -1;
        }
        cmp_idents_exec(&self.pre, &other.pre)
    }

    /// Does `self` rank strictly below `other`?
    pub fn precedence_lt(&self, other: &SemVer) -> (r: bool)
        ensures
            r == version_lt(self@, other@),
    {
        self.precedence_cmp(other) < 0
    }

    /// Are the two versions identical (same triple, same pre-release text)?
    pub fn same_version(&self, other: &SemVer) -> (r: bool)
        ensures
            r == (self@ == other@),
    {
        self.major == other.major && self.minor == other.minor && self.patch == other.patch
            && crate::strutil::chars_eq(&self.pre, &other.pre)
    }
}

// ---------------------------------------------------------------------------
// Rendering
// ---------------------------------------------------------------------------

/// The decimal digit character for `n` (< 10).
pub open spec fn digit_char(n: int) -> char {
    if n == 0 {
        '0'
    } else if n == 1 {
        '1'
    } else if n == 2 {
        '2'
    } else if n == 3 {
        '3'
    } else if n == 4 {
        '4'
    } else if n == 5 {
        '5'
    } else if n == 6 {
        '6'
    } else if n == 7 {
        '7'
    } else if n == 8 {
        '8'
    } else {
        '9'
    }
}

/// The decimal digits of `n`, most significant first.
pub open spec fn dec_digits(n: int) -> Seq<char>
    decreases n,
{
    if n < 10 {
        seq![digit_char(n)]
    } else {
        dec_digits(n / 10).push(digit_char(n % 10))
    }
}

fn digit_char_exec(n: u64) -> (c: char)
    requires
        n < 10,
    ensures
        c == digit_char(n as int),
{
    match n {
        0 => '0',
        1 => '1',
        2 => '2',
        3 => '3',
        4 => '4',
        5 => '5',
        6 => '6',
        7 => '7',
        8 => '8',
        _ => '9',
    }
}

/// The decimal text of `n`.
pub fn render_u64(n: u64) -> (r: Vec<char>)
    ensures
        r@ == dec_digits(n as int),
    decreases n,
{
    if n < 10 {
        let mut r: Vec<char> = Vec::new();
        r.push(digit_char_exec(n));
        proof {
            assert(r@ =~= dec_digits(n as int));
        }
        r
    } else {
        let mut r = render_u64(n / 10);
        r.push(digit_char_exec(n % 10));
        r
    }
}

/// The canonical text of a version: `major.minor.patch`, with `-pre`
/// appended when the pre-release component is nonempty.
pub open spec fn version_text(v: SemVerView) -> Seq<char> {
    dec_digits(v.major as int) + seq!['.'] + dec_digits(v.minor as int) + seq!['.'] + dec_digits(
        v.patch as int,
    ) + (if v.pre.len() > 0 {
        seq!['-'] + v.pre
    } else {
        Seq::empty()
    })
}

impl SemVer {
    /// Render the version as text.
    pub fn render(&self) -> (r: Vec<char>)
        ensures
            r@ == version_text(self@),
    {
        let mut r = render_u64(self.major);
        r.push('.');
        let mut minor = render_u64(self.minor);
        r.append(&mut minor);
        r.push('.');
        let mut patch = render_u64(self.patch);
        r.append(&mut patch);
        if self.pre.len() > 0 {
            r.push('-');
            let mut pre = crate::strutil::copy_chars(&self.pre);
            r.append(&mut pre);
        }
        proof {
            assert(r@ =~= version_text(self@));
        }
        r
    }
}

} // verus!
