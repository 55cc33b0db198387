//! Semantic versions as plain values, their precedence order, and the
//! highest/newest summary over a package's published versions.
//!
//! A version is held as its numeric triple plus the pre-release identifiers,
//! so that every rule that reads a version is verified; parsing a version
//! string is the one step done by the `semver` crate, behind a trusted
//! wrapper.

use vstd::prelude::*;

use crate::datetime::{dt_lt, DateTime};
use crate::text::chars_to_string;

verus! {

/// One pre-release identifier: either purely numeric or alphanumeric text.
#[derive(Debug)]
pub enum PreSeg {
    Num(u64),
    Text(String),
}

/// A semantic version: numeric triple plus pre-release identifiers, in
/// order. Build metadata never affects precedence and is not kept.
#[derive(Debug)]
pub struct SemVer {
    pub major: u64,
    pub minor: u64,
    pub patch: u64,
    pub pre: Vec<PreSeg>,
}

/// A pre-release identifier as a plain triple: numeric flag, numeric value,
/// text.
pub open spec fn seg_view(s: PreSeg) -> (bool, u64, Seq<char>) {
    match s {
        PreSeg::Num(n) => (true, n, Seq::empty()),
        PreSeg::Text(t) => (false, 0u64, t@),
    }
}

/// A whole version as plain values.
pub open spec fn sv_view(v: SemVer) -> (u64, u64, u64, Seq<(bool, u64, Seq<char>)>) {
    (v.major, v.minor, v.patch, v.pre@.map_values(|s: PreSeg| seg_view(s)))
}

/// What `semver`'s parser makes of a version string: `None` when the string
/// is not a semantic version, otherwise the plain values of the parse.
pub uninterp spec fn semver_parts_of(s: Seq<char>) -> Option<
    (u64, u64, u64, Seq<(bool, u64, Seq<char>)>),
>;

/// Relies on `semver::Version::parse`: the parse of a version string depends
/// on its characters alone. The numeric triple and the pre-release
/// identifiers are handed over as plain values; build metadata, which never
/// affects precedence, is dropped.
#[verifier::external_body]
pub(crate) fn semver_parse(s: &str) -> (r: Option<SemVer>)
    ensures
        (r is Some) == (semver_parts_of(s@) is Some),
        r is Some ==> sv_view(r->0) == semver_parts_of(s@)->0,
{
    match semver::Version::parse(s) {
        Ok(v) => {
            let mut pre: Vec<PreSeg> = Vec::new();
            for id in v.pre {
                match id {
                    semver::Identifier::Numeric(n) => pre.push(PreSeg::Num(n)),
                    semver::Identifier::AlphaNumeric(t) => pre.push(PreSeg::Text(t)),
                }
            }
            Some(SemVer { major: v.major, minor: v.minor, patch: v.patch, pre })
        },
        Err(_) => None,
    }
}

/// Whether `semver`'s parser accepts a version-requirement string. Depends
/// on the characters alone.
pub uninterp spec fn version_req_ok(s: Seq<char>) -> bool;

/// Relies on `semver::VersionReq::parse`: acceptance of a requirement string
/// depends on its characters alone.
#[verifier::external_body]
pub(crate) fn version_req_valid(s: &str) -> (r: bool)
    ensures
        r == version_req_ok(s@),
{
    semver::VersionReq::parse(s).is_ok()
}

impl Clone for PreSeg {
    fn clone(&self) -> (r: Self)
        ensures
            r == *self,
    {
        match self {
            PreSeg::Num(n) => PreSeg::Num(*n),
            PreSeg::Text(t) => PreSeg::Text(t.clone()),
        }
    }
}

impl Clone for SemVer {
    fn clone(&self) -> (r: Self)
        ensures
            r.major == self.major,
            r.minor == self.minor,
            r.patch == self.patch,
            r.pre@ == self.pre@,
            sv_eq(r, *self),
    {
        let mut pre: Vec<PreSeg> = Vec::new();
        let mut i: usize = 0;
        while i < self.pre.len()
            invariant
                i <= self.pre.len(),
                pre@ =~= self.pre@.subrange(0, i as int),
            decreases self.pre.len() - i,
        {
            pre.push(self.pre[i].clone());
            i = i + 1;
        }
        assert(pre@ =~= self.pre@);
        proof {
            lemma_pre_eq_refl(pre@);
        }
        SemVer { major: self.major, minor: self.minor, patch: self.patch, pre }
    }
}

/// Identifier equality is reflexive.
pub proof fn lemma_seg_eq_refl(a: PreSeg)
    ensures
        seg_eq(a, a),
{
    match a {
        PreSeg::Num(_) => {},
        PreSeg::Text(_) => {},
    }
}

/// Identifier-list equality is reflexive.
pub proof fn lemma_pre_eq_refl(a: Seq<PreSeg>)
    ensures
        pre_eq(a, a),
{
    assert forall|j: int| 0 <= j < a.len() implies seg_eq(a[j], a[j]) by {
        lemma_seg_eq_refl(a[j]);
    }
}

/// Strict lexicographic order on character sequences.
pub open spec fn chars_lt(a: Seq<char>, b: Seq<char>) -> bool
    decreases a.len(),
{
    if b.len() == 0 {
        false
    } else if a.len() == 0 {
        true
    } else if a[0] != b[0] {
        a[0] < b[0]
    } else {
        chars_lt(a.drop_first(), b.drop_first())
    }
}

/// When two sequences agree on their first `i` characters, their order is
/// decided past that prefix.
proof fn lemma_chars_lt_skip(a: Seq<char>, b: Seq<char>, i: int)
    requires
        0 <= i <= a.len(),
        i <= b.len(),
        a.subrange(0, i) == b.subrange(0, i),
    ensures
        chars_lt(a, b) == chars_lt(a.skip(i), b.skip(i)),
    decreases i,
{
    if i > 0 {
        assert(a[0] == a.subrange(0, i)[0]);
        assert(b[0] == b.subrange(0, i)[0]);
        assert(a.drop_first().subrange(0, i - 1) =~= b.drop_first().subrange(0, i - 1)) by {
            assert forall|j: int| 0 <= j < i - 1 implies a.drop_first()[j] == b.drop_first()[j] by {
                assert(a.drop_first()[j] == a.subrange(0, i)[j + 1]);
                assert(b.drop_first()[j] == b.subrange(0, i)[j + 1]);
            }
        }
        lemma_chars_lt_skip(a.drop_first(), b.drop_first(), i - 1);
        assert(a.drop_first().skip(i - 1) =~= a.skip(i));
        assert(b.drop_first().skip(i - 1) =~= b.skip(i));
    } else {
        assert(a.skip(0) =~= a);
        assert(b.skip(0) =~= b);
    }
}

/// Lexicographic order is total: two strings compare one way, the other,
/// or are equal.
pub proof fn lemma_chars_lt_total(a: Seq<char>, b: Seq<char>)
    ensures
        chars_lt(a, b) || chars_lt(b, a) || a == b,
    decreases a.len(),
{
    if a.len() == 0 {
        if b.len() == 0 {
            assert(a =~= b);
        }
    } else if b.len() == 0 {
    } else if a[0] != b[0] {
    } else {
        lemma_chars_lt_total(a.drop_first(), b.drop_first());
        if a.drop_first() == b.drop_first() {
            assert(a.drop_first().len() == a.len() - 1);
            assert(b.drop_first().len() == b.len() - 1);
            assert(a.len() == b.len());
            assert forall|i: int| 0 <= i < a.len() implies a[i] == b[i] by {
                if i > 0 {
                    assert(a[i] == a.drop_first()[i - 1]);
                    assert(b[i] == b.drop_first()[i - 1]);
                }
            }
            assert(a =~= b);
        }
    }
}

/// Lexicographic order is transitive.
pub proof fn lemma_chars_lt_trans(a: Seq<char>, b: Seq<char>, c: Seq<char>)
    requires
        chars_lt(a, b),
        chars_lt(b, c),
    ensures
        chars_lt(a, c),
    decreases a.len(),
{
    if c.len() == 0 {
    } else if b.len() == 0 {
    } else if a.len() == 0 {
    } else {
        if a[0] != b[0] {
            if b[0] != c[0] {
            } else {
            }
        } else {
            if b[0] != c[0] {
            } else {
                lemma_chars_lt_trans(a.drop_first(), b.drop_first(), c.drop_first());
            }
        }
    }
}

/// Strict lexicographic order on strings, executable form.
pub fn str_lt(a: &str, b: &str) -> (r: bool)
    ensures
        r == chars_lt(a@, b@),
{
    let na = a.unicode_len();
    let nb = b.unicode_len();
    let mut i: usize = 0;
    while i < na && i < nb
        invariant
            na == a@.len(),
            nb == b@.len(),
            i <= na,
            i <= nb,
            a@.subrange(0, i as int) == b@.subrange(0, i as int),
        decreases na - i,
    {
        let ca = a.get_char(i);
        let cb = b.get_char(i);
        if ca != cb {
            proof {
                lemma_chars_lt_skip(a@, b@, i as int);
            }
            return ca < cb;
        }
        i = i + 1;
        assert(a@.subrange(0, i as int) =~= b@.subrange(0, i as int));
    }
    proof {
        lemma_chars_lt_skip(a@, b@, i as int);
    }
    na < nb
}

/// Equality of two pre-release identifiers, as values.
pub open spec fn seg_eq(a: PreSeg, b: PreSeg) -> bool {
    match (a, b) {
        (PreSeg::Num(x), PreSeg::Num(y)) => x == y,
        (PreSeg::Text(x), PreSeg::Text(y)) => x@ == y@,
        _ => false,
    }
}

/// Equality of two identifier lists, entry by entry.
pub open spec fn pre_eq(a: Seq<PreSeg>, b: Seq<PreSeg>) -> bool {
    a.len() == b.len() && forall|j: int| 0 <= j < a.len() ==> seg_eq(a[j], b[j])
}

/// Precedence order on pre-release identifiers: numeric identifiers come
/// before alphanumeric ones; numeric compare as numbers, text compares
/// lexicographically.
pub open spec fn seg_lt(a: PreSeg, b: PreSeg) -> bool {
    match (a, b) {
        (PreSeg::Num(x), PreSeg::Num(y)) => x < y,
        (PreSeg::Num(_), PreSeg::Text(_)) => true,
        (PreSeg::Text(_), PreSeg::Num(_)) => false,
        (PreSeg::Text(x), PreSeg::Text(y)) => chars_lt(x@, y@),
    }
}

pub fn seg_equal(a: &PreSeg, b: &PreSeg) -> (r: bool)
    ensures
        r == seg_eq(*a, *b),
{
    match (a, b) {
        (PreSeg::Num(x), PreSeg::Num(y)) => x == y,
        (PreSeg::Text(x), PreSeg::Text(y)) => *x == *y,
        _ => false,
    }
}

pub fn seg_less(a: &PreSeg, b: &PreSeg) -> (r: bool)
    ensures
        r == seg_lt(*a, *b),
{
    match (a, b) {
        (PreSeg::Num(x), PreSeg::Num(y)) => x < y,
        (PreSeg::Num(_), PreSeg::Text(_)) => true,
        (PreSeg::Text(_), PreSeg::Num(_)) => false,
        (PreSeg::Text(x), PreSeg::Text(y)) => str_lt(x.as_str(), y.as_str()),
    }
}

/// Precedence order on whole pre-release identifier lists: identifier by
/// identifier, a list that runs out first coming earlier.
pub open spec fn pre_lt(a: Seq<PreSeg>, b: Seq<PreSeg>) -> bool
    decreases a.len(),
{
    if b.len() == 0 {
        false
    } else if a.len() == 0 {
        true
    } else if !seg_eq(a[0], b[0]) {
        seg_lt(a[0], b[0])
    } else {
        pre_lt(a.drop_first(), b.drop_first())
    }
}

/// When two identifier lists agree on their first `i` entries, their order
/// is decided past that prefix.
proof fn lemma_pre_lt_skip(a: Seq<PreSeg>, b: Seq<PreSeg>, i: int)
    requires
        0 <= i <= a.len(),
        i <= b.len(),
        forall|j: int| 0 <= j < i ==> seg_eq(a[j], b[j]),
    ensures
        pre_lt(a, b) == pre_lt(a.skip(i), b.skip(i)),
    decreases i,
{
    if i > 0 {
        assert(seg_eq(a[0], b[0]));
        assert(forall|j: int|
            0 <= j < i - 1 ==> seg_eq(a.drop_first()[j], b.drop_first()[j]));
        lemma_pre_lt_skip(a.drop_first(), b.drop_first(), i - 1);
        assert(a.drop_first().skip(i - 1) =~= a.skip(i));
        assert(b.drop_first().skip(i - 1) =~= b.skip(i));
    } else {
        assert(a.skip(0) =~= a);
        assert(b.skip(0) =~= b);
    }
}

pub fn pre_less(a: &Vec<PreSeg>, b: &Vec<PreSeg>) -> (r: bool)
    ensures
        r == pre_lt(a@, b@),
{
    let na = a.len();
    let nb = b.len();
    let mut i: usize = 0;
    while i < na && i < nb
        invariant
            na == a@.len(),
            nb == b@.len(),
            i <= na,
            i <= nb,
            forall|j: int| 0 <= j < i ==> seg_eq(a@[j], b@[j]),
        decreases na - i,
    {
        if !seg_equal(&a[i], &b[i]) {
            proof {
                lemma_pre_lt_skip(a@, b@, i as int);
            }
            return seg_less(&a[i], &b[i]);
        }
        i = i + 1;
    }
    proof {
        lemma_pre_lt_skip(a@, b@, i as int);
    }
    na < nb
}

/// Equality of two versions, as values.
pub open spec fn sv_eq(a: SemVer, b: SemVer) -> bool {
    a.major == b.major && a.minor == b.minor && a.patch == b.patch && pre_eq(a.pre@, b.pre@)
}

/// Semantic-version precedence: the numeric triple decides first; for an
/// equal triple a pre-release comes before the release, and two pre-releases
/// compare identifier by identifier.
pub open spec fn sv_lt(a: SemVer, b: SemVer) -> bool {
    if a.major != b.major {
        a.major < b.major
    } else if a.minor != b.minor {
        a.minor < b.minor
    } else if a.patch != b.patch {
        a.patch < b.patch
    } else if a.pre.len() == 0 {
        false
    } else if b.pre.len() == 0 {
        true
    } else {
        pre_lt(a.pre@, b.pre@)
    }
}

impl SemVer {
    pub fn new(major: u64, minor: u64, patch: u64, pre: Vec<PreSeg>) -> (r: SemVer)
        ensures
            r == (SemVer { major, minor, patch, pre }),
    {
        SemVer { major, minor, patch, pre }
    }

    /// True when the version has pre-release identifiers.
    pub fn is_prerelease(&self) -> (r: bool)
        ensures
            r == (self.pre@.len() != 0),
    {
        self.pre.len() != 0
    }

    pub fn equals(&self, other: &SemVer) -> (r: bool)
        ensures
            r == sv_eq(*self, *other),
    {
        if self.major != other.major || self.minor != other.minor || self.patch != other.patch {
            return false;
        }
        if self.pre.len() != other.pre.len() {
            return false;
        }
        let n = self.pre.len();
        let mut i: usize = 0;
        while i < n
            invariant
                n == self.pre@.len(),
                n == other.pre@.len(),
                i <= n,
                self.major == other.major,
                self.minor == other.minor,
                self.patch == other.patch,
                forall|j: int| 0 <= j < i ==> seg_eq(self.pre@[j], other.pre@[j]),
            decreases n - i,
        {
            if !seg_equal(&self.pre[i], &other.pre[i]) {
                return false;
            }
            i = i + 1;
        }
        true
    }

    pub fn less(&self, other: &SemVer) -> (r: bool)
        ensures
            r == sv_lt(*self, *other),
    {
        if self.major != other.major {
            self.major < other.major
        } else if self.minor != other.minor {
            self.minor < other.minor
        } else if self.patch != other.patch {
            self.patch < other.patch
        } else if self.pre.len() == 0 {
            false
        } else if other.pre.len() == 0 {
            true
        } else {
            pre_less(&self.pre, &other.pre)
        }
    }
}

impl PartialEq for PreSeg {
    fn eq(&self, other: &PreSeg) -> (r: bool) {
        seg_equal(self, other)
    }
}

impl vstd::std_specs::cmp::PartialEqSpecImpl for PreSeg {
    open spec fn obeys_eq_spec() -> bool {
        true
    }

    open spec fn eq_spec(&self, other: &PreSeg) -> bool {
        seg_eq(*self, *other)
    }
}

impl PartialEq for SemVer {
    fn eq(&self, other: &SemVer) -> (r: bool) {
        self.equals(other)
    }
}

impl vstd::std_specs::cmp::PartialEqSpecImpl for SemVer {
    open spec fn obeys_eq_spec() -> bool {
        true
    }

    open spec fn eq_spec(&self, other: &SemVer) -> bool {
        sv_eq(*self, *other)
    }
}

/// A version as plain values: the numeric triple and the pre-release
/// identifier views. This is the form version rows take in store views.
pub type SvV = (u64, u64, u64, Seq<(bool, u64, Seq<char>)>);

/// The identifier views of a pre-release list, in order.
pub open spec fn pre_views(s: Seq<PreSeg>) -> Seq<(bool, u64, Seq<char>)> {
    s.map_values(|x: PreSeg| seg_view(x))
}

/// Identifier precedence over identifier views.
pub open spec fn segv_lt(a: (bool, u64, Seq<char>), b: (bool, u64, Seq<char>)) -> bool {
    if a.0 {
        if b.0 {
            a.1 < b.1
        } else {
            true
        }
    } else {
        if b.0 {
            false
        } else {
            chars_lt(a.2, b.2)
        }
    }
}

/// Identifier-list precedence over identifier views.
pub open spec fn prev_lt(a: Seq<(bool, u64, Seq<char>)>, b: Seq<(bool, u64, Seq<char>)>) -> bool
    decreases a.len(),
{
    if b.len() == 0 {
        false
    } else if a.len() == 0 {
        true
    } else if a[0] != b[0] {
        segv_lt(a[0], b[0])
    } else {
        prev_lt(a.drop_first(), b.drop_first())
    }
}

/// Version precedence over version views.
pub open spec fn svv_lt(a: SvV, b: SvV) -> bool {
    if a.0 != b.0 {
        a.0 < b.0
    } else if a.1 != b.1 {
        a.1 < b.1
    } else if a.2 != b.2 {
        a.2 < b.2
    } else if a.3.len() == 0 {
        false
    } else if b.3.len() == 0 {
        true
    } else {
        prev_lt(a.3, b.3)
    }
}

/// The maximum of a non-empty sequence of version views, the last of equal
/// maxima winning.
pub open spec fn svv_max(s: Seq<SvV>) -> SvV
    decreases s.len(),
{
    if s.len() <= 1 {
        s[0]
    } else {
        let m = svv_max(s.drop_last());
        if svv_lt(s.last(), m) {
            m
        } else {
            s.last()
        }
    }
}

/// Identifier equality is equality of identifier views.
proof fn lemma_seg_view_eq(a: PreSeg, b: PreSeg)
    ensures
        seg_eq(a, b) == (seg_view(a) == seg_view(b)),
{
    match (a, b) {
        (PreSeg::Num(_), PreSeg::Num(_)) => {},
        (PreSeg::Text(_), PreSeg::Text(_)) => {},
        _ => {},
    }
}

/// Identifier precedence agrees with precedence of identifier views.
proof fn lemma_seg_view_lt(a: PreSeg, b: PreSeg)
    ensures
        seg_lt(a, b) == segv_lt(seg_view(a), seg_view(b)),
{
    match (a, b) {
        (PreSeg::Num(_), PreSeg::Num(_)) => {},
        (PreSeg::Text(_), PreSeg::Text(_)) => {},
        _ => {},
    }
}

/// List precedence agrees with precedence of identifier views.
proof fn lemma_pre_view_lt(a: Seq<PreSeg>, b: Seq<PreSeg>)
    ensures
        pre_lt(a, b) == prev_lt(pre_views(a), pre_views(b)),
    decreases a.len(),
{
    assert(pre_views(a).len() == a.len());
    assert(pre_views(b).len() == b.len());
    if b.len() == 0 {
    } else if a.len() == 0 {
    } else {
        lemma_seg_view_eq(a[0], b[0]);
        lemma_seg_view_lt(a[0], b[0]);
        assert(pre_views(a)[0] == seg_view(a[0]));
        assert(pre_views(b)[0] == seg_view(b[0]));
        lemma_pre_view_lt(a.drop_first(), b.drop_first());
        assert(pre_views(a).drop_first() =~= pre_views(a.drop_first()));
        assert(pre_views(b).drop_first() =~= pre_views(b.drop_first()));
    }
}

/// Version precedence agrees with precedence of version views.
pub proof fn lemma_sv_view_lt(a: SemVer, b: SemVer)
    ensures
        sv_lt(a, b) == svv_lt(sv_view(a), sv_view(b)),
{
    assert(sv_view(a).3.len() == a.pre@.len());
    assert(sv_view(b).3.len() == b.pre@.len());
    lemma_pre_view_lt(a.pre@, b.pre@);
}

/// Version equality is equality of version views.
pub proof fn lemma_sv_view_eq(a: SemVer, b: SemVer)
    ensures
        sv_eq(a, b) == (sv_view(a) == sv_view(b)),
{
    assert(sv_view(a).3.len() == a.pre@.len());
    assert(sv_view(b).3.len() == b.pre@.len());
    if pre_eq(a.pre@, b.pre@) {
        assert forall|j: int| 0 <= j < a.pre@.len() implies sv_view(a).3[j] == sv_view(b).3[j] by {
            lemma_seg_view_eq(a.pre@[j], b.pre@[j]);
        }
        assert(sv_view(a).3 =~= sv_view(b).3);
    }
    if sv_view(a).3 == sv_view(b).3 {
        assert forall|j: int| 0 <= j < a.pre@.len() implies seg_eq(a.pre@[j], b.pre@[j]) by {
            assert(sv_view(a).3[j] == sv_view(b).3[j]);
            lemma_seg_view_eq(a.pre@[j], b.pre@[j]);
        }
    }
}

/// One pre-release identifier view as text.
pub open spec fn seg_text_of(s: (bool, u64, Seq<char>)) -> Seq<char> {
    if s.0 {
        crate::text::dec_of(s.1 as nat)
    } else {
        s.2
    }
}

/// The canonical text of a version view: the dotted numeric triple,
/// followed by the dot-joined pre-release identifiers after a hyphen when
/// there are any.
pub open spec fn sv_text_of(v: SvV) -> Seq<char> {
    crate::text::dec_of(v.0 as nat) + "."@ + crate::text::dec_of(v.1 as nat) + "."@
        + crate::text::dec_of(v.2 as nat) + (if v.3.len() == 0 {
        Seq::<char>::empty()
    } else {
        "-"@ + crate::upload::join_sep(v.3.map_values(|s: (bool, u64, Seq<char>)| seg_text_of(s)), "."@)
    })
}

impl SemVer {
    /// The version as text.
    pub fn to_text(&self) -> (r: String)
        ensures
            r@ == sv_text_of(sv_view(*self)),
    {
        let mut out: Vec<char> = Vec::new();
        crate::text::push_dec_u64(&mut out, self.major);
        crate::text::push_str_chars(&mut out, ".");
        crate::text::push_dec_u64(&mut out, self.minor);
        crate::text::push_str_chars(&mut out, ".");
        crate::text::push_dec_u64(&mut out, self.patch);
        let ghost head = out@;
        let n = self.pre.len();
        if n > 0 {
            crate::text::push_str_chars(&mut out, "-");
            let mut i: usize = 0;
            while i < n
                invariant
                    n == self.pre@.len(),
                    i <= n,
                    out@ == head + "-"@ + crate::upload::join_sep(
                        pre_views(self.pre@.subrange(0, i as int)).map_values(
                            |s: (bool, u64, Seq<char>)| seg_text_of(s),
                        ),
                        "."@,
                    ),
                decreases n - i,
            {
                if i > 0 {
                    crate::text::push_str_chars(&mut out, ".");
                }
                match &self.pre[i] {
                    PreSeg::Num(x) => crate::text::push_dec_u64(&mut out, *x),
                    PreSeg::Text(t) => crate::text::push_str_chars(&mut out, t.as_str()),
                }
                proof {
                    let f = |s: (bool, u64, Seq<char>)| seg_text_of(s);
                    let pref = pre_views(self.pre@.subrange(0, i as int)).map_values(f);
                    let prefx = pre_views(self.pre@.subrange(0, (i + 1) as int)).map_values(f);
                    assert(prefx =~= pref.push(seg_text_of(seg_view(self.pre@[i as int]))));
                    crate::upload::lemma_join_sep_snoc(
                        pref,
                        "."@,
                        seg_text_of(seg_view(self.pre@[i as int])),
                    );
                    assert(out@ =~= head + "-"@ + crate::upload::join_sep(prefx, "."@));
                }
                i = i + 1;
            }
            proof {
                assert(pre_views(self.pre@.subrange(0, n as int)) =~= pre_views(self.pre@));
                assert(out@ =~= sv_text_of(sv_view(*self)));
            }
        } else {
            assert(out@ =~= sv_text_of(sv_view(*self)));
        }
        chars_to_string(&out)
    }
}

/// The highest version (semver order) and the most recently published
/// version of one package.
#[derive(Debug)]
pub struct TopVersions {
    /// The highest version in precedence order.
    pub highest: Option<SemVer>,
    /// The highest version without pre-release identifiers.
    pub highest_stable: Option<SemVer>,
    /// The version with the latest publish date.
    pub newest: Option<SemVer>,
}

/// Order on date/version pairs: by date, ties broken by version precedence.
pub open spec fn pair_lt(a: (DateTime, SemVer), b: (DateTime, SemVer)) -> bool {
    dt_lt(a.0, b.0) || (a.0 == b.0 && sv_lt(a.1, b.1))
}

/// The maximum of a non-empty pair sequence, the last of equal maxima
/// winning.
pub open spec fn max_pair(s: Seq<(DateTime, SemVer)>) -> (DateTime, SemVer)
    decreases s.len(),
{
    if s.len() <= 1 {
        s[0]
    } else {
        let m = max_pair(s.drop_last());
        if pair_lt(s.last(), m) {
            m
        } else {
            s.last()
        }
    }
}

/// The maximum of a non-empty version sequence in precedence order, the last
/// of equal maxima winning.
pub open spec fn max_ver(s: Seq<SemVer>) -> SemVer
    decreases s.len(),
{
    if s.len() <= 1 {
        s[0]
    } else {
        let m = max_ver(s.drop_last());
        if sv_lt(s.last(), m) {
            m
        } else {
            s.last()
        }
    }
}

/// The versions of a pair sequence, in order.
pub open spec fn versions_of(s: Seq<(DateTime, SemVer)>) -> Seq<SemVer> {
    s.map_values(|p: (DateTime, SemVer)| p.1)
}

/// The versions without pre-release identifiers, in order.
pub open spec fn stable_of(s: Seq<SemVer>) -> Seq<SemVer> {
    s.filter(|v: SemVer| v.pre.len() == 0)
}

/// Both sides absent, or both present and equal as versions.
pub open spec fn opt_sv_eq(a: Option<SemVer>, b: Option<SemVer>) -> bool {
    match (a, b) {
        (Option::None, Option::None) => true,
        (Option::Some(x), Option::Some(y)) => sv_eq(x, y),
        _ => false,
    }
}

impl TopVersions {
    /// Both the newest (latest publish date) and the highest (precedence
    /// order) version over date/version pairs, together with the highest
    /// version that is not a pre-release.
    pub fn from_date_version_pairs(pairs: &Vec<(DateTime, SemVer)>) -> (r: TopVersions)
        ensures
            opt_sv_eq(
                r.newest,
                if pairs@.len() == 0 {
                    Option::<SemVer>::None
                } else {
                    Option::Some(max_pair(pairs@).1)
                },
            ),
            opt_sv_eq(
                r.highest,
                if pairs@.len() == 0 {
                    Option::<SemVer>::None
                } else {
                    Option::Some(max_ver(versions_of(pairs@)))
                },
            ),
            opt_sv_eq(
                r.highest_stable,
                if stable_of(versions_of(pairs@)).len() == 0 {
                    Option::<SemVer>::None
                } else {
                    Option::Some(max_ver(stable_of(versions_of(pairs@))))
                },
            ),
    {
        let n = pairs.len();
        let mut newest: Option<usize> = None;  // index of current max pair
        let mut i: usize = 0;
        while i < n
            invariant
                n == pairs@.len(),
                i <= n,
                i == 0 ==> newest is None,
                i > 0 ==> newest is Some && newest->0 < i && pairs@[newest->0 as int] == max_pair(
                    pairs@.subrange(0, i as int),
                ),
            decreases n - i,
        {
            let is_new_max = match newest {
                None => true,
                Some(m) => {
                    let cur = &pairs[m];
                    let cand = &pairs[i];
                    let candidate_less = cand.0.is_before(&cur.0) || (cand.0 == cur.0
                        && cand.1.less(&cur.1));
                    !candidate_less
                },
            };
            proof {
                assert(pairs@.subrange(0, (i + 1) as int).drop_last() =~= pairs@.subrange(
                    0,
                    i as int,
                ));
                assert(pairs@.subrange(0, (i + 1) as int).last() == pairs@[i as int]);
            }
            if is_new_max {
                newest = Some(i);
            }
            i = i + 1;
        }
        proof {
            assert(pairs@.subrange(0, n as int) =~= pairs@);
        }
        let newest_v: Option<SemVer> = match newest {
            None => None,
            Some(m) => Some(pairs[m].1.clone()),
        };

        let mut highest: Option<usize> = None;
        let mut i: usize = 0;
        while i < n
            invariant
                n == pairs@.len(),
                i <= n,
                i == 0 ==> highest is None,
                i > 0 ==> highest is Some && highest->0 < i && pairs@[highest->0 as int].1
                    == max_ver(versions_of(pairs@).subrange(0, i as int)),
            decreases n - i,
        {
            let is_new_max = match highest {
                None => true,
                Some(m) => !pairs[i].1.less(&pairs[m].1),
            };
            proof {
                assert(versions_of(pairs@).subrange(0, (i + 1) as int).drop_last()
                    =~= versions_of(pairs@).subrange(0, i as int));
                assert(versions_of(pairs@).subrange(0, (i + 1) as int).last() == versions_of(
                    pairs@,
                )[i as int]);
            }
            if is_new_max {
                highest = Some(i);
            }
            i = i + 1;
        }
        proof {
            assert(versions_of(pairs@).subrange(0, n as int) =~= versions_of(pairs@));
        }
        let highest_v: Option<SemVer> = match highest {
            None => None,
            Some(m) => Some(pairs[m].1.clone()),
        };

        let mut stable: Option<usize> = None;
        let mut i: usize = 0;
        while i < n
            invariant
                n == pairs@.len(),
                i <= n,
                stable is None ==> stable_of(versions_of(pairs@).subrange(0, i as int)).len() == 0,
                stable is Some ==> stable->0 < i && pairs@[stable->0 as int].1.pre@.len() == 0
                    && stable_of(versions_of(pairs@).subrange(0, i as int)).len() != 0
                    && pairs@[stable->0 as int].1 == max_ver(
                    stable_of(versions_of(pairs@).subrange(0, i as int)),
                ),
            decreases n - i,
        {
            proof {
                let pref = versions_of(pairs@).subrange(0, i as int);
                let prefx = versions_of(pairs@).subrange(0, (i + 1) as int);
                assert(prefx.drop_last() =~= pref);
                assert(prefx.last() == versions_of(pairs@)[i as int]);
                reveal(Seq::filter);
                assert(stable_of(prefx) == if prefx.last().pre.len() == 0 {
                    stable_of(pref).push(prefx.last())
                } else {
                    stable_of(pref)
                });
            }
            if pairs[i].1.pre.len() == 0 {
                let is_new_max = match stable {
                    None => true,
                    Some(m) => !pairs[i].1.less(&pairs[m].1),
                };
                proof {
                    let pref = versions_of(pairs@).subrange(0, i as int);
                    let prefx = versions_of(pairs@).subrange(0, (i + 1) as int);
                    if stable_of(pref).len() != 0 {
                        assert(stable_of(prefx).drop_last() =~= stable_of(pref));
                        assert(stable_of(prefx).last() == pairs@[i as int].1);
                    }
                }
                if is_new_max {
                    stable = Some(i);
                }
            }
            i = i + 1;
        }
        proof {
            assert(versions_of(pairs@).subrange(0, n as int) =~= versions_of(pairs@));
        }
        let stable_v: Option<SemVer> = match stable {
            None => None,
            Some(m) => Some(pairs[m].1.clone()),
        };

        TopVersions { highest: highest_v, highest_stable: stable_v, newest: newest_v }
    }
}

impl PartialEq for TopVersions {
    fn eq(&self, other: &TopVersions) -> (r: bool) {
        let h = match (&self.highest, &other.highest) {
            (None, None) => true,
            (Some(a), Some(b)) => a.equals(b),
            _ => false,
        };
        let s = match (&self.highest_stable, &other.highest_stable) {
            (None, None) => true,
            (Some(a), Some(b)) => a.equals(b),
            _ => false,
        };
        let n = match (&self.newest, &other.newest) {
            (None, None) => true,
            (Some(a), Some(b)) => a.equals(b),
            _ => false,
        };
        h && s && n
    }
}

impl vstd::std_specs::cmp::PartialEqSpecImpl for TopVersions {
    open spec fn obeys_eq_spec() -> bool {
        true
    }

    open spec fn eq_spec(&self, other: &TopVersions) -> bool {
        &&& match (self.highest, other.highest) {
            (Option::None, Option::None) => true,
            (Option::Some(a), Option::Some(b)) => sv_eq(a, b),
            _ => false,
        }
        &&& match (self.highest_stable, other.highest_stable) {
            (Option::None, Option::None) => true,
            (Option::Some(a), Option::Some(b)) => sv_eq(a, b),
            _ => false,
        }
        &&& match (self.newest, other.newest) {
            (Option::None, Option::None) => true,
            (Option::Some(a), Option::Some(b)) => sv_eq(a, b),
            _ => false,
        }
    }
}

} // verus!
