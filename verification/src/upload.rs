//! The decoded upload metadata and its validation.
//!
//! The metadata arrives as JSON in the wire body; once decoded into these
//! plain values, the validator checks the required fields — description,
//! license (or license file) and authors — and reports every missing one in
//! a single combined message.

use vstd::prelude::*;

use crate::errors::PublishError;
use crate::text::{chars_to_string, push_str_chars};

verus! {

/// One declared dependency of the uploaded version.
#[derive(Debug)]
pub struct CrateDependency {
    pub name: String,
    pub version_req: String,
    pub optional: bool,
    pub default_features: bool,
    pub features: Vec<String>,
    pub target: Option<String>,
    pub kind: Option<String>,
    pub registry: Option<String>,
    pub explicit_name_in_toml: Option<String>,
}

/// One badge attached to the package: its kind and its attributes.
#[derive(Debug)]
pub struct BadgeSpec {
    pub kind: String,
    pub attributes: Vec<(String, String)>,
}

/// The upload metadata, decoded from the request's JSON.
#[derive(Debug)]
pub struct CrateUpload {
    pub name: String,
    pub vers: String,
    pub deps: Vec<CrateDependency>,
    pub features: Vec<(String, Vec<String>)>,
    pub authors: Vec<String>,
    pub description: Option<String>,
    pub homepage: Option<String>,
    pub documentation: Option<String>,
    pub readme: Option<String>,
    pub readme_file: Option<String>,
    pub repository: Option<String>,
    pub license: Option<String>,
    pub license_file: Option<String>,
    pub keywords: Option<Vec<String>>,
    pub categories: Option<Vec<String>>,
    pub badges: Option<Vec<BadgeSpec>>,
    pub links: Option<String>,
}

/// Copies a vector of strings; the copy holds equal strings.
pub fn clone_string_vec(v: &Vec<String>) -> (r: Vec<String>)
    ensures
        r@ == v@,
{
    let mut r: Vec<String> = Vec::new();
    let mut i: usize = 0;
    while i < v.len()
        invariant
            i <= v@.len(),
            r@ =~= v@.subrange(0, i as int),
        decreases v@.len() - i,
    {
        r.push(v[i].clone());
        i = i + 1;
        assert(r@ =~= v@.subrange(0, i as int));
    }
    assert(r@ =~= v@);
    r
}

/// Copies an optional string; the copy holds an equal string.
pub fn clone_opt_string(o: &Option<String>) -> (r: Option<String>)
    ensures
        r == *o,
{
    match o {
        None => None,
        Some(s) => Some(s.clone()),
    }
}

impl Clone for CrateDependency {
    fn clone(&self) -> (r: Self)
        ensures
            r.name == self.name,
            r.version_req == self.version_req,
            r.optional == self.optional,
            r.default_features == self.default_features,
            r.features@ == self.features@,
            r.target == self.target,
            r.kind == self.kind,
            r.registry == self.registry,
            r.explicit_name_in_toml == self.explicit_name_in_toml,
    {
        CrateDependency {
            name: self.name.clone(),
            version_req: self.version_req.clone(),
            optional: self.optional,
            default_features: self.default_features,
            features: clone_string_vec(&self.features),
            target: clone_opt_string(&self.target),
            kind: clone_opt_string(&self.kind),
            registry: clone_opt_string(&self.registry),
            explicit_name_in_toml: clone_opt_string(&self.explicit_name_in_toml),
        }
    }
}

impl Clone for BadgeSpec {
    fn clone(&self) -> (r: Self)
        ensures
            r.kind == self.kind,
            r.attributes@ == self.attributes@,
    {
        let mut attributes: Vec<(String, String)> = Vec::new();
        let mut i: usize = 0;
        while i < self.attributes.len()
            invariant
                i <= self.attributes@.len(),
                attributes@ =~= self.attributes@.subrange(0, i as int),
            decreases self.attributes@.len() - i,
        {
            let pair = (self.attributes[i].0.clone(), self.attributes[i].1.clone());
            attributes.push(pair);
            i = i + 1;
            assert(attributes@ =~= self.attributes@.subrange(0, i as int));
        }
        assert(attributes@ =~= self.attributes@);
        BadgeSpec { kind: self.kind.clone(), attributes }
    }
}

/// Copies a feature map; the copy's view is the original's.
pub fn clone_features(v: &Vec<(String, Vec<String>)>) -> (r: Vec<(String, Vec<String>)>)
    ensures
        r@.len() == v@.len(),
        forall|i: int|
            0 <= i < v@.len() ==> (#[trigger] r@[i]).0 == v@[i].0 && r@[i].1@ == v@[i].1@,
{
    let mut r: Vec<(String, Vec<String>)> = Vec::new();
    let mut i: usize = 0;
    while i < v.len()
        invariant
            i <= v@.len(),
            r@.len() == i,
            forall|j: int|
                0 <= j < i ==> (#[trigger] r@[j]).0 == v@[j].0 && r@[j].1@ == v@[j].1@,
        decreases v@.len() - i,
    {
        let pair = (v[i].0.clone(), clone_string_vec(&v[i].1));
        r.push(pair);
        i = i + 1;
    }
    r
}

/// Absent, or present but empty.
pub open spec fn empty_opt(s: Option<String>) -> bool {
    match s {
        Option::None => true,
        Option::Some(x) => x@.len() == 0,
    }
}

/// The upload gives no description.
pub open spec fn missing_description(u: CrateUpload) -> bool {
    empty_opt(u.description)
}

/// The upload gives neither a license expression nor a license file.
pub open spec fn missing_license(u: CrateUpload) -> bool {
    empty_opt(u.license) && empty_opt(u.license_file)
}

/// Every author entry is empty (an empty list counts as missing).
pub open spec fn missing_authors(u: CrateUpload) -> bool {
    forall|i: int| 0 <= i < u.authors@.len() ==> u.authors@[i]@.len() == 0
}

/// All required fields are present.
pub open spec fn metadata_ok(u: CrateUpload) -> bool {
    !missing_description(u) && !missing_license(u) && !missing_authors(u)
}

/// The names of the missing required fields, in the order they are checked.
pub open spec fn missing_fields(u: CrateUpload) -> Seq<Seq<char>> {
    (if missing_description(u) {
        seq!["description"@]
    } else {
        Seq::empty()
    }) + (if missing_license(u) {
        seq!["license"@]
    } else {
        Seq::empty()
    }) + (if missing_authors(u) {
        seq!["authors"@]
    } else {
        Seq::empty()
    })
}

/// Pieces joined with a separator.
pub open spec fn join_sep(items: Seq<Seq<char>>, sep: Seq<char>) -> Seq<char>
    decreases items.len(),
{
    if items.len() == 0 {
        Seq::empty()
    } else if items.len() == 1 {
        items[0]
    } else {
        items[0] + sep + join_sep(items.drop_first(), sep)
    }
}

/// Appending one piece extends a separated join at its end.
pub proof fn lemma_join_sep_snoc(items: Seq<Seq<char>>, sep: Seq<char>, x: Seq<char>)
    ensures
        join_sep(items.push(x), sep) == if items.len() == 0 {
            x
        } else {
            join_sep(items, sep) + sep + x
        },
    decreases items.len(),
{
    if items.len() == 0 {
        assert(items.push(x).len() == 1);
        assert(join_sep(items.push(x), sep) == items.push(x)[0]);
    } else {
        lemma_join_sep_snoc(items.drop_first(), sep, x);
        assert(items.push(x).drop_first() =~= items.drop_first().push(x));
        if items.len() == 1 {
            assert(items.drop_first().len() == 0);
            assert(join_sep(items.push(x), sep) == items[0] + sep + x);
            assert(join_sep(items, sep) == items[0]);
        } else {
            assert(join_sep(items.push(x), sep) == items[0] + sep + join_sep(
                items.drop_first().push(x),
                sep,
            ));
            assert(join_sep(items.drop_first().push(x), sep) == join_sep(items.drop_first(), sep)
                + sep + x);
            assert((items[0] + sep + (join_sep(items.drop_first(), sep) + sep + x)) =~= (items[0]
                + sep + join_sep(items.drop_first(), sep)) + sep + x);
        }
    }
}

/// The combined message naming every missing required field.
pub open spec fn missing_msg(u: CrateUpload) -> Seq<char> {
    "missing or empty metadata fields: "@ + join_sep(missing_fields(u), ", "@)
        + ". Please see https://doc.rust-lang.org/cargo/reference/manifest.html for how to upload metadata"@
}

fn any_author_nonempty(authors: &Vec<String>) -> (r: bool)
    ensures
        r == exists|i: int| 0 <= i < authors@.len() && authors@[i]@.len() != 0,
{
    let n = authors.len();
    let mut i: usize = 0;
    while i < n
        invariant
            n == authors@.len(),
            i <= n,
            forall|j: int| 0 <= j < i ==> authors@[j]@.len() == 0,
        decreases n - i,
    {
        if authors[i].as_str().unicode_len() != 0 {
            return true;
        }
        i = i + 1;
    }
    false
}

fn opt_is_empty(s: &Option<String>) -> (r: bool)
    ensures
        r == empty_opt(*s),
{
    match s {
        None => true,
        Some(x) => x.as_str().unicode_len() == 0,
    }
}

/// Checks the required metadata fields, reporting every missing one —
/// description, license (or license file) and authors — in one combined
/// `BadRequest`; a complete upload passes unchanged.
pub fn validate_metadata(u: &CrateUpload) -> (r: Result<(), PublishError>)
    ensures
        (r is Ok) == metadata_ok(*u),
        r is Err ==> (r->Err_0 matches PublishError::BadRequest(m) && m@ == missing_msg(*u)),
{
    let miss_desc = opt_is_empty(&u.description);
    let miss_lic = opt_is_empty(&u.license) && opt_is_empty(&u.license_file);
    let miss_auth = !any_author_nonempty(&u.authors);
    if !miss_desc && !miss_lic && !miss_auth {
        return Ok(());
    }
    let mut out: Vec<char> = Vec::new();
    push_str_chars(&mut out, "missing or empty metadata fields: ");
    let mut first = true;
    if miss_desc {
        push_str_chars(&mut out, "description");
        first = false;
    }
    if miss_lic {
        if !first {
            push_str_chars(&mut out, ", ");
        }
        push_str_chars(&mut out, "license");
        first = false;
    }
    if miss_auth {
        if !first {
            push_str_chars(&mut out, ", ");
        }
        push_str_chars(&mut out, "authors");
    }
    proof {
        reveal_with_fuel(join_sep, 4);
        let fields = missing_fields(*u);
        if miss_desc {
            if miss_lic {
                if miss_auth {
                    assert(fields =~= seq!["description"@, "license"@, "authors"@]);
                    assert(fields.drop_first() =~= seq!["license"@, "authors"@]);
                    assert(fields.drop_first().drop_first() =~= seq!["authors"@]);
                } else {
                    assert(fields =~= seq!["description"@, "license"@]);
                    assert(fields.drop_first() =~= seq!["license"@]);
                }
            } else {
                if miss_auth {
                    assert(fields =~= seq!["description"@, "authors"@]);
                    assert(fields.drop_first() =~= seq!["authors"@]);
                } else {
                    assert(fields =~= seq!["description"@]);
                }
            }
        } else {
            if miss_lic {
                if miss_auth {
                    assert(fields =~= seq!["license"@, "authors"@]);
                    assert(fields.drop_first() =~= seq!["authors"@]);
                } else {
                    assert(fields =~= seq!["license"@]);
                }
            } else {
                assert(fields =~= seq!["authors"@]);
            }
        }
        assert(out@ =~= "missing or empty metadata fields: "@ + join_sep(fields, ", "@));
    }
    push_str_chars(
        &mut out,
        ". Please see https://doc.rust-lang.org/cargo/reference/manifest.html for how to upload metadata",
    );
    assert(out@ =~= missing_msg(*u));
    Err(PublishError::BadRequest(chars_to_string(&out)))
}

/// The `BadRequest` that wraps a metadata-parse failure, surfacing the
/// underlying parse error verbatim.
pub fn invalid_upload_error(detail: &str) -> (r: PublishError)
    ensures
        r matches PublishError::BadRequest(m) && m@ == "invalid upload request: "@ + detail@,
{
    let mut out: Vec<char> = Vec::new();
    push_str_chars(&mut out, "invalid upload request: ");
    push_str_chars(&mut out, detail);
    PublishError::BadRequest(chars_to_string(&out))
}

} // verus!
