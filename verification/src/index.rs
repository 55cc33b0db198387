//! The append-only index log and the entry line a publish appends.
//!
//! The log is the durable source of truth for resolvers: one JSON line per
//! published version, holding the name, the version string, the content
//! checksum, the feature map, the resolved dependency list, the yanked flag
//! and the linked-library name. A publish appends exactly one line; nothing
//! ever rewrites one.

use vstd::prelude::*;

use crate::json::{
    features_view, json_bool_of, json_features_of, json_opt_str_of, json_str_of, push_json_bool,
    push_json_features, push_json_opt_str, push_json_str, push_json_str_array, views_of,
    json_str_array_of,
};
use crate::store::opt_view;
use crate::text::{chars_to_string, push_str_chars};
use crate::upload::CrateDependency;

verus! {

/// The failure of an index-log append.
#[derive(Debug)]
pub struct IndexError;

/// The index log as plain values: the appended (package, line) records in
/// order, and whether the backing log answers.
pub ghost struct IndexLogV {
    pub entries: Seq<(Seq<char>, Seq<char>)>,
    pub available: bool,
}

/// The append-only index log. `available` models the external log: when it
/// is down every append fails and nothing is recorded.
#[derive(Debug)]
pub struct IndexLog {
    pub entries: Vec<(String, String)>,
    pub available: bool,
}

impl View for IndexLog {
    type V = IndexLogV;

    open spec fn view(&self) -> IndexLogV {
        IndexLogV {
            entries: self.entries@.map_values(|p: (String, String)| (p.0@, p.1@)),
            available: self.available,
        }
    }
}

impl IndexLog {
    /// An empty log; `available` says whether appends will succeed.
    pub fn new(available: bool) -> (r: IndexLog)
        ensures
            r@.entries.len() == 0,
            r@.available == available,
    {
        IndexLog { entries: Vec::new(), available }
    }

    /// Appends one entry line for a package. When the log is down the
    /// append fails and the log is unchanged — the caller must then unwind
    /// everything the publish has done.
    pub fn append(&mut self, name: &String, line: String) -> (r: Result<(), IndexError>)
        ensures
            final(self)@.available == old(self)@.available,
            (r is Ok) == old(self)@.available,
            r is Ok ==> final(self)@.entries == old(self)@.entries.push((name@, line@)),
            r is Err ==> final(self)@.entries == old(self)@.entries,
    {
        if !self.available {
            return Err(IndexError);
        }
        let ghost ep = self@.entries;
        let pair = (name.clone(), line);
        self.entries.push(pair);
        proof {
            assert(self@.entries =~= ep.push((name@, pair.1@)));
        }
        Ok(())
    }
}

/// The first half of a dependency's index JSON: its (possibly renamed)
/// name, requirement, features and flags.
pub open spec fn index_dep_head_of(d: CrateDependency) -> Seq<char> {
    "{\"name\":"@ + json_str_of(
        match opt_view(d.explicit_name_in_toml) {
            Option::Some(n) => n,
            Option::None => d.name@,
        },
    ) + ",\"req\":"@ + json_str_of(d.version_req@) + ",\"features\":"@ + json_str_array_of(
        views_of(d.features@),
    ) + ",\"optional\":"@ + json_bool_of(d.optional) + ",\"default_features\":"@ + json_bool_of(
        d.default_features,
    )
}

/// The second half of a dependency's index JSON: target, kind, registry,
/// and — for a renamed dependency — the original package name.
pub open spec fn index_dep_tail_of(d: CrateDependency) -> Seq<char> {
    ",\"target\":"@ + json_opt_str_of(opt_view(d.target)) + ",\"kind\":"@ + json_opt_str_of(
        opt_view(d.kind),
    ) + ",\"registry\":"@ + json_opt_str_of(opt_view(d.registry)) + ",\"package\":"@
        + json_opt_str_of(
        match opt_view(d.explicit_name_in_toml) {
            Option::Some(_) => Option::Some(d.name@),
            Option::None => Option::None,
        },
    ) + "}"@
}

/// The JSON of one dependency in an index entry: a renamed dependency
/// appears under its new name and carries the original package name.
pub open spec fn index_dep_of(d: CrateDependency) -> Seq<char> {
    index_dep_head_of(d) + index_dep_tail_of(d)
}

/// The JSON array of an index entry's dependencies.
pub open spec fn index_deps_of(deps: Seq<CrateDependency>) -> Seq<char> {
    seq!['['] + crate::json::join_comma(deps.map_values(|d: CrateDependency| index_dep_of(d)))
        + seq![']']
}

/// The one JSON line a publish appends for a version.
pub open spec fn index_line_of(
    name: Seq<char>,
    vers: Seq<char>,
    cksum: Seq<char>,
    features: Seq<(Seq<char>, Seq<Seq<char>>)>,
    deps: Seq<CrateDependency>,
    yanked: bool,
    links: Option<Seq<char>>,
) -> Seq<char> {
    "{\"name\":"@ + json_str_of(name) + ",\"vers\":"@ + json_str_of(vers) + ",\"cksum\":"@
        + json_str_of(cksum) + ",\"features\":"@ + json_features_of(features) + ",\"deps\":"@
        + index_deps_of(deps) + ",\"yanked\":"@ + json_bool_of(yanked) + ",\"links\":"@
        + json_opt_str_of(links) + "}"@
}

/// Appends the first half of one dependency's index JSON.
fn push_index_dep_head(out: &mut Vec<char>, d: &CrateDependency)
    ensures
        final(out)@ == old(out)@ + index_dep_head_of(*d),
{
    push_str_chars(out, "{\"name\":");
    match &d.explicit_name_in_toml {
        Some(n) => push_json_str(out, n.as_str()),
        None => push_json_str(out, d.name.as_str()),
    }
    push_str_chars(out, ",\"req\":");
    push_json_str(out, d.version_req.as_str());
    push_str_chars(out, ",\"features\":");
    push_json_str_array(out, &d.features);
    push_str_chars(out, ",\"optional\":");
    push_json_bool(out, d.optional);
    push_str_chars(out, ",\"default_features\":");
    push_json_bool(out, d.default_features);
    assert(out@ =~= old(out)@ + index_dep_head_of(*d));
}

/// Appends the second half of one dependency's index JSON.
fn push_index_dep_tail(out: &mut Vec<char>, d: &CrateDependency)
    ensures
        final(out)@ == old(out)@ + index_dep_tail_of(*d),
{
    push_str_chars(out, ",\"target\":");
    push_json_opt_str(out, &d.target);
    push_str_chars(out, ",\"kind\":");
    push_json_opt_str(out, &d.kind);
    push_str_chars(out, ",\"registry\":");
    push_json_opt_str(out, &d.registry);
    push_str_chars(out, ",\"package\":");
    match &d.explicit_name_in_toml {
        Some(_) => push_json_str(out, d.name.as_str()),
        None => push_str_chars(out, "null"),
    }
    push_str_chars(out, "}");
    assert(out@ =~= old(out)@ + index_dep_tail_of(*d));
}

/// Appends the JSON of one dependency.
fn push_index_dep(out: &mut Vec<char>, d: &CrateDependency)
    ensures
        final(out)@ == old(out)@ + index_dep_of(*d),
{
    push_index_dep_head(out, d);
    push_index_dep_tail(out, d);
    assert(out@ =~= old(out)@ + index_dep_of(*d));
}

/// Appends the JSON array of the dependencies.
fn push_index_deps(out: &mut Vec<char>, deps: &Vec<CrateDependency>)
    ensures
        final(out)@ == old(out)@ + index_deps_of(deps@),
{
    out.push('[');
    let n = deps.len();
    let mut i: usize = 0;
    while i < n
        invariant
            n == deps@.len(),
            i <= n,
            out@ == old(out)@ + seq!['['] + crate::json::join_comma(
                deps@.subrange(0, i as int).map_values(|d: CrateDependency| index_dep_of(d)),
            ),
        decreases n - i,
    {
        if i > 0 {
            out.push(',');
        }
        push_index_dep(out, &deps[i]);
        proof {
            let pref = deps@.subrange(0, i as int).map_values(
                |d: CrateDependency| index_dep_of(d),
            );
            let prefx = deps@.subrange(0, (i + 1) as int).map_values(
                |d: CrateDependency| index_dep_of(d),
            );
            assert(prefx =~= pref.push(index_dep_of(deps@[i as int])));
            crate::json::lemma_join_comma_snoc(pref, index_dep_of(deps@[i as int]));
            assert(out@ =~= old(out)@ + seq!['['] + crate::json::join_comma(prefx));
        }
        i = i + 1;
    }
    out.push(']');
    proof {
        assert(deps@.subrange(0, n as int) =~= deps@);
        assert(out@ =~= old(out)@ + index_deps_of(deps@));
    }
}

/// Builds the JSON line a publish appends for a version.
pub fn index_line(
    name: &str,
    vers: &str,
    cksum: &str,
    features: &Vec<(String, Vec<String>)>,
    deps: &Vec<CrateDependency>,
    yanked: bool,
    links: &Option<String>,
) -> (r: String)
    ensures
        r@ == index_line_of(
            name@,
            vers@,
            cksum@,
            features_view(features@),
            deps@,
            yanked,
            opt_view(*links),
        ),
{
    let mut out: Vec<char> = Vec::new();
    push_str_chars(&mut out, "{\"name\":");
    push_json_str(&mut out, name);
    push_str_chars(&mut out, ",\"vers\":");
    push_json_str(&mut out, vers);
    push_str_chars(&mut out, ",\"cksum\":");
    push_json_str(&mut out, cksum);
    push_str_chars(&mut out, ",\"features\":");
    push_json_features(&mut out, features);
    push_str_chars(&mut out, ",\"deps\":");
    push_index_deps(&mut out, deps);
    push_str_chars(&mut out, ",\"yanked\":");
    push_json_bool(&mut out, yanked);
    push_str_chars(&mut out, ",\"links\":");
    push_json_opt_str(&mut out, links);
    push_str_chars(&mut out, "}");
    assert(out@ =~= index_line_of(
        name@,
        vers@,
        cksum@,
        features_view(features@),
        deps@,
        yanked,
        opt_view(*links),
    ));
    chars_to_string(&out)
}

} // verus!
