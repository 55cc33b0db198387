//! The content blob store, modelled as a key/value table, with the
//! checksum over archive bytes and the rollback guard that compensates a
//! failed publish.
//!
//! The store counts every upload attempt, so callers can show that a
//! rejected request never reached it.

use vstd::prelude::*;

use crate::errors::PublishError;
use crate::text::{chars_to_string, push_str_chars};

verus! {

/// The SHA-256 digest of a byte sequence, as openssl computes it.
pub uninterp spec fn sha256_of(data: Seq<u8>) -> Seq<u8>;

/// Relies on `openssl::hash::hash` with `MessageDigest::sha256()`: the
/// digest depends on the bytes alone and is 32 bytes long.
#[verifier::external_body]
fn sha256_digest(data: &[u8]) -> (r: Option<Vec<u8>>)
    ensures
        r matches Option::Some(d) ==> d@ == sha256_of(data@) && d@.len() == 32,
{
    match openssl::hash::hash(openssl::hash::MessageDigest::sha256(), data) {
        Ok(d) => Some(d.to_vec()),
        Err(_) => None,
    }
}

/// Each byte as two lower-case hexadecimal digits, in order.
pub open spec fn hex_of(b: Seq<u8>) -> Seq<char>
    decreases b.len(),
{
    if b.len() == 0 {
        Seq::empty()
    } else {
        hex_of(b.drop_last()) + seq![
            crate::json::hex_digit((b.last() / 16) as nat),
            crate::json::hex_digit((b.last() % 16) as nat),
        ]
    }
}

/// Each byte as two lower-case hexadecimal digits, built digit by digit.
fn hex_encode(b: &[u8]) -> (r: String)
    ensures
        r@ == hex_of(b@),
{
    let n = b.len();
    let mut out: Vec<char> = Vec::new();
    let mut i: usize = 0;
    while i < n
        invariant
            n == b@.len(),
            i <= n,
            out@ == hex_of(b@.subrange(0, i as int)),
        decreases n - i,
    {
        let byte = b[i];
        out.push(crate::json::hex_digit_char(byte / 16));
        out.push(crate::json::hex_digit_char(byte % 16));
        proof {
            assert(b@.subrange(0, (i + 1) as int).drop_last() =~= b@.subrange(0, i as int));
            assert(b@.subrange(0, (i + 1) as int).last() == b@[i as int]);
            assert(out@ =~= hex_of(b@.subrange(0, (i + 1) as int)));
        }
        i = i + 1;
    }
    proof {
        assert(b@.subrange(0, n as int) =~= b@);
    }
    chars_to_string(&out)
}

/// The hexadecimal SHA-256 checksum of the bytes, or nothing if the digest
/// backend fails.
pub fn checksum_hex(data: &[u8]) -> (r: Option<String>)
    ensures
        r matches Option::Some(s) ==> s@ == hex_of(sha256_of(data@)),
{
    match sha256_digest(data) {
        Some(d) => Some(hex_encode(d.as_slice())),
        None => None,
    }
}

/// The blob store as plain values: its contents, how many uploads were
/// attempted, and whether the backing service answers.
pub ghost struct BlobStoreV {
    pub blobs: Seq<(Seq<char>, Seq<u8>)>,
    pub put_count: u64,
    pub available: bool,
}

/// The content blob store. `available` models the backing service: when it
/// is down every upload fails and nothing is stored.
#[derive(Debug)]
pub struct BlobStore {
    pub blobs: Vec<(String, Vec<u8>)>,
    pub put_count: u64,
    pub available: bool,
}

impl View for BlobStore {
    type V = BlobStoreV;

    open spec fn view(&self) -> BlobStoreV {
        BlobStoreV {
            blobs: self.blobs@.map_values(|p: (String, Vec<u8>)| (p.0@, p.1@)),
            put_count: self.put_count,
            available: self.available,
        }
    }
}

/// The store's contents with every blob under this key removed.
pub open spec fn without_key(blobs: Seq<(Seq<char>, Seq<u8>)>, key: Seq<char>) -> Seq<
    (Seq<char>, Seq<u8>),
> {
    blobs.filter(|p: (Seq<char>, Seq<u8>)| p.0 != key)
}

/// A blob with this key and exactly these bytes is stored.
pub open spec fn has_blob(s: BlobStoreV, key: Seq<char>, data: Seq<u8>) -> bool {
    exists|i: int|
        0 <= i < s.blobs.len() && (#[trigger] s.blobs[i]).0 == key && s.blobs[i].1 == data
}

impl BlobStore {
    /// An empty store; `available` says whether uploads will succeed.
    pub fn new(available: bool) -> (r: BlobStore)
        ensures
            r@.blobs.len() == 0,
            r@.put_count == 0,
            r@.available == available,
    {
        BlobStore { blobs: Vec::new(), put_count: 0, available }
    }

    /// Uploads a blob under a key, replacing any blob that key held. Every
    /// call counts as one attempt; when the service is down the attempt
    /// fails and the contents are unchanged.
    pub fn put(&mut self, key: &String, content: &Vec<u8>) -> (r: Result<(), PublishError>)
        requires
            old(self)@.put_count < 0xFFFF_FFFF_FFFF_FFFFu64,
        ensures
            final(self)@.put_count == old(self)@.put_count + 1,
            final(self)@.available == old(self)@.available,
            (r is Ok) == old(self)@.available,
            r is Ok ==> final(self)@.blobs == without_key(old(self)@.blobs, key@).push(
                (key@, content@),
            ),
            r is Err ==> final(self)@.blobs == old(self)@.blobs && (r->Err_0 matches
                PublishError::ServerError(_)),
    {
        self.put_count = self.put_count + 1;
        if !self.available {
            let mut out: Vec<char> = Vec::new();
            push_str_chars(&mut out, "the blob store refused the upload");
            return Err(PublishError::ServerError(chars_to_string(&out)));
        }
        let mut kept: Vec<(String, Vec<u8>)> = Vec::new();
        let n = self.blobs.len();
        let mut i: usize = 0;
        while i < n
            invariant
                n == self.blobs@.len(),
                i <= n,
                self.blobs == old(self).blobs,
                kept@.map_values(|p: (String, Vec<u8>)| (p.0@, p.1@)) =~= self@.blobs.subrange(
                    0,
                    i as int,
                ).filter(|p: (Seq<char>, Seq<u8>)| p.0 != key@),
            decreases n - i,
        {
            proof {
                reveal(Seq::filter);
                let pref = self@.blobs.subrange(0, i as int);
                let prefx = self@.blobs.subrange(0, (i + 1) as int);
                assert(prefx.drop_last() =~= pref);
                assert(prefx.last() == self@.blobs[i as int]);
            }
            if !self.blobs[i].0.eq(key) {
                let pair = (self.blobs[i].0.clone(), crate::blob::clone_bytes(&self.blobs[i].1));
                kept.push(pair);
            }
            i = i + 1;
        }
        proof {
            assert(self@.blobs.subrange(0, n as int) =~= self@.blobs);
        }
        kept.push((key.clone(), clone_bytes(content)));
        self.blobs = kept;
        proof {
            assert(self@.blobs =~= without_key(old(self)@.blobs, key@).push((key@, content@)));
        }
        Ok(())
    }

    /// Deletes whatever the key holds; the compensating action of the
    /// rollback guard.
    pub fn delete(&mut self, key: &String)
        ensures
            final(self)@.blobs == without_key(old(self)@.blobs, key@),
            final(self)@.put_count == old(self)@.put_count,
            final(self)@.available == old(self)@.available,
    {
        let mut kept: Vec<(String, Vec<u8>)> = Vec::new();
        let n = self.blobs.len();
        let mut i: usize = 0;
        while i < n
            invariant
                n == self.blobs@.len(),
                i <= n,
                self.blobs == old(self).blobs,
                kept@.map_values(|p: (String, Vec<u8>)| (p.0@, p.1@)) =~= self@.blobs.subrange(
                    0,
                    i as int,
                ).filter(|p: (Seq<char>, Seq<u8>)| p.0 != key@),
            decreases n - i,
        {
            proof {
                reveal(Seq::filter);
                let pref = self@.blobs.subrange(0, i as int);
                let prefx = self@.blobs.subrange(0, (i + 1) as int);
                assert(prefx.drop_last() =~= pref);
                assert(prefx.last() == self@.blobs[i as int]);
            }
            if !self.blobs[i].0.eq(key) {
                let pair = (self.blobs[i].0.clone(), clone_bytes(&self.blobs[i].1));
                kept.push(pair);
            }
            i = i + 1;
        }
        proof {
            assert(self@.blobs.subrange(0, n as int) =~= self@.blobs);
        }
        self.blobs = kept;
        proof {
            assert(self@.blobs =~= without_key(old(self)@.blobs, key@));
        }
    }

    /// The bytes stored under a key, if any blob carries it.
    pub fn get(&self, key: &String) -> (r: Option<&Vec<u8>>)
        ensures
            r matches Option::Some(d) ==> has_blob(self@, key@, d@),
            r is None ==> forall|d: Seq<u8>| !has_blob(self@, key@, d),
    {
        let n = self.blobs.len();
        let mut i: usize = 0;
        while i < n
            invariant
                n == self.blobs@.len(),
                i <= n,
                forall|j: int| 0 <= j < i ==> (#[trigger] self@.blobs[j]).0 != key@,
            decreases n - i,
        {
            if self.blobs[i].0.eq(key) {
                assert((#[trigger] self@.blobs[i as int]).0 == key@);
                return Some(&self.blobs[i].1);
            }
            i = i + 1;
        }
        None
    }
}

/// Copies a byte vector.
pub fn clone_bytes(v: &Vec<u8>) -> (r: Vec<u8>)
    ensures
        r@ == v@,
{
    let mut r: Vec<u8> = Vec::new();
    let mut i: usize = 0;
    while i < v.len()
        invariant
            i <= v@.len(),
            r@ =~= v@.subrange(0, i as int),
        decreases v@.len() - i,
    {
        r.push(v[i]);
        i = i + 1;
        assert(r@ =~= v@.subrange(0, i as int));
    }
    assert(r@ =~= v@);
    r
}

/// The blob key of a version's archive.
pub open spec fn crate_blob_key(name: Seq<char>, vers: Seq<char>) -> Seq<char> {
    "crates/"@ + name + "/"@ + name + "-"@ + vers + ".crate"@
}

/// The blob key of a version's rendered readme.
pub open spec fn readme_blob_key(name: Seq<char>, vers: Seq<char>) -> Seq<char> {
    "readmes/"@ + name + "/"@ + name + "-"@ + vers + ".html"@
}

/// Builds the archive key of a version.
pub fn crate_key(name: &str, vers: &str) -> (r: String)
    ensures
        r@ == crate_blob_key(name@, vers@),
{
    let mut out: Vec<char> = Vec::new();
    push_str_chars(&mut out, "crates/");
    push_str_chars(&mut out, name);
    push_str_chars(&mut out, "/");
    push_str_chars(&mut out, name);
    push_str_chars(&mut out, "-");
    push_str_chars(&mut out, vers);
    push_str_chars(&mut out, ".crate");
    assert(out@ =~= crate_blob_key(name@, vers@));
    chars_to_string(&out)
}

/// Builds the readme key of a version.
pub fn readme_key(name: &str, vers: &str) -> (r: String)
    ensures
        r@ == readme_blob_key(name@, vers@),
{
    let mut out: Vec<char> = Vec::new();
    push_str_chars(&mut out, "readmes/");
    push_str_chars(&mut out, name);
    push_str_chars(&mut out, "/");
    push_str_chars(&mut out, name);
    push_str_chars(&mut out, "-");
    push_str_chars(&mut out, vers);
    push_str_chars(&mut out, ".html");
    assert(out@ =~= readme_blob_key(name@, vers@));
    chars_to_string(&out)
}

/// A scoped compensating action: unless disarmed, its holder deletes the
/// uploaded blob on every non-success path.
#[derive(Debug)]
pub struct RollbackGuard {
    pub key: String,
    pub armed: bool,
}

impl RollbackGuard {
    /// A guard armed for the blob under `key`.
    pub fn new(key: String) -> (r: RollbackGuard)
        ensures
            r.key == key,
            r.armed,
    {
        RollbackGuard { key, armed: true }
    }

    /// Releases the guard: the blob is kept.
    pub fn disarm(&mut self)
        ensures
            !final(self).armed,
            final(self).key == old(self).key,
    {
        self.armed = false;
    }

    /// Runs the compensating action: deletes the guarded blob if the guard
    /// is still armed, and leaves the store alone otherwise.
    pub fn fire(&self, blobs: &mut BlobStore)
        ensures
            final(blobs)@.blobs == if self.armed {
                without_key(old(blobs)@.blobs, self.key@)
            } else {
                old(blobs)@.blobs
            },
            final(blobs)@.put_count == old(blobs)@.put_count,
            final(blobs)@.available == old(blobs)@.available,
    {
        if self.armed {
            blobs.delete(&self.key);
        }
    }
}

} // verus!
