//! Building signed S3 requests for the content blob store.
//!
//! The library computes everything about a request — host, URL, date and
//! `Authorization` header with its HMAC-SHA1 signature — as plain values;
//! performing the transfer is the caller's side of the split.

use vstd::prelude::*;

use vstd::utf8::encode_utf8;

use crate::text::{chars_to_string, push_str_chars};

verus! {

/// The HMAC-SHA1 of a message under a key, as openssl computes it. Depends
/// on the two byte sequences alone.
pub uninterp spec fn hmac_sha1_of(key: Seq<u8>, msg: Seq<u8>) -> Seq<u8>;

/// Relies on openssl's `PKey::hmac` and `Signer` with `MessageDigest::sha1()`:
/// the signature depends on the key and message bytes alone. `PKey::hmac`
/// asserts that the key length fits the backend's signed 32-bit count, so a
/// longer key is kept out by the precondition.
#[verifier::external_body]
fn hmac_sha1(key: &[u8], msg: &[u8]) -> (r: Option<Vec<u8>>)
    requires
        key@.len() <= 0x7FFF_FFFF,
    ensures
        r matches Option::Some(d) ==> d@ == hmac_sha1_of(key@, msg@),
{
    let pkey = openssl::pkey::PKey::hmac(key).ok()?;
    let mut signer = openssl::sign::Signer::new(openssl::hash::MessageDigest::sha1(), &pkey).ok()?;
    signer.update(msg).ok()?;
    signer.sign_to_vec().ok()
}

/// The standard base64 encoding of a byte sequence, as the `base64` crate
/// computes it. Depends on the bytes alone.
pub uninterp spec fn base64_of(data: Seq<u8>) -> Seq<char>;

/// Relies on `base64::encode`: the standard-alphabet, padded encoding
/// depends on the bytes alone.
#[verifier::external_body]
fn base64_encode(data: &[u8]) -> (r: String)
    ensures
        r@ == base64_of(data@),
{
    base64::encode(data)
}

/// One bucket of the blob store and the credentials to sign requests for
/// it.
#[derive(Debug)]
pub struct Bucket {
    pub name: String,
    pub region: Option<String>,
    pub access_key: String,
    pub secret_key: String,
    pub proto: String,
}

/// A fully prepared request against the blob store: everything but the
/// transfer itself.
#[derive(Debug)]
pub struct S3Request {
    pub method: String,
    pub url: String,
    pub headers: Vec<(String, String)>,
    pub content_length: Option<u64>,
}

/// The bucket's host name: the bucket, the `s3` service — with its region
/// when a non-empty one is set — and the provider domain.
pub open spec fn host_of(name: Seq<char>, region: Option<Seq<char>>) -> Seq<char> {
    name + ".s3"@ + (match region {
        Option::Some(r) => if r.len() > 0 {
            "-"@ + r
        } else {
            Seq::<char>::empty()
        },
        Option::None => Seq::<char>::empty(),
    }) + ".amazonaws.com"@
}

/// A path with its one leading slash removed.
pub open spec fn trim_slash(p: Seq<char>) -> Seq<char> {
    if p.len() > 0 && p[0] == '/' {
        p.drop_first()
    } else {
        p
    }
}

/// The canonical string the request signature is computed over.
pub open spec fn string_to_sign_of(
    verb: Seq<char>,
    md5: Seq<char>,
    content_type: Seq<char>,
    date: Seq<char>,
    bucket: Seq<char>,
    path: Seq<char>,
) -> Seq<char> {
    verb + "\n"@ + md5 + "\n"@ + content_type + "\n"@ + date + "\n"@ + "/"@ + bucket + "/"@ + path
}

/// The `Authorization` header value: the access key and the base64 HMAC-SHA1
/// signature of the canonical string under the secret key.
pub open spec fn auth_of(
    access_key: Seq<char>,
    secret_key: Seq<char>,
    verb: Seq<char>,
    md5: Seq<char>,
    content_type: Seq<char>,
    date: Seq<char>,
    bucket: Seq<char>,
    path: Seq<char>,
) -> Seq<char> {
    "AWS "@ + access_key + ":"@ + base64_of(
        hmac_sha1_of(
            encode_utf8(secret_key),
            encode_utf8(string_to_sign_of(verb, md5, content_type, date, bucket, path)),
        ),
    )
}

impl Bucket {
    pub fn new(
        name: String,
        region: Option<String>,
        access_key: String,
        secret_key: String,
        proto: &str,
    ) -> (r: Bucket)
        ensures
            r.name == name,
            r.region == region,
            r.access_key == access_key,
            r.secret_key == secret_key,
            r.proto@ == proto@,
    {
        let mut p: Vec<char> = Vec::new();
        push_str_chars(&mut p, proto);
        Bucket { name, region, access_key, secret_key, proto: chars_to_string(&p) }
    }

    /// The bucket's host name.
    pub fn host(&self) -> (r: String)
        ensures
            r@ == host_of(self.name@, crate::store::opt_view(self.region)),
    {
        let mut out: Vec<char> = Vec::new();
        push_str_chars(&mut out, self.name.as_str());
        push_str_chars(&mut out, ".s3");
        match &self.region {
            Some(reg) => {
                if reg.as_str().unicode_len() > 0 {
                    push_str_chars(&mut out, "-");
                    push_str_chars(&mut out, reg.as_str());
                }
            },
            None => {},
        }
        push_str_chars(&mut out, ".amazonaws.com");
        assert(out@ =~= host_of(self.name@, crate::store::opt_view(self.region)));
        chars_to_string(&out)
    }

    /// The `Authorization` header value for one request, or nothing when
    /// the secret key is too long for the signing backend or signing
    /// itself fails.
    fn auth(&self, verb: &str, date: &str, path: &str, md5: &str, content_type: &str) -> (r:
        Option<String>)
        ensures
            r matches Option::Some(s) ==> s@ == auth_of(
                self.access_key@,
                self.secret_key@,
                verb@,
                md5@,
                content_type@,
                date@,
                self.name@,
                path@,
            ),
    {
        let mut sts: Vec<char> = Vec::new();
        push_str_chars(&mut sts, verb);
        push_str_chars(&mut sts, "\n");
        push_str_chars(&mut sts, md5);
        push_str_chars(&mut sts, "\n");
        push_str_chars(&mut sts, content_type);
        push_str_chars(&mut sts, "\n");
        push_str_chars(&mut sts, date);
        push_str_chars(&mut sts, "\n");
        push_str_chars(&mut sts, "/");
        push_str_chars(&mut sts, self.name.as_str());
        push_str_chars(&mut sts, "/");
        push_str_chars(&mut sts, path);
        assert(sts@ =~= string_to_sign_of(verb@, md5@, content_type@, date@, self.name@, path@));
        let sts_str = chars_to_string(&sts);
        let key_bytes = self.secret_key.as_str().as_bytes();
        if key_bytes.len() > 0x7FFF_FFFF {
            return None;
        }
        let signature = match hmac_sha1(key_bytes, sts_str.as_str().as_bytes()) {
            Some(sig) => sig,
            None => {
                return None;
            },
        };
        let sig64 = base64_encode(signature.as_slice());
        let mut out: Vec<char> = Vec::new();
        push_str_chars(&mut out, "AWS ");
        push_str_chars(&mut out, self.access_key.as_str());
        push_str_chars(&mut out, ":");
        push_str_chars(&mut out, sig64.as_str());
        assert(out@ =~= auth_of(
            self.access_key@,
            self.secret_key@,
            verb@,
            md5@,
            content_type@,
            date@,
            self.name@,
            path@,
        ));
        Some(chars_to_string(&out))
    }

    /// Strips one leading slash.
    fn trim_path<'a>(&self, path: &'a str) -> (r: &'a str)
        ensures
            r@ == trim_slash(path@),
    {
        if path.unicode_len() > 0 && path.get_char(0) == '/' {
            let r = path.substring_char(1, path.unicode_len());
            assert(r@ =~= trim_slash(path@));
            r
        } else {
            path
        }
    }

    /// The URL a request addresses the path under.
    fn url_for(&self, host: &str, path: &str) -> (r: String)
        ensures
            r@ == self.proto@ + "://"@ + host@ + "/"@ + path@,
    {
        let mut out: Vec<char> = Vec::new();
        push_str_chars(&mut out, self.proto.as_str());
        push_str_chars(&mut out, "://");
        push_str_chars(&mut out, host);
        push_str_chars(&mut out, "/");
        push_str_chars(&mut out, path);
        assert(out@ =~= self.proto@ + "://"@ + host@ + "/"@ + path@);
        chars_to_string(&out)
    }

    fn header(&self, name: &str, value: &str) -> (r: (String, String))
        ensures
            r.0@ == name@,
            r.1@ == value@,
    {
        let mut n: Vec<char> = Vec::new();
        push_str_chars(&mut n, name);
        let mut v: Vec<char> = Vec::new();
        push_str_chars(&mut v, value);
        (chars_to_string(&n), chars_to_string(&v))
    }

    /// The prepared upload of a blob: the PUT's URL and its host, date,
    /// authorization, content-type and expectation headers, or nothing when
    /// the signing backend fails.
    pub fn put_request(
        &self,
        path: &str,
        content_type: &str,
        content_length: u64,
        date: &str,
    ) -> (r: Option<S3Request>)
        ensures
            r matches Option::Some(q) ==> ({
                let p = trim_slash(path@);
                let host = host_of(self.name@, crate::store::opt_view(self.region));
                &&& q.method@ == "PUT"@
                &&& q.url@ == self.proto@ + "://"@ + host + "/"@ + p
                &&& q.content_length == Option::Some(content_length)
                &&& crate::store::pairs_str_view(q.headers@) == seq![
                    ("Host"@, host),
                    ("Date"@, date@),
                    (
                        "Authorization"@,
                        auth_of(
                            self.access_key@,
                            self.secret_key@,
                            "PUT"@,
                            ""@,
                            content_type@,
                            date@,
                            self.name@,
                            p,
                        ),
                    ),
                    ("Content-Type"@, content_type@),
                    ("Expect"@, ""@),
                ]
            }),
    {
        let tpath = self.trim_path(path);
        let host = self.host();
        let auth = match self.auth("PUT", date, tpath, "", content_type) {
            Some(a) => a,
            None => {
                return None;
            },
        };
        let url = self.url_for(host.as_str(), tpath);
        let mut headers: Vec<(String, String)> = Vec::new();
        headers.push(self.header("Host", host.as_str()));
        headers.push(self.header("Date", date));
        headers.push(self.header("Authorization", auth.as_str()));
        headers.push(self.header("Content-Type", content_type));
        headers.push(self.header("Expect", ""));
        let mut m: Vec<char> = Vec::new();
        push_str_chars(&mut m, "PUT");
        let r = S3Request {
            method: chars_to_string(&m),
            url,
            headers,
            content_length: Some(content_length),
        };
        proof {
            assert(crate::store::pairs_str_view(r.headers@) =~~= seq![
                ("Host"@, host_of(self.name@, crate::store::opt_view(self.region))),
                ("Date"@, date@),
                (
                    "Authorization"@,
                    auth_of(
                        self.access_key@,
                        self.secret_key@,
                        "PUT"@,
                        ""@,
                        content_type@,
                        date@,
                        self.name@,
                        trim_slash(path@),
                    ),
                ),
                ("Content-Type"@, content_type@),
                ("Expect"@, ""@),
            ]);
        }
        Some(r)
    }

    /// The prepared deletion of a blob: the DELETE's URL and its host, date
    /// and authorization headers, or nothing when the signing backend
    /// fails.
    pub fn delete_request(&self, path: &str, date: &str) -> (r: Option<S3Request>)
        ensures
            r matches Option::Some(q) ==> ({
                let p = trim_slash(path@);
                let host = host_of(self.name@, crate::store::opt_view(self.region));
                &&& q.method@ == "DELETE"@
                &&& q.url@ == self.proto@ + "://"@ + host + "/"@ + p
                &&& q.content_length is None
                &&& crate::store::pairs_str_view(q.headers@) == seq![
                    ("Host"@, host),
                    ("Date"@, date@),
                    (
                        "Authorization"@,
                        auth_of(
                            self.access_key@,
                            self.secret_key@,
                            "DELETE"@,
                            ""@,
                            ""@,
                            date@,
                            self.name@,
                            p,
                        ),
                    ),
                ]
            }),
    {
        let tpath = self.trim_path(path);
        let host = self.host();
        let auth = match self.auth("DELETE", date, tpath, "", "") {
            Some(a) => a,
            None => {
                return None;
            },
        };
        let url = self.url_for(host.as_str(), tpath);
        let mut headers: Vec<(String, String)> = Vec::new();
        headers.push(self.header("Host", host.as_str()));
        headers.push(self.header("Date", date));
        headers.push(self.header("Authorization", auth.as_str()));
        let mut m: Vec<char> = Vec::new();
        push_str_chars(&mut m, "DELETE");
        let r = S3Request { method: chars_to_string(&m), url, headers, content_length: None };
        proof {
            assert(crate::store::pairs_str_view(r.headers@) =~~= seq![
                ("Host"@, host_of(self.name@, crate::store::opt_view(self.region))),
                ("Date"@, date@),
                (
                    "Authorization"@,
                    auth_of(
                        self.access_key@,
                        self.secret_key@,
                        "DELETE"@,
                        ""@,
                        ""@,
                        date@,
                        self.name@,
                        trim_slash(path@),
                    ),
                ),
            ]);
        }
        Some(r)
    }
}

} // verus!
