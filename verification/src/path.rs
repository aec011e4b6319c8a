//! Paths of scan sources, local or with the scheme of a remote store.

use vstd::prelude::*;
use vstd::string::*;

verus! {

/// The schemes that name a store.
#[derive(Clone, Copy, Debug, PartialEq, Eq, Structural)]
pub enum CloudScheme {
    S3,
    S3a,
    Gs,
    Gcs,
    Az,
    Azure,
    Abfs,
    Abfss,
    Adl,
    Http,
    Https,
    Hf,
    File,
}

/// How a path of the scheme begins.
pub open spec fn scheme_prefix(s: CloudScheme) -> Seq<u8> {
    match s {
        CloudScheme::S3 => "s3://".spec_bytes(),
        CloudScheme::S3a => "s3a://".spec_bytes(),
        CloudScheme::Gs => "gs://".spec_bytes(),
        CloudScheme::Gcs => "gcs://".spec_bytes(),
        CloudScheme::Az => "az://".spec_bytes(),
        CloudScheme::Azure => "azure://".spec_bytes(),
        CloudScheme::Abfs => "abfs://".spec_bytes(),
        CloudScheme::Abfss => "abfss://".spec_bytes(),
        CloudScheme::Adl => "adl://".spec_bytes(),
        CloudScheme::Http => "http://".spec_bytes(),
        CloudScheme::Https => "https://".spec_bytes(),
        CloudScheme::Hf => "hf://".spec_bytes(),
        CloudScheme::File => "file://".spec_bytes(),
    }
}

/// `bytes` begins with `prefix`.
pub open spec fn has_prefix(bytes: Seq<u8>, prefix: Seq<u8>) -> bool {
    prefix.len() <= bytes.len() && bytes.subrange(0, prefix.len() as int) == prefix
}

/// The scheme that a path begins with, if it begins with one.
pub open spec fn spec_scheme(bytes: Seq<u8>) -> Option<CloudScheme> {
    if has_prefix(bytes, scheme_prefix(CloudScheme::S3)) {
        Some(CloudScheme::S3)
    } else if has_prefix(bytes, scheme_prefix(CloudScheme::S3a)) {
        Some(CloudScheme::S3a)
    } else if has_prefix(bytes, scheme_prefix(CloudScheme::Gs)) {
        Some(CloudScheme::Gs)
    } else if has_prefix(bytes, scheme_prefix(CloudScheme::Gcs)) {
        Some(CloudScheme::Gcs)
    } else if has_prefix(bytes, scheme_prefix(CloudScheme::Az)) {
        Some(CloudScheme::Az)
    } else if has_prefix(bytes, scheme_prefix(CloudScheme::Azure)) {
        Some(CloudScheme::Azure)
    } else if has_prefix(bytes, scheme_prefix(CloudScheme::Abfs)) {
        Some(CloudScheme::Abfs)
    } else if has_prefix(bytes, scheme_prefix(CloudScheme::Abfss)) {
        Some(CloudScheme::Abfss)
    } else if has_prefix(bytes, scheme_prefix(CloudScheme::Adl)) {
        Some(CloudScheme::Adl)
    } else if has_prefix(bytes, scheme_prefix(CloudScheme::Http)) {
        Some(CloudScheme::Http)
    } else if has_prefix(bytes, scheme_prefix(CloudScheme::Https)) {
        Some(CloudScheme::Https)
    } else if has_prefix(bytes, scheme_prefix(CloudScheme::Hf)) {
        Some(CloudScheme::Hf)
    } else if has_prefix(bytes, scheme_prefix(CloudScheme::File)) {
        Some(CloudScheme::File)
    } else {
        None
    }
}

fn starts_with(bytes: &[u8], prefix: &[u8]) -> (r: bool)
    ensures
        r == has_prefix(bytes@, prefix@),
{
    if prefix.len() > bytes.len() {
        return false;
    }
    let mut i: usize = 0;
    while i < prefix.len()
        invariant
            i <= prefix.len(),
            prefix.len() <= bytes.len(),
            bytes@.subrange(0, i as int) == prefix@.subrange(0, i as int),
        decreases prefix.len() - i,
    {
        if bytes[i] != prefix[i] {
            assert(bytes@.subrange(0, prefix.len() as int)[i as int] != prefix@[i as int]);
            return false;
        }
        assert(bytes@.subrange(0, i + 1) =~= bytes@.subrange(0, i as int).push(bytes@[i as int]));
        assert(prefix@.subrange(0, i + 1) =~= prefix@.subrange(0, i as int).push(
            prefix@[i as int],
        ));
        i += 1;
    }
    assert(prefix@.subrange(0, i as int) =~= prefix@);
    true
}

/// The scheme that `path` begins with, if it begins with one.
pub fn scheme_of(path: &str) -> (r: Option<CloudScheme>)
    ensures
        r == spec_scheme(path.spec_bytes()),
{
    let b = path.as_bytes();
    if starts_with(b, "s3://".as_bytes()) {
        Some(CloudScheme::S3)
    } else if starts_with(b, "s3a://".as_bytes()) {
        Some(CloudScheme::S3a)
    } else if starts_with(b, "gs://".as_bytes()) {
        Some(CloudScheme::Gs)
    } else if starts_with(b, "gcs://".as_bytes()) {
        Some(CloudScheme::Gcs)
    } else if starts_with(b, "az://".as_bytes()) {
        Some(CloudScheme::Az)
    } else if starts_with(b, "azure://".as_bytes()) {
        Some(CloudScheme::Azure)
    } else if starts_with(b, "abfs://".as_bytes()) {
        Some(CloudScheme::Abfs)
    } else if starts_with(b, "abfss://".as_bytes()) {
        Some(CloudScheme::Abfss)
    } else if starts_with(b, "adl://".as_bytes()) {
        Some(CloudScheme::Adl)
    } else if starts_with(b, "http://".as_bytes()) {
        Some(CloudScheme::Http)
    } else if starts_with(b, "https://".as_bytes()) {
        Some(CloudScheme::Https)
    } else if starts_with(b, "hf://".as_bytes()) {
        Some(CloudScheme::Hf)
    } else if starts_with(b, "file://".as_bytes()) {
        Some(CloudScheme::File)
    } else {
        None
    }
}

/// A path of a scan source.
#[derive(Debug, PartialEq, Eq)]
pub struct PlRefPath {
    path: String,
}

impl View for PlRefPath {
    type V = Seq<char>;

    closed spec fn view(&self) -> Seq<char> {
        self.path@
    }
}

impl PlRefPath {
    /// The bytes of the path.
    pub closed spec fn bytes(&self) -> Seq<u8> {
        vstd::utf8::encode_utf8(self.path@)
    }

    /// The path that `path` writes.
    pub fn new(path: &str) -> (r: PlRefPath)
        ensures
            r@ == path@,
            r.bytes() == path.spec_bytes(),
    {
        PlRefPath { path: String::from_str(path) }
    }

    /// The path as text.
    pub fn as_str(&self) -> (s: &str)
        ensures
            s@ == self@,
            s.spec_bytes() == self.bytes(),
    {
        self.path.as_str()
    }

    /// Whether the path is written exactly as `text`.
    pub fn is(&self, text: &str) -> (r: bool)
        ensures
            r == (self@ == text@),
    {
        let other = String::from_str(text);
        self.path == other
    }

    /// The scheme that the path begins with, if it begins with one.
    pub fn scheme(&self) -> (r: Option<CloudScheme>)
        ensures
            r == spec_scheme(self.bytes()),
    {
        scheme_of(self.path.as_str())
    }

    /// Whether the path begins with the scheme of a store.
    pub fn has_scheme(&self) -> (r: bool)
        ensures
            r == spec_scheme(self.bytes()).is_some(),
    {
        self.scheme().is_some()
    }
}

impl Clone for PlRefPath {
    fn clone(&self) -> (r: Self)
        ensures
            r@ == self@,
            r.bytes() == self.bytes(),
    {
        PlRefPath { path: self.path.clone() }
    }
}

} // verus!
