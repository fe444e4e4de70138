//! Manifest data model and the derivation of download URLs and output
//! paths from a resolved index document.
//!
//! URL construction is plain string concatenation with a literal `/`
//! separator; duplicate or missing separators are preserved faithfully,
//! never normalized.
use vstd::prelude::*;

verus! {

/// One entry of the resource manifest: a destination path relative to the
/// output root (in source form it begins with a path separator) and the
/// expected byte size. `md5` and `sampleHash` are carried but not checked.
#[allow(non_snake_case)]
#[derive(Debug, Clone, PartialEq)]
pub struct Resource {
    pub dest: String,
    pub md5: String,
    pub sampleHash: String,
    pub size: u64,
}

impl Resource {
    /// An equal copy, field for field.
    pub fn duplicate(&self) -> (r: Resource)
        ensures
            r == *self,
    {
        Resource {
            dest: self.dest.clone(),
            md5: self.md5.clone(),
            sampleHash: self.sampleHash.clone(),
            size: self.size,
        }
    }
}

/// The resource manifest document: a flat list of resources.
#[derive(Debug, Clone)]
pub struct ResourcesResponse {
    pub resource: Vec<Resource>,
}

/// One CDN mirror named by the index document.
#[derive(Debug, Clone, PartialEq)]
pub struct CDNEntry {
    pub url: String,
}

/// The payload of the index document: the CDN mirrors, the relative
/// location of the resource manifest, the base path that download URLs
/// are rooted at, and a version label.
#[allow(non_snake_case)]
#[derive(Debug, Clone)]
pub struct DefaultIndex {
    pub cdnList: Vec<CDNEntry>,
    pub resources: String,
    pub resourcesBasePath: String,
    pub version: String,
}

/// The index document.
#[derive(Debug, Clone)]
pub struct IndexResponse {
    pub default: DefaultIndex,
}

/// `base`, a literal `/`, then `tail` — exactly, with no normalization.
pub open spec fn joined(base: Seq<char>, tail: Seq<char>) -> Seq<char> {
    base + seq!['/'] + tail
}

/// Concatenates `base`, a literal `/` separator, and `tail`.
pub fn join_url(base: &str, tail: &str) -> (r: String)
    ensures
        r@ == joined(base@, tail@),
{
    proof {
        reveal_strlit("/");
    }
    let mut s = String::from_str(base);
    s.append("/");
    s.append(tail);
    s
}

/// The URL of the resource manifest: the first CDN mirror's URL joined
/// with the manifest's relative location.
pub fn resources_url(index: &IndexResponse) -> (r: String)
    requires
        index.default.cdnList@.len() >= 1,
    ensures
        r@ == joined(index.default.cdnList@[0].url@, index.default.resources@),
{
    join_url(index.default.cdnList[0].url.as_str(), index.default.resources.as_str())
}

/// The base that every download URL is rooted at: the first CDN mirror's
/// URL joined with the index's resource base path.
pub fn resources_base_url(index: &IndexResponse) -> (r: String)
    requires
        index.default.cdnList@.len() >= 1,
    ensures
        r@ == joined(index.default.cdnList@[0].url@, index.default.resourcesBasePath@),
{
    join_url(index.default.cdnList[0].url.as_str(), index.default.resourcesBasePath.as_str())
}

/// The absolute URL a resource is fetched from: the base joined with the
/// resource's destination path, leading separator and all (so a
/// destination `/a` under base `b` yields `b//a`).
pub fn download_url(resources_base: &str, dest: &str) -> (r: String)
    ensures
        r@ == joined(resources_base@, dest@),
{
    join_url(resources_base, dest)
}

/// `dest` with its leading separator removed.
pub open spec fn stripped(dest: Seq<char>) -> Seq<char> {
    dest.subrange(1, dest.len() as int)
}

/// Removes the leading path separator from a destination path, so that
/// joining it to the output root cannot escape the root.
pub fn strip_leading_separator(dest: &str) -> (r: String)
    requires
        dest@.len() >= 1,
    ensures
        r@ == stripped(dest@),
{
    let n = dest.unicode_len();
    let tail = dest.substring_char(1, n);
    String::from_str(tail)
}

/// The filesystem path a resource is written to: the output root, a
/// separator, then the destination with its leading separator stripped.
pub fn output_path(output_root: &str, dest: &str) -> (r: String)
    requires
        dest@.len() >= 1,
    ensures
        r@ == joined(output_root@, stripped(dest@)),
{
    let rel = strip_leading_separator(dest);
    join_url(output_root, rel.as_str())
}

} // verus!
