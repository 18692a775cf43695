//! Content-addressed, three-tier cover-image cache.
//!
//! A cover is keyed by the SHA-256 hash of its original bytes. Each entry
//! has three representations: `small` (120x120 JPEG), `mid` (300x300 JPEG)
//! and `orig` (the verbatim bytes). Every tier is sharded by the first two
//! characters of the hash. The cache handle holds only the root directory;
//! filesystem traffic stays with the caller, which hands in what it observed
//! (whether the `mid` file exists, which files a directory holds) and
//! receives write or delete plans back.

use std::sync::Arc;
use vstd::prelude::*;

use crate::hashing::sha256_hex;
use crate::hashing::sha256_hex_of;
use crate::imaging::image_decodes;
use crate::imaging::scaled_jpeg;
use crate::imaging::scaled_jpeg_of;
use crate::text::contains_str;
use crate::text::contains_string;
use crate::text::path_stem;
use crate::text::push_char;
use crate::text::stem_of;
use crate::text::str_eq_check;

verus! {

/// The three fixed output tiers of a cached cover.
#[derive(Debug, Clone, Copy, PartialEq, Eq, Structural)]
pub enum CoverSize {
    /// 120x120 thumbnail for list views.
    Small,
    /// 300x300 cover for album grids.
    Mid,
    /// Original resolution, verbatim bytes.
    Original,
}

/// The cover cache handle: an immutable value holding only the cache root,
/// freely duplicable across parallel workers.
pub struct CoverCache {
    pub cache_dir: String,
}

/// One file the caller is asked to write: the full sharded path and the
/// exact bytes.
pub struct FileWrite {
    pub path: String,
    pub contents: Vec<u8>,
}

/// The outcome of a successful save: the content hash, and the writes that
/// realize the entry on disk (empty when the entry was already cached).
pub struct CoverSavePlan {
    pub hash: String,
    pub writes: Vec<FileWrite>,
}

/// One file currently present under the cache, as the caller observed it.
pub struct CacheFile {
    pub path: String,
    pub size: u64,
}

/// One shard subdirectory currently present under a tier, with the number
/// of entries the caller counted in it.
pub struct ShardDir {
    pub path: String,
    pub file_count: usize,
}

/// Cache statistics: a full sweep's file count and byte total.
#[derive(Debug)]
pub struct CacheStats {
    pub file_count: usize,
    pub total_size: u64,
}

/// What came back from an HTTP GET for a remote cover, as the caller
/// observed it: whether the status was 2xx, the content-type header, and
/// the body bytes.
pub struct HttpResponseData {
    pub success: bool,
    pub content_type: Option<String>,
    pub body: Vec<u8>,
}

/// The first embedded picture of an audio file's tag, as the tag reader
/// handed it out.
pub struct EmbeddedPicture {
    pub data: Vec<u8>,
    pub mime_type: Option<String>,
}

impl Default for CacheStats {
    /// An empty statistic: no files, no bytes.
    fn default() -> (r: Self)
        ensures
            r.file_count == 0,
            r.total_size == 0,
    {
        CacheStats { file_count: 0, total_size: 0 }
    }
}

/// The directory name of a tier.
pub open spec fn tier_name(size: CoverSize) -> Seq<char> {
    match size {
        CoverSize::Small => "small"@,
        CoverSize::Mid => "mid"@,
        CoverSize::Original => "orig"@,
    }
}

/// The shard prefix of a hash: its first two characters (or all of it when
/// it is shorter).
pub open spec fn shard_of(hash: Seq<char>) -> Seq<char> {
    if hash.len() < 2 {
        hash
    } else {
        hash.take(2)
    }
}

/// The directory of one tier under a cache root.
pub open spec fn size_dir_spec(cache_dir: Seq<char>, size: CoverSize) -> Seq<char> {
    cache_dir + "/"@ + tier_name(size)
}

/// The full sharded path of one cached file:
/// `<root>/<tier>/<first-2-of-hash>/<hash>.<ext>`.
pub open spec fn cover_path_spec(
    cache_dir: Seq<char>,
    hash: Seq<char>,
    size: CoverSize,
    ext: Seq<char>,
) -> Seq<char> {
    size_dir_spec(cache_dir, size) + "/"@ + shard_of(hash) + "/"@ + hash + "."@ + ext
}

/// The view of an optional string slice.
pub open spec fn opt_str_view(m: Option<&str>) -> Option<Seq<char>> {
    match m {
        Some(s) => Some(s@),
        None => None,
    }
}

/// The view of an optional owned string.
pub open spec fn opt_string_view(m: Option<String>) -> Option<Seq<char>> {
    match m {
        Some(s) => Some(s@),
        None => None,
    }
}

/// The original-tier extension chosen for a source MIME type: known image
/// types keep their native extension, everything else defaults to `jpg`.
pub open spec fn ext_for_mime(m: Option<Seq<char>>) -> Seq<char> {
    if m == Some("image/png"@) {
        "png"@
    } else if m == Some("image/gif"@) {
        "gif"@
    } else if m == Some("image/webp"@) {
        "webp"@
    } else {
        "jpg"@
    }
}

/// What a successful save plan holds for given input bytes and MIME type:
/// the hash of the bytes; no writes when the entry was already cached;
/// otherwise exactly the original (verbatim), `mid` (300x300 JPEG, quality
/// 85) and `small` (120x120 JPEG, quality 80) writes, in that order, each
/// at its sharded path.
pub open spec fn plan_matches(
    cache_dir: Seq<char>,
    data: Seq<u8>,
    mime: Option<Seq<char>>,
    mid_cached: bool,
    plan: CoverSavePlan,
) -> bool {
    let h = sha256_hex_of(data);
    &&& plan.hash@ == h
    &&& if mid_cached {
        plan.writes@.len() == 0
    } else {
        &&& plan.writes@.len() == 3
        &&& plan.writes@[0].path@ == cover_path_spec(
            cache_dir,
            h,
            CoverSize::Original,
            ext_for_mime(mime),
        )
        &&& plan.writes@[0].contents@ == data
        &&& plan.writes@[1].path@ == cover_path_spec(cache_dir, h, CoverSize::Mid, "jpg"@)
        &&& plan.writes@[1].contents@ == scaled_jpeg_of(data, 300, 85)
        &&& plan.writes@[2].path@ == cover_path_spec(cache_dir, h, CoverSize::Small, "jpg"@)
        &&& plan.writes@[2].contents@ == scaled_jpeg_of(data, 120, 80)
    }
}

/// The full contract of a save: it fails exactly when work is due and the
/// bytes do not decode, and a success carries a matching plan.
pub open spec fn save_cover_post(
    cache_dir: Seq<char>,
    data: Seq<u8>,
    mime: Option<Seq<char>>,
    mid_cached: bool,
    r: Result<CoverSavePlan, String>,
) -> bool {
    &&& (r is Err <==> !mid_cached && !image_decodes(data))
    &&& (r is Ok ==> plan_matches(cache_dir, data, mime, mid_cached, r->Ok_0))
}

/// Saving is deterministic: any two save results for the same root, bytes,
/// MIME type and cache state agree — same success, same hash, same writes.
/// In particular, saving identical bytes twice yields the identical plan,
/// so duplicate art leaves exactly one set of tier files.
pub proof fn lemma_save_cover_deterministic(
    cache_dir: Seq<char>,
    data: Seq<u8>,
    mime: Option<Seq<char>>,
    mid_cached: bool,
    r1: Result<CoverSavePlan, String>,
    r2: Result<CoverSavePlan, String>,
)
    requires
        save_cover_post(cache_dir, data, mime, mid_cached, r1),
        save_cover_post(cache_dir, data, mime, mid_cached, r2),
    ensures
        r1 is Ok <==> r2 is Ok,
        r1 is Ok ==> r1->Ok_0.hash@ == r2->Ok_0.hash@,
        r1 is Ok ==> r1->Ok_0.writes@.len() == r2->Ok_0.writes@.len(),
        r1 is Ok ==> forall|i: int|
            0 <= i < r1->Ok_0.writes@.len() ==> r1->Ok_0.writes@[i].path@ == r2->Ok_0.writes@[
                i
            ].path@ && r1->Ok_0.writes@[i].contents@ == r2->Ok_0.writes@[i].contents@,
{
}

/// The ordered list of extensions a lookup probes.
pub open spec fn lookup_exts() -> Seq<Seq<char>> {
    seq!["jpg"@, "png"@, "webp"@, "gif"@]
}

/// The path a lookup returns: the first of the four candidate paths that is
/// present, or nothing.
pub open spec fn lookup_spec(
    cache_dir: Seq<char>,
    hash: Seq<char>,
    size: CoverSize,
    present: Seq<String>,
) -> Option<Seq<char>> {
    if contains_str(present, cover_path_spec(cache_dir, hash, size, "jpg"@)) {
        Some(cover_path_spec(cache_dir, hash, size, "jpg"@))
    } else if contains_str(present, cover_path_spec(cache_dir, hash, size, "png"@)) {
        Some(cover_path_spec(cache_dir, hash, size, "png"@))
    } else if contains_str(present, cover_path_spec(cache_dir, hash, size, "webp"@)) {
        Some(cover_path_spec(cache_dir, hash, size, "webp"@))
    } else if contains_str(present, cover_path_spec(cache_dir, hash, size, "gif"@)) {
        Some(cover_path_spec(cache_dir, hash, size, "gif"@))
    } else {
        None
    }
}

/// The paths of a cleanup sweep: of the files the caller listed, exactly
/// those whose name stem is not among the valid hashes, in listing order.
pub open spec fn orphan_paths(files: Seq<CacheFile>, valid: Seq<String>) -> Seq<Seq<char>>
    decreases files.len(),
{
    if files.len() == 0 {
        Seq::empty()
    } else {
        let rest = orphan_paths(files.drop_last(), valid);
        if !contains_str(valid, stem_of(files.last().path@)) {
            rest.push(files.last().path@)
        } else {
            rest
        }
    }
}

/// A cleanup sweep removes exactly the orphans: every listed file whose
/// stem is not a valid hash is in the sweep, and everything in the sweep is
/// such a file.
pub proof fn lemma_orphan_paths_exact(files: Seq<CacheFile>, valid: Seq<String>)
    ensures
        forall|k: int|
            #![trigger files[k]]
            0 <= k < files.len() && !contains_str(valid, stem_of(files[k].path@))
                ==> orphan_paths(files, valid).contains(files[k].path@),
        forall|p: Seq<char>| #[trigger]
            orphan_paths(files, valid).contains(p) ==> !contains_str(valid, stem_of(p))
                && exists|k: int| 0 <= k < files.len() && files[k].path@ == p,
    decreases files.len(),
{
    if files.len() == 0 {
    } else {
        let prefix = files.drop_last();
        lemma_orphan_paths_exact(prefix, valid);
        let rest = orphan_paths(prefix, valid);
        assert(forall|k: int| 0 <= k < prefix.len() ==> prefix[k] == files[k]);
        if !contains_str(valid, stem_of(files.last().path@)) {
            let whole = rest.push(files.last().path@);
            assert(whole[rest.len() as int] == files.last().path@);
            assert(forall|i: int| 0 <= i < rest.len() ==> whole[i] == rest[i]);
            assert forall|p: Seq<char>| #[trigger] whole.contains(p) implies !contains_str(
                valid,
                stem_of(p),
            ) && exists|k: int| 0 <= k < files.len() && files[k].path@ == p by {
                let i = choose|i: int| 0 <= i < whole.len() && whole[i] == p;
                if i < rest.len() {
                    assert(rest.contains(p));
                } else {
                    assert(files[files.len() - 1].path@ == p);
                }
            }
            assert forall|k: int|
                0 <= k < files.len() && !contains_str(valid, stem_of(#[trigger] files[k].path@))
                implies whole.contains(files[k].path@) by {
                if k < files.len() - 1 {
                    assert(rest.contains(files[k].path@));
                    let i = choose|i: int| 0 <= i < rest.len() && rest[i] == files[k].path@;
                    assert(whole[i] == files[k].path@);
                } else {
                    assert(whole[rest.len() as int] == files[k].path@);
                }
            }
        } else {
            assert forall|k: int|
                0 <= k < files.len() && !contains_str(valid, stem_of(#[trigger] files[k].path@))
                implies rest.contains(files[k].path@) by {
                assert(k < files.len() - 1);
            }
        }
    }
}

/// The estimated entry count of a full clear: the sum of the per-shard
/// counts the caller observed.
pub open spec fn shard_count_sum(dirs: Seq<ShardDir>) -> int
    decreases dirs.len(),
{
    if dirs.len() == 0 {
        0
    } else {
        shard_count_sum(dirs.drop_last()) + dirs.last().file_count
    }
}

/// The byte total of a statistics sweep.
pub open spec fn total_size_of(files: Seq<CacheFile>) -> int
    decreases files.len(),
{
    if files.len() == 0 {
        0
    } else {
        total_size_of(files.drop_last()) + files.last().size
    }
}

impl CoverCache {
    /// Creates a cache handle over the given root directory.
    pub fn new(cache_dir: String) -> (r: Self)
        ensures
            r.cache_dir == cache_dir,
    {
        CoverCache { cache_dir }
    }

    /// An `Arc`-wrapped duplicate of this handle, for parallel workers.
    pub fn clone_arc(&self) -> (r: Arc<CoverCache>)
        ensures
            (*r).cache_dir@ == self.cache_dir@,
    {
        Arc::new(CoverCache { cache_dir: self.cache_dir.clone() })
    }

    /// The directory of one tier.
    fn size_dir(&self, size: CoverSize) -> (r: String)
        ensures
            r@ == size_dir_spec(self.cache_dir@, size),
    {
        let mut s: String = self.cache_dir.clone();
        s.append("/");
        match size {
            CoverSize::Small => s.append("small"),
            CoverSize::Mid => s.append("mid"),
            CoverSize::Original => s.append("orig"),
        }
        s
    }

    /// The three tier directories, for the caller to create ahead of
    /// writes: small, mid, orig, in that order.
    pub fn tier_dirs(&self) -> (r: Vec<String>)
        ensures
            r@.len() == 3,
            r@[0]@ == size_dir_spec(self.cache_dir@, CoverSize::Small),
            r@[1]@ == size_dir_spec(self.cache_dir@, CoverSize::Mid),
            r@[2]@ == size_dir_spec(self.cache_dir@, CoverSize::Original),
    {
        let mut v: Vec<String> = Vec::new();
        v.push(self.size_dir(CoverSize::Small));
        v.push(self.size_dir(CoverSize::Mid));
        v.push(self.size_dir(CoverSize::Original));
        v
    }

    /// The sharded path of a cached cover. The `mid` path with extension
    /// `jpg` is the entry's completeness marker, which the caller probes
    /// before a save.
    pub fn cover_path(&self, hash: &str, size: CoverSize, ext: &str) -> (r: String)
        ensures
            r@ == cover_path_spec(self.cache_dir@, hash@, size, ext@),
    {
        let n: usize = hash.unicode_len();
        let k: usize = if n < 2 {
            n
        } else {
            2
        };
        let prefix: &str = hash.substring_char(0, k);
        proof {
            assert(prefix@ =~= shard_of(hash@));
        }
        let mut s: String = self.size_dir(size);
        s.append("/");
        s.append(prefix);
        s.append("/");
        s.append(hash);
        s.append(".");
        s.append(ext);
        s
    }

    /// The content hash of cover bytes: 64 characters of lowercase hex.
    /// Identical bytes always hash identically, on every platform.
    pub fn hash_cover(data: &[u8]) -> (r: String)
        ensures
            r@ == sha256_hex_of(data@),
            r@.len() == 64,
    {
        sha256_hex(data)
    }

    /// Plans the save of one cover. `mid_cached` is whether the caller
    /// found the entry's `mid` file already on disk; if so the hash alone
    /// comes back and no work is planned. Otherwise the bytes are decoded
    /// (failure aborts only this save) and the three tier writes are
    /// planned. The caller performs the writes, creating shard directories
    /// as needed.
    pub fn save_cover(&self, data: &[u8], mime_type: Option<&str>, mid_cached: bool) -> (r: Result<
        CoverSavePlan,
        String,
    >)
        ensures
            save_cover_post(self.cache_dir@, data@, opt_str_view(mime_type), mid_cached, r),
    {
        let hash: String = Self::hash_cover(data);
        if mid_cached {
            return Ok(CoverSavePlan { hash, writes: Vec::new() });
        }
        let mid_bytes: Vec<u8> = match scaled_jpeg(data, 300, 85) {
            Ok(b) => b,
            Err(e) => {
                return Err(e);
            },
        };
        let small_bytes: Vec<u8> = match scaled_jpeg(data, 120, 80) {
            Ok(b) => b,
            Err(e) => {
                return Err(e);
            },
        };
        let ext: &str = mime_ext(mime_type);
        let orig_path: String = self.cover_path(hash.as_str(), CoverSize::Original, ext);
        let mid_path: String = self.cover_path(hash.as_str(), CoverSize::Mid, "jpg");
        let small_path: String = self.cover_path(hash.as_str(), CoverSize::Small, "jpg");
        let mut writes: Vec<FileWrite> = Vec::new();
        writes.push(FileWrite { path: orig_path, contents: vstd::slice::slice_to_vec(data) });
        writes.push(FileWrite { path: mid_path, contents: mid_bytes });
        writes.push(FileWrite { path: small_path, contents: small_bytes });
        Ok(CoverSavePlan { hash, writes })
    }

    /// Looks a cover up among the files the caller observed: probes the
    /// four candidate extensions in the fixed order jpg, png, webp, gif and
    /// returns the first present path. Returns nothing exactly when none of
    /// the four candidate paths exists.
    pub fn get_cover_path(&self, hash: &str, size: CoverSize, present: &Vec<String>) -> (r: Option<
        String,
    >)
        ensures
            match r {
                Some(p) => lookup_spec(self.cache_dir@, hash@, size, present@) == Some(p@),
                None => lookup_spec(self.cache_dir@, hash@, size, present@) is None,
            },
            r is None <==> forall|k: int|
                0 <= k < 4 ==> !contains_str(
                    present@,
                    cover_path_spec(self.cache_dir@, hash@, size, lookup_exts()[k]),
                ),
    {
        proof {
            assert(lookup_exts()[0] == "jpg"@);
            assert(lookup_exts()[1] == "png"@);
            assert(lookup_exts()[2] == "webp"@);
            assert(lookup_exts()[3] == "gif"@);
        }
        let p0: String = self.cover_path(hash, size, "jpg");
        if contains_string(present, &p0) {
            return Some(p0);
        }
        let p1: String = self.cover_path(hash, size, "png");
        if contains_string(present, &p1) {
            return Some(p1);
        }
        let p2: String = self.cover_path(hash, size, "webp");
        if contains_string(present, &p2) {
            return Some(p2);
        }
        let p3: String = self.cover_path(hash, size, "gif");
        if contains_string(present, &p3) {
            return Some(p3);
        }
        None
    }

    /// Whether the cover is cached: its completeness marker is the
    /// presence of a `mid` tier file.
    pub fn has_cover(&self, hash: &str, present: &Vec<String>) -> (r: bool)
        ensures
            r == (lookup_spec(self.cache_dir@, hash@, CoverSize::Mid, present@) is Some),
    {
        let p: Option<String> = self.get_cover_path(hash, CoverSize::Mid, present);
        match p {
            Some(_) => true,
            None => false,
        }
    }

    /// The locally-servable URI of a cached cover, or nothing when the
    /// cover is absent: the found path with backslashes normalized, a
    /// drive-letter colon percent-escaped, behind the asset scheme.
    pub fn get_cover_url(&self, hash: &str, size: CoverSize, present: &Vec<String>) -> (r: Option<
        String,
    >)
        ensures
            r is Some <==> lookup_spec(self.cache_dir@, hash@, size, present@) is Some,
            r is Some ==> r->0@ == asset_url_of(
                lookup_spec(self.cache_dir@, hash@, size, present@)->0,
            ),
    {
        let p: Option<String> = self.get_cover_path(hash, size, present);
        match p {
            Some(path) => Some(asset_url(path.as_str())),
            None => None,
        }
    }

    /// A full statistics sweep over the files the caller listed under all
    /// three tiers: how many there are, and their byte total (saturating
    /// at the counter's maximum).
    pub fn get_stats(&self, files: &Vec<CacheFile>) -> (r: CacheStats)
        ensures
            r.file_count == files@.len(),
            r.total_size == if total_size_of(files@) <= u64::MAX {
                total_size_of(files@)
            } else {
                u64::MAX as int
            },
    {
        let n: usize = files.len();
        let mut total: u64 = 0;
        let mut i: usize = 0;
        while i < n
            invariant
                i <= n,
                n == files@.len(),
                total == if total_size_of(files@.take(i as int)) <= u64::MAX {
                    total_size_of(files@.take(i as int))
                } else {
                    u64::MAX as int
                },
            decreases n - i,
        {
            proof {
                assert(files@.take(i as int + 1).drop_last() =~= files@.take(i as int));
                assert(files@.take(i as int + 1).last() == files@[i as int]);
            }
            let sz: u64 = files[i].size;
            if sz <= u64::MAX - total {
                total = total + sz;
            } else {
                total = u64::MAX;
            }
            i = i + 1;
        }
        proof {
            assert(files@.take(n as int) =~= files@);
        }
        CacheStats { file_count: n, total_size: total }
    }

    /// Plans a mark-and-sweep cleanup: of the files the caller listed
    /// across every tier and shard, exactly those whose name stem is not
    /// among the valid hashes are returned, in order, for the caller to
    /// delete. The plan's length is the removal count.
    pub fn cleanup_orphaned(&self, valid_hashes: &Vec<String>, files: &Vec<CacheFile>) -> (r: Vec<
        String,
    >)
        ensures
            r@.map_values(|s: String| s@) == orphan_paths(files@, valid_hashes@),
    {
        let n: usize = files.len();
        let mut out: Vec<String> = Vec::new();
        let mut i: usize = 0;
        while i < n
            invariant
                i <= n,
                n == files@.len(),
                out@.map_values(|s: String| s@) == orphan_paths(
                    files@.take(i as int),
                    valid_hashes@,
                ),
            decreases n - i,
        {
            proof {
                assert(files@.take(i as int + 1).drop_last() =~= files@.take(i as int));
                assert(files@.take(i as int + 1).last() == files@[i as int]);
            }
            let stem: String = path_stem(files[i].path.as_str());
            if !contains_string(valid_hashes, &stem) {
                let p: String = files[i].path.clone();
                out.push(p);
                proof {
                    assert(out@.map_values(|s: String| s@) =~= orphan_paths(
                        files@.take(i as int + 1),
                        valid_hashes@,
                    ));
                }
            }
            i = i + 1;
        }
        proof {
            assert(files@.take(n as int) =~= files@);
        }
        out
    }

    /// Plans a full clear: every shard directory the caller listed is to
    /// be deleted, and the estimate of removed entries is the sum of the
    /// observed per-shard counts (saturating; the set may change
    /// mid-operation, so it is an estimate by design).
    pub fn clear_all(&self, shard_dirs: &Vec<ShardDir>) -> (r: (Vec<String>, usize))
        ensures
            r.0@.len() == shard_dirs@.len(),
            forall|j: int| 0 <= j < shard_dirs@.len() ==> r.0@[j]@ == shard_dirs@[j].path@,
            r.1 == if shard_count_sum(shard_dirs@) <= usize::MAX {
                shard_count_sum(shard_dirs@)
            } else {
                usize::MAX as int
            },
    {
        let n: usize = shard_dirs.len();
        let mut dirs: Vec<String> = Vec::new();
        let mut removed: usize = 0;
        let mut i: usize = 0;
        while i < n
            invariant
                i <= n,
                n == shard_dirs@.len(),
                dirs@.len() == i,
                forall|j: int| 0 <= j < i ==> dirs@[j]@ == shard_dirs@[j].path@,
                removed == if shard_count_sum(shard_dirs@.take(i as int)) <= usize::MAX {
                    shard_count_sum(shard_dirs@.take(i as int))
                } else {
                    usize::MAX as int
                },
            decreases n - i,
        {
            proof {
                assert(shard_dirs@.take(i as int + 1).drop_last() =~= shard_dirs@.take(i as int));
                assert(shard_dirs@.take(i as int + 1).last() == shard_dirs@[i as int]);
            }
            let c: usize = shard_dirs[i].file_count;
            if c <= usize::MAX - removed {
                removed = removed + c;
            } else {
                removed = usize::MAX;
            }
            dirs.push(shard_dirs[i].path.clone());
            i = i + 1;
        }
        proof {
            assert(shard_dirs@.take(n as int) =~= shard_dirs@);
        }
        (dirs, removed)
    }
}

/// Plans the caching of a cover embedded in an audio file's tag. The
/// caller opens the file with the tag reader, selects the primary tag
/// (falling back to the first available one) and hands over its first
/// embedded picture, if any; no tag or no picture yields "no cover"
/// rather than an error.
pub fn extract_and_cache_cover(
    cache: &CoverCache,
    picture: Option<&EmbeddedPicture>,
    mid_cached: bool,
) -> (r: Result<Option<CoverSavePlan>, String>)
    ensures
        r is Err <==> picture is Some && !mid_cached && !image_decodes(picture->0.data@),
        picture is None ==> r is Ok && r->Ok_0 is None,
        picture is Some && r is Ok ==> r->Ok_0 is Some && plan_matches(
            cache.cache_dir@,
            picture->0.data@,
            opt_string_view(picture->0.mime_type),
            mid_cached,
            r->Ok_0->0,
        ),
{
    match picture {
        None => Ok(None),
        Some(pic) => {
            let mime: Option<&str> = match &pic.mime_type {
                Some(m) => Some(m.as_str()),
                None => None,
            };
            match cache.save_cover(pic.data.as_slice(), mime, mid_cached) {
                Ok(plan) => Ok(Some(plan)),
                Err(e) => Err(e),
            }
        },
    }
}

/// Plans the caching of a cover fetched from a URL. The caller performs
/// the HTTP GET (transport errors stay with the caller as failures) and
/// hands over the response's status, content-type header and body; a
/// non-2xx status or an empty body yields "no cover" rather than an error.
pub fn download_and_cache_cover(
    cache: &CoverCache,
    response: &HttpResponseData,
    mid_cached: bool,
) -> (r: Result<Option<CoverSavePlan>, String>)
    ensures
        r is Err <==> response.success && response.body@.len() > 0 && !mid_cached
            && !image_decodes(response.body@),
        !(response.success && response.body@.len() > 0) ==> r is Ok && r->Ok_0 is None,
        response.success && response.body@.len() > 0 && r is Ok ==> r->Ok_0 is Some
            && plan_matches(
            cache.cache_dir@,
            response.body@,
            opt_string_view(response.content_type),
            mid_cached,
            r->Ok_0->0,
        ),
{
    if !response.success {
        return Ok(None);
    }
    if response.body.len() == 0 {
        return Ok(None);
    }
    let mime: Option<&str> = match &response.content_type {
        Some(m) => Some(m.as_str()),
        None => None,
    };
    match cache.save_cover(response.body.as_slice(), mime, mid_cached) {
        Ok(plan) => Ok(Some(plan)),
        Err(e) => Err(e),
    }
}

/// The chosen original-tier extension for a MIME type.
fn mime_ext(mime: Option<&str>) -> (r: &'static str)
    ensures
        r@ == ext_for_mime(opt_str_view(mime)),
{
    match mime {
        Some(m) => {
            if str_eq_check(m, "image/png") {
                "png"
            } else if str_eq_check(m, "image/gif") {
                "gif"
            } else if str_eq_check(m, "image/webp") {
                "webp"
            } else {
                "jpg"
            }
        },
        None => "jpg",
    }
}

/// A path with every backslash turned into a forward slash.
pub open spec fn slashed(p: Seq<char>) -> Seq<char> {
    p.map_values(|c: char| if c == '\\' { '/' } else { c })
}

/// A path with a drive-letter colon percent-escaped, so the URI stays
/// valid on platforms whose absolute paths carry one.
pub open spec fn drive_escaped(q: Seq<char>) -> Seq<char> {
    if q.len() > 1 && q[1] == ':' {
        seq![q[0]] + "%3A"@ + q.skip(2)
    } else {
        q
    }
}

/// The locally-servable URI of a cache path.
pub open spec fn asset_url_of(p: Seq<char>) -> Seq<char> {
    "http://asset.localhost/"@ + drive_escaped(slashed(p))
}

/// Builds `asset_url_of` for a found cache path.
fn asset_url(path: &str) -> (r: String)
    ensures
        r@ == asset_url_of(path@),
{
    let n: usize = path.unicode_len();
    let mut norm: String = String::new();
    let mut i: usize = 0;
    while i < n
        invariant
            i <= n,
            n == path@.len(),
            norm@ == slashed(path@.take(i as int)),
        decreases n - i,
    {
        let c: char = path.get_char(i);
        let d: char = if c == '\\' {
            '/'
        } else {
            c
        };
        push_char(&mut norm, d);
        proof {
            assert(path@.take(i as int + 1).drop_last() =~= path@.take(i as int));
            assert(slashed(path@.take(i as int + 1)) =~= slashed(path@.take(i as int)).push(d));
        }
        i = i + 1;
    }
    proof {
        assert(path@.take(n as int) =~= path@);
        assert(norm@.len() == path@.len());
    }
    let mut out: String = String::from_str("http://asset.localhost/");
    let q: &str = norm.as_str();
    if n > 1 && q.get_char(1) == ':' {
        push_char(&mut out, q.get_char(0));
        out.append("%3A");
        out.append(q.substring_char(2, n));
        proof {
            assert(q@.subrange(2, n as int) =~= q@.skip(2));
            assert(out@ =~= asset_url_of(path@));
        }
    } else {
        out.append(q);
        proof {
            assert(out@ =~= asset_url_of(path@));
        }
    }
    out
}

} // verus!
