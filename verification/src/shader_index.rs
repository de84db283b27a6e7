//! The index of the renderer's shader cache: which shader source was last
//! written to which cache file, recognised by the source's BLAKE3 hash.

use vstd::prelude::*;
use vstd::utf8::encode_utf8;
use crate::text::{chars_of, copy_string, str_equal, string_of};
use crate::workers::append_str;
use crate::frames::ShaderSource;

verus! {

/// The BLAKE3 hash of `b` in lowercase hexadecimal.
pub uninterp spec fn blake3_hex_text(b: Seq<u8>) -> Seq<char>;

/// A lowercase hexadecimal digit.
pub open spec fn is_lower_hex(c: char) -> bool {
    ('0' <= c && c <= '9') || ('a' <= c && c <= 'f')
}

/// `blake3::Hasher` over `data`, finalized, as `Hash::to_hex` writes it:
/// the hash is named, not stated; per the crate's source the text is 64
/// lowercase hexadecimal digits (two per byte of the 32-byte hash).
#[verifier::external_body]
fn blake3_hex(data: &[u8]) -> (r: String)
    ensures
        r@ == blake3_hex_text(data@),
        r@.len() == 64,
        forall|i: int| 0 <= i < 64 ==> is_lower_hex(#[trigger] r@[i]),
{
    let mut hasher = blake3::Hasher::new();
    hasher.update(data);
    hasher.finalize().to_hex().to_string()
}

/// The hash of a shader source (of its UTF-8 bytes).
pub fn shader_hash(source: &str) -> (r: String)
    ensures
        r@ == blake3_hex_text(encode_utf8(source@)),
        r@.len() == 64,
{
    blake3_hex(source.as_bytes())
}

/// The cache file name of a shader: its name, `-`, the first 16 digits of
/// its hash, `.wgsl`.
pub open spec fn cache_file_name(name: Seq<char>, hash: Seq<char>) -> Seq<char> {
    name + "-"@ + hash.take(16) + ".wgsl"@
}

/// Builds [`cache_file_name`] for a hash of at least 16 digits.
pub fn cache_entry_name(name: &str, hash: &str) -> (r: String)
    requires
        hash@.len() >= 16,
    ensures
        r@ == cache_file_name(name@, hash@),
{
    let h = chars_of(hash);
    let mut prefix: Vec<char> = Vec::new();
    let mut i: usize = 0;
    while i < 16
        invariant
            i <= 16,
            h@ == hash@,
            hash@.len() >= 16,
            prefix@ == hash@.take(i as int),
        decreases 16 - i,
    {
        prefix.push(h[i]);
        assert(prefix@ =~= hash@.take(i + 1));
        i = i + 1;
    }
    let p = string_of(&prefix);
    let mut s = String::new();
    append_str(&mut s, name);
    append_str(&mut s, "-");
    append_str(&mut s, p.as_str());
    append_str(&mut s, ".wgsl");
    s
}

/// What the index remembers of a shader.
pub struct CacheEntry {
    pub hash: String,
    pub file: String,
    pub last_warmup: i64,
}

/// The entry of `name` (the first one).
pub open spec fn entry_of(v: Seq<(Seq<char>, (Seq<char>, Seq<char>, i64))>, name: Seq<char>) -> Option<
    (Seq<char>, Seq<char>, i64),
>
    decreases v.len(),
{
    if v.len() == 0 {
        None
    } else if v[0].0 == name {
        Some(v[0].1)
    } else {
        entry_of(v.drop_first(), name)
    }
}

/// Plain view of index entries.
pub open spec fn index_views(v: Seq<(String, CacheEntry)>) -> Seq<(Seq<char>, (Seq<char>, Seq<char>, i64))> {
    v.map_values(|e: (String, CacheEntry)| (e.0@, (e.1.hash@, e.1.file@, e.1.last_warmup)))
}

proof fn lemma_entry_scan(v: Seq<(Seq<char>, (Seq<char>, Seq<char>, i64))>, k: Seq<char>, i: int)
    requires
        0 <= i <= v.len(),
        forall|j: int| 0 <= j < i ==> (#[trigger] v[j]).0 != k,
    ensures
        entry_of(v, k) == entry_of(v.skip(i), k),
    decreases i,
{
    if i > 0 {
        let w = v.drop_first();
        assert forall|j: int| 0 <= j < i - 1 implies (#[trigger] w[j]).0 != k by {
            assert(w[j] == v[j + 1]);
        }
        lemma_entry_scan(w, k, i - 1);
        assert(w.skip(i - 1) =~= v.skip(i));
    } else {
        assert(v.skip(0) =~= v);
    }
}

proof fn lemma_entry_update(
    v: Seq<(Seq<char>, (Seq<char>, Seq<char>, i64))>,
    i: int,
    e: (Seq<char>, (Seq<char>, Seq<char>, i64)),
    k: Seq<char>,
)
    requires
        0 <= i < v.len(),
        v[i].0 == e.0,
        forall|j: int| 0 <= j < i ==> (#[trigger] v[j]).0 != e.0,
    ensures
        entry_of(v.update(i, e), k) == if k == e.0 { Some(e.1) } else { entry_of(v, k) },
    decreases v.len(),
{
    let u = v.update(i, e);
    if i > 0 {
        let w = v.drop_first();
        assert(u.drop_first() =~= w.update(i - 1, e));
        assert forall|j: int| 0 <= j < i - 1 implies (#[trigger] w[j]).0 != e.0 by {
            assert(w[j] == v[j + 1]);
        }
        assert(u[0] == v[0]);
        assert(v[0].0 != e.0);
        lemma_entry_update(w, i - 1, e, k);
        if v[0].0 != k {
            assert(entry_of(u, k) == entry_of(u.drop_first(), k));
        }
    } else {
        assert(u[0] == e);
        assert(u.drop_first() =~= v.drop_first());
        if k != e.0 {
            assert(entry_of(u, k) == entry_of(u.drop_first(), k));
        }
    }
}

proof fn lemma_entry_push(v: Seq<(Seq<char>, (Seq<char>, Seq<char>, i64))>, e: (Seq<char>, (Seq<char>, Seq<char>, i64)), k: Seq<char>)
    requires
        entry_of(v, e.0) is None,
    ensures
        entry_of(v.push(e), k) == if k == e.0 { Some(e.1) } else { entry_of(v, k) },
    decreases v.len(),
{
    let p = v.push(e);
    if v.len() > 0 {
        let w = v.drop_first();
        assert(p[0] == v[0]);
        assert(p.drop_first() =~= w.push(e));
        lemma_entry_push(w, e, k);
        if v[0].0 != k {
            assert(entry_of(p, k) == entry_of(p.drop_first(), k));
        }
    } else {
        assert(p[0] == e);
        assert(p.drop_first() =~= Seq::<(Seq<char>, (Seq<char>, Seq<char>, i64))>::empty());
        if k != e.0 {
            assert(entry_of(p, k) == entry_of(p.drop_first(), k));
        }
    }
}

/// The shader cache index: per shader name, the hash of the source last
/// cached, its file and when it was written.
pub struct CacheIndex {
    entries: Vec<(String, CacheEntry)>,
}

impl CacheIndex {
    /// The stored entries in order: name, then hash, file and time.
    pub closed spec fn entries_view(&self) -> Seq<(Seq<char>, (Seq<char>, Seq<char>, i64))> {
        index_views(self.entries@)
    }

    /// The entry of each shader name.
    pub open spec fn entry(&self, name: Seq<char>) -> Option<(Seq<char>, Seq<char>, i64)> {
        entry_of(self.entries_view(), name)
    }

    /// An index holding `entries` as they were stored (name, hash, file,
    /// time of the last warm-up).
    pub fn from_entries(entries: Vec<(String, String, String, i64)>) -> (r: CacheIndex)
        ensures
            r.entries_view() == entries@.map_values(
                |e: (String, String, String, i64)| (e.0@, (e.1@, e.2@, e.3)),
            ),
    {
        let mut out: Vec<(String, CacheEntry)> = Vec::new();
        let mut i: usize = 0;
        while i < entries.len()
            invariant
                i <= entries@.len(),
                out@.len() == i,
                index_views(out@) == entries@.take(i as int).map_values(
                    |e: (String, String, String, i64)| (e.0@, (e.1@, e.2@, e.3)),
                ),
            decreases entries.len() - i,
        {
            let e = &entries[i];
            let ghost before = out@;
            out.push((copy_string(&e.0), CacheEntry { hash: copy_string(&e.1), file: copy_string(&e.2), last_warmup: e.3 }));
            proof {
                assert(out@ == before.push(out@[i as int]));
                assert(index_views(out@) =~= index_views(before).push((e.0@, (e.1@, e.2@, e.3))));
                assert(entries@.take(i + 1) =~= entries@.take(i as int).push(entries@[i as int]));
                assert(index_views(out@) =~= entries@.take(i + 1).map_values(
                    |e: (String, String, String, i64)| (e.0@, (e.1@, e.2@, e.3)),
                ));
            }
            i = i + 1;
        }
        proof {
            assert(entries@.take(entries@.len() as int) =~= entries@);
        }
        CacheIndex { entries: out }
    }

    /// The stored entries in order, as (name, hash, file, time).
    pub fn to_entries(&self) -> (r: Vec<(String, String, String, i64)>)
        ensures
            r@.map_values(|e: (String, String, String, i64)| (e.0@, (e.1@, e.2@, e.3)))
                == self.entries_view(),
    {
        let mut out: Vec<(String, String, String, i64)> = Vec::new();
        let mut i: usize = 0;
        while i < self.entries.len()
            invariant
                i <= self.entries@.len(),
                out@.len() == i,
                out@.map_values(|e: (String, String, String, i64)| (e.0@, (e.1@, e.2@, e.3)))
                    == index_views(self.entries@.take(i as int)),
            decreases self.entries.len() - i,
        {
            let e = &self.entries[i];
            let ghost before = out@;
            out.push((copy_string(&e.0), copy_string(&e.1.hash), copy_string(&e.1.file), e.1.last_warmup));
            proof {
                assert(out@ == before.push(out@[i as int]));
                assert(out@.map_values(|e: (String, String, String, i64)| (e.0@, (e.1@, e.2@, e.3)))
                    =~= before.map_values(|e: (String, String, String, i64)| (e.0@, (e.1@, e.2@, e.3))).push(
                    (e.0@, (e.1.hash@, e.1.file@, e.1.last_warmup)),
                ));
                assert(self.entries@.take(i + 1) =~= self.entries@.take(i as int).push(self.entries@[i as int]));
                assert(out@.map_values(|e: (String, String, String, i64)| (e.0@, (e.1@, e.2@, e.3)))
                    =~= index_views(self.entries@.take(i + 1)));
            }
            i = i + 1;
        }
        proof {
            assert(self.entries@.take(self.entries@.len() as int) =~= self.entries@);
        }
        out
    }

    /// An empty index.
    pub fn new() -> (r: CacheIndex)
        ensures
            forall|n: Seq<char>| r.entry(n) is None,
    {
        CacheIndex { entries: Vec::new() }
    }

    fn find(&self, name: &str) -> (r: Option<usize>)
        ensures
            match r {
                Some(i) => i < self.entries@.len() && self.entries@[i as int].0@ == name@ && forall|j: int|
                    0 <= j < i ==> (#[trigger] self.entries@[j]).0@ != name@,
                None => forall|j: int| 0 <= j < self.entries@.len() ==> (#[trigger] self.entries@[j]).0@ != name@,
            },
    {
        let mut i: usize = 0;
        while i < self.entries.len()
            invariant
                i <= self.entries.len(),
                forall|j: int| 0 <= j < i ==> (#[trigger] self.entries@[j]).0@ != name@,
            decreases self.entries.len() - i,
        {
            if str_equal(self.entries[i].0.as_str(), name) {
                return Some(i);
            }
            i = i + 1;
        }
        None
    }

    /// The cache file of shader `name` if it was cached with the source of
    /// hash `hash` (the caller still checks that the file exists).
    pub fn cached_file(&self, name: &str, hash: &str) -> (r: Option<String>)
        ensures
            match self.entry(name@) {
                Some((h, f, _)) => if h == hash@ { r matches Some(x) && x@ == f } else { r is None },
                None => r is None,
            },
    {
        let ghost iv = index_views(self.entries@);
        match self.find(name) {
            Some(i) => {
                proof {
                    assert forall|j: int| 0 <= j < i implies (#[trigger] iv[j]).0 != name@ by {
                        assert(iv[j].0 == self.entries@[j].0@);
                    }
                    lemma_entry_scan(iv, name@, i as int);
                    assert(iv.skip(i as int)[0] == iv[i as int]);
                }
                let e = &self.entries[i].1;
                if str_equal(e.hash.as_str(), hash) {
                    Some(copy_string(&e.file))
                } else {
                    None
                }
            },
            None => {
                proof {
                    assert forall|j: int| 0 <= j < iv.len() implies (#[trigger] iv[j]).0 != name@ by {
                        assert(iv[j].0 == self.entries@[j].0@);
                    }
                    lemma_entry_scan(iv, name@, iv.len() as int);
                    assert(iv.skip(iv.len() as int).len() == 0);
                }
                None
            },
        }
    }

    /// Records that shader `name` with source hash `hash` was written to
    /// `file` at `now` (seconds), replacing its earlier entry.
    pub fn record(&mut self, name: &str, hash: String, file: String, now: i64)
        ensures
            forall|n: Seq<char>| final(self).entry(n) == if n == name@ {
                Some((hash@, file@, now))
            } else {
                old(self).entry(n)
            },
    {
        let ghost iv = index_views(self.entries@);
        let ghost e = (name@, (hash@, file@, now));
        let entry = (name.to_owned(), CacheEntry { hash, file, last_warmup: now });
        match self.find(name) {
            Some(i) => {
                proof {
                    assert forall|j: int| 0 <= j < i implies (#[trigger] iv[j]).0 != e.0 by {
                        assert(iv[j].0 == self.entries@[j].0@);
                    }
                    assert(iv[i as int].0 == e.0);
                }
                self.entries.set(i, entry);
                proof {
                    assert(index_views(self.entries@) =~= iv.update(i as int, e));
                    assert forall|n: Seq<char>| entry_of(iv.update(i as int, e), n) == (if n == e.0 {
                        Some(e.1)
                    } else {
                        entry_of(iv, n)
                    }) by {
                        lemma_entry_update(iv, i as int, e, n);
                    }
                }
            },
            None => {
                proof {
                    assert forall|j: int| 0 <= j < iv.len() implies (#[trigger] iv[j]).0 != e.0 by {
                        assert(iv[j].0 == self.entries@[j].0@);
                    }
                    lemma_entry_scan(iv, e.0, iv.len() as int);
                    assert(iv.skip(iv.len() as int).len() == 0);
                }
                self.entries.push(entry);
                proof {
                    assert(index_views(self.entries@) =~= iv.push(e));
                    assert forall|n: Seq<char>| entry_of(iv.push(e), n) == (if n == e.0 {
                        Some(e.1)
                    } else {
                        entry_of(iv, n)
                    }) by {
                        lemma_entry_push(iv, e, n);
                    }
                }
            },
        }
    }
}

/// A path joined from a directory and a file name as `Path::join` does it
/// on Unix: an absolute name replaces the directory, an empty directory adds
/// nothing, and one separator stands between the two.
pub open spec fn join_path(dir: Seq<char>, file: Seq<char>) -> Seq<char> {
    if file.len() > 0 && file[0] == '/' {
        file
    } else if dir.len() == 0 {
        file
    } else if dir.last() == '/' {
        dir + file
    } else {
        dir + "/"@ + file
    }
}

/// Builds [`join_path`].
pub fn join(dir: &str, file: &str) -> (r: String)
    ensures
        r@ == join_path(dir@, file@),
{
    let d = chars_of(dir);
    let f = chars_of(file);
    let mut s = String::new();
    if f.len() > 0 && f[0] == '/' {
        append_str(&mut s, file);
    } else if d.len() == 0 {
        append_str(&mut s, file);
    } else if d[d.len() - 1] == '/' {
        append_str(&mut s, dir);
        append_str(&mut s, file);
    } else {
        append_str(&mut s, dir);
        append_str(&mut s, "/");
        append_str(&mut s, file);
    }
    s
}

/// The renderer's shader cache: a directory of WGSL files and the index
/// that says which source each file holds.
pub struct ShaderCache {
    cache_dir: String,
    index_path: String,
    index: CacheIndex,
}

impl ShaderCache {
    /// The cache directory.
    pub closed spec fn dir(&self) -> Seq<char> {
        self.cache_dir@
    }

    /// Where the index is kept.
    pub closed spec fn index_file(&self) -> Seq<char> {
        self.index_path@
    }

    /// The index.
    pub closed spec fn entries(&self) -> Seq<(Seq<char>, (Seq<char>, Seq<char>, i64))> {
        self.index.entries_view()
    }

    /// The entry of shader `name`.
    pub open spec fn entry(&self, name: Seq<char>) -> Option<(Seq<char>, Seq<char>, i64)> {
        entry_of(self.entries(), name)
    }

    /// A cache in `cache_dir` holding the index read from it (an empty one
    /// where there was none or it could not be read); the index is kept in
    /// `index.json` there.
    pub fn new(cache_dir: String, index: CacheIndex) -> (r: ShaderCache)
        ensures
            r.dir() == cache_dir@,
            r.index_file() == join_path(cache_dir@, "index.json"@),
            r.entries() == index.entries_view(),
    {
        let index_path = join(cache_dir.as_str(), "index.json");
        ShaderCache { cache_dir, index_path, index }
    }

    /// The path of the index file.
    pub fn index_path(&self) -> (r: String)
        ensures
            r@ == self.index_file(),
    {
        copy_string(&self.index_path)
    }

    /// The index's entries, in order, for writing it back.
    pub fn index_entries(&self) -> (r: Vec<(String, String, String, i64)>)
        ensures
            r@.map_values(|e: (String, String, String, i64)| (e.0@, (e.1@, e.2@, e.3)))
                == self.entries(),
    {
        self.index.to_entries()
    }

    /// The file that caches shader `name` with a source of hash `hash`: the
    /// cache file name in the cache directory.
    pub fn cache_entry_path(&self, name: &str, hash: &str) -> (r: String)
        requires
            hash@.len() >= 16,
        ensures
            r@ == join_path(self.dir(), cache_file_name(name@, hash@)),
    {
        let file = cache_entry_name(name, hash);
        join(self.cache_dir.as_str(), file.as_str())
    }

    /// What warming up `shader` asks for: the source's hash, the path to
    /// write it to, and the file cached earlier for the same source.
    pub fn plan(&self, shader: &ShaderSource) -> (r: ShaderPlan)
        ensures
            r.hash@ == blake3_hex_text(encode_utf8(shader.source@)),
            r.path@ == join_path(self.dir(), cache_file_name(shader.name@, r.hash@)),
            match self.entry(shader.name@) {
                Some((h, f, _)) => if h == r.hash@ { r.cached matches Some(x) && x@ == f } else { r.cached is None },
                None => r.cached is None,
            },
    {
        let hash = shader_hash(shader.source.as_str());
        let path = self.cache_entry_path(shader.name.as_str(), hash.as_str());
        let cached = self.index.cached_file(shader.name.as_str(), hash.as_str());
        ShaderPlan { hash, path, cached }
    }

    /// Settles shader `name` after [`ShaderCache::plan`]: unless the earlier
    /// file is still there (`cached_exists`), the source is to be written to
    /// the planned path and the index records it there with time `now`.
    /// Returns whether the source is to be written.
    pub fn commit(&mut self, name: &str, plan: &ShaderPlan, cached_exists: bool, now: i64) -> (r: bool)
        ensures
            r == needs_update_spec(plan.cached, cached_exists),
            forall|n: Seq<char>| #[trigger] final(self).entry(n) == if r && n == name@ {
                Some((plan.hash@, plan.path@, now))
            } else {
                old(self).entry(n)
            },
            final(self).dir() == old(self).dir(),
            final(self).index_file() == old(self).index_file(),
    {
        let write = needs_update(&plan.cached, cached_exists);
        let ghost before = self.index;
        if write {
            self.index.record(name, copy_string(&plan.hash), copy_string(&plan.path), now);
        }
        proof {
            assert forall|n: Seq<char>| #[trigger] self.entry(n) == if write && n == name@ {
                Some((plan.hash@, plan.path@, now))
            } else {
                old(self).entry(n)
            } by {
                assert(self.entry(n) == self.index.entry(n));
                assert(old(self).entry(n) == before.entry(n));
            }
        }
        write
    }
}

/// What warming up a shader asks for.
pub struct ShaderPlan {
    /// The source's hash.
    pub hash: String,
    /// The path of the cache file for this source.
    pub path: String,
    /// The file cached earlier for the same source, to reuse if it exists.
    pub cached: Option<String>,
}

/// A shader needs to be written to the cache unless it was cached with the
/// same source and that file still exists.
pub open spec fn needs_update_spec(cached: Option<String>, file_exists: bool) -> bool {
    !(cached is Some && file_exists)
}

/// Builds [`needs_update_spec`].
pub fn needs_update(cached: &Option<String>, file_exists: bool) -> (r: bool)
    ensures
        r == needs_update_spec(*cached, file_exists),
{
    !(cached.is_some() && file_exists)
}

} // verus!
