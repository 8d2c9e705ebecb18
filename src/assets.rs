//! Asset import bookkeeping: the queue of paths waiting to be imported, the
//! imports in progress, and those that failed. Decoding is done elsewhere.
use vstd::prelude::*;

verus! {

/// The extension of the last component of a path, as `std::path::Path`
/// reads it.
pub uninterp spec fn extension_of(path: Seq<char>) -> Option<Seq<char>>;

/// Relies on `std::path::Path::extension`: the extension of the path's file
/// name, if any. The result depends on the path text alone.
#[verifier::external_body]
fn path_extension(path: &str) -> (r: Option<String>)
    ensures
        match r {
            Some(e) => extension_of(path@) == Some(e@),
            None => extension_of(path@).is_none(),
        },
{
    match std::path::Path::new(path).extension() {
        Some(e) => match e.to_str() {
            Some(t) => Some(t.to_string()),
            None => None,
        },
        None => None,
    }
}

pub open spec fn image_extension(e: Seq<char>) -> bool {
    e == seq!['p', 'n', 'g'] || e == seq!['j', 'p', 'g'] || e == seq!['j', 'p', 'e', 'g']
}

/// The extension, if it is one of the supported image formats.
pub open spec fn supported_image(ext: Option<Seq<char>>) -> bool {
    match ext {
        Some(e) => image_extension(e),
        None => false,
    }
}

fn is_image_extension(e: &str) -> (b: bool)
    ensures
        b == image_extension(e@),
{
    let png = String::from_str("png");
    let jpg = String::from_str("jpg");
    let jpeg = String::from_str("jpeg");
    let owned = e.to_string();
    proof {
        reveal_strlit("png");
        reveal_strlit("jpg");
        reveal_strlit("jpeg");
        assert(png@ =~= seq!['p', 'n', 'g']);
        assert(jpg@ =~= seq!['j', 'p', 'g']);
        assert(jpeg@ =~= seq!['j', 'p', 'e', 'g']);
    }
    owned == png || owned == jpg || owned == jpeg
}

/// Whether an optional extension names a supported image format.
pub fn is_supported_extension(ext: &Option<String>) -> (b: bool)
    ensures
        b == supported_image(
            match ext {
                Some(e) => Some(e@),
                None => None,
            },
        ),
{
    match ext {
        Some(e) => is_image_extension(e.as_str()),
        None => false,
    }
}

/// Whether `path` names a PNG or JPEG image, by its extension.
pub fn is_valid_image_format(path: &str) -> (b: bool)
    ensures
        b == supported_image(extension_of(path@)),
{
    let ext = path_extension(path);
    is_supported_extension(&ext)
}

/// Why an import request was refused.
#[derive(Debug, Clone, Copy, PartialEq, Eq, Structural)]
pub enum ImportError {
    UnsupportedFormat,
}

#[derive(Debug)]
pub struct AssetImporter {
    pub pending_imports: Vec<String>,
    pub import_queue: Vec<String>,
    /// (path, error message)
    pub failed_imports: Vec<(String, String)>,
}

pub open spec fn texts(v: Seq<String>) -> Seq<Seq<char>> {
    v.map_values(|s: String| s@)
}

/// `v` without its first element equal to `x` (unchanged if there is none).
pub open spec fn without_first(v: Seq<Seq<char>>, x: Seq<char>) -> Seq<Seq<char>> {
    if v.contains(x) {
        let i = choose|i: int| 0 <= i < v.len() && v[i] == x && forall|j: int| 0 <= j < i ==> v[j] != x;
        v.remove(i)
    } else {
        v
    }
}

/// Position of the first element of `v` equal to `x`.
fn position(v: &Vec<String>, x: &String) -> (r: Option<usize>)
    ensures
        match r {
            Some(i) => i < v@.len() && texts(v@)[i as int] == x@ && forall|j: int|
                0 <= j < i ==> texts(v@)[j] != x@,
            None => !texts(v@).contains(x@),
        },
{
    let mut i: usize = 0;
    while i < v.len()
        invariant
            i <= v@.len(),
            forall|j: int| 0 <= j < i ==> texts(v@)[j] != x@,
        decreases v@.len() - i,
    {
        if v[i] == *x {
            return Some(i);
        }
        i = i + 1;
    }
    proof {
        assert forall|j: int| 0 <= j < texts(v@).len() implies texts(v@)[j] != x@ by {}
    }
    None
}

proof fn lemma_first_position(v: Seq<Seq<char>>, x: Seq<char>, i: int)
    requires
        0 <= i < v.len(),
        v[i] == x,
        forall|j: int| 0 <= j < i ==> v[j] != x,
    ensures
        without_first(v, x) == v.remove(i),
{
    assert(v.contains(x));
    let k = choose|k: int| 0 <= k < v.len() && v[k] == x && forall|j: int| 0 <= j < k ==> v[j] != x;
    assert(k == i) by {
        if k < i {
            assert(v[k] != x);
        } else if k > i {
            assert(v[i] != x);
        }
    }
}

impl AssetImporter {
    pub fn new() -> (a: AssetImporter)
        ensures
            a.pending_imports@.len() == 0,
            a.import_queue@.len() == 0,
            a.failed_imports@.len() == 0,
    {
        AssetImporter { pending_imports: Vec::new(), import_queue: Vec::new(), failed_imports: Vec::new() }
    }

    /// Queues `path` unless it is already queued or in progress.
    pub fn queue_import(&mut self, path: String)
        ensures
            texts(final(self).import_queue@) == if texts(old(self).import_queue@).contains(path@)
                || texts(old(self).pending_imports@).contains(path@) {
                texts(old(self).import_queue@)
            } else {
                texts(old(self).import_queue@).push(path@)
            },
            final(self).pending_imports@ == old(self).pending_imports@,
            final(self).failed_imports@ == old(self).failed_imports@,
    {
        let queued = position(&self.import_queue, &path);
        let pending = position(&self.pending_imports, &path);
        if queued.is_none() && pending.is_none() {
            self.import_queue.push(path);
            proof {
                assert(texts(self.import_queue@) =~= texts(old(self).import_queue@).push(path@));
            }
        }
    }

    /// Queues `path` if it names a supported image format; otherwise
    /// reports `UnsupportedFormat` and changes nothing.
    pub fn request_import(&mut self, path: String) -> (r: Result<(), ImportError>)
        ensures
            supported_image(extension_of(path@)) ==> r is Ok && texts(final(self).import_queue@)
                == if texts(old(self).import_queue@).contains(path@) || texts(
                old(self).pending_imports@,
            ).contains(path@) {
                texts(old(self).import_queue@)
            } else {
                texts(old(self).import_queue@).push(path@)
            },
            !supported_image(extension_of(path@)) ==> r == Err::<(), ImportError>(
                ImportError::UnsupportedFormat,
            ) && final(self).import_queue@ == old(self).import_queue@,
            final(self).pending_imports@ == old(self).pending_imports@,
            final(self).failed_imports@ == old(self).failed_imports@,
    {
        if is_valid_image_format(path.as_str()) {
            self.queue_import(path);
            Ok(())
        } else {
            Err(ImportError::UnsupportedFormat)
        }
    }

    /// Moves the first queued copy of `path` into the in-progress list; a
    /// path that is not queued changes nothing.
    pub fn start_import(&mut self, path: String)
        ensures
            texts(final(self).import_queue@) == without_first(texts(old(self).import_queue@), path@),
            texts(final(self).pending_imports@) == if texts(old(self).import_queue@).contains(
                path@,
            ) {
                texts(old(self).pending_imports@).push(path@)
            } else {
                texts(old(self).pending_imports@)
            },
            final(self).failed_imports@ == old(self).failed_imports@,
    {
        match position(&self.import_queue, &path) {
            Some(i) => {
                proof {
                    lemma_first_position(texts(self.import_queue@), path@, i as int);
                }
                self.import_queue.remove(i);
                self.pending_imports.push(path);
                proof {
                    assert(texts(self.import_queue@) =~= texts(old(self).import_queue@).remove(
                        i as int,
                    ));
                    assert(texts(self.pending_imports@) =~= texts(old(self).pending_imports@).push(
                        path@,
                    ));
                    assert(texts(old(self).import_queue@)[i as int] == path@);
                }
            },
            None => {},
        }
    }

    /// Removes the first in-progress copy of `path`.
    pub fn complete_import(&mut self, path: &String)
        ensures
            texts(final(self).pending_imports@) == without_first(
                texts(old(self).pending_imports@),
                path@,
            ),
            final(self).import_queue@ == old(self).import_queue@,
            final(self).failed_imports@ == old(self).failed_imports@,
    {
        match position(&self.pending_imports, path) {
            Some(i) => {
                proof {
                    lemma_first_position(texts(self.pending_imports@), path@, i as int);
                }
                self.pending_imports.remove(i);
                proof {
                    assert(texts(self.pending_imports@) =~= texts(old(self).pending_imports@).remove(
                        i as int,
                    ));
                }
            },
            None => {},
        }
    }

    /// Ends the import of `path` as failed, recording `error`.
    pub fn fail_import(&mut self, path: String, error: String)
        ensures
            texts(final(self).pending_imports@) == without_first(
                texts(old(self).pending_imports@),
                path@,
            ),
            final(self).import_queue@ == old(self).import_queue@,
            final(self).failed_imports@ == old(self).failed_imports@.push((path, error)),
    {
        self.complete_import(&path);
        self.failed_imports.push((path, error));
    }

    pub fn clear_failed_imports(&mut self)
        ensures
            final(self).failed_imports@.len() == 0,
            final(self).import_queue@ == old(self).import_queue@,
            final(self).pending_imports@ == old(self).pending_imports@,
    {
        self.failed_imports.clear();
    }
}


/// What is known of an imported image.
#[derive(Debug)]
pub struct AssetMetadata {
    pub name: String,
    pub path: String,
    pub file_size: u64,
    pub image_dimensions: Option<(u32, u32)>,
    pub import_date: String,
    pub last_modified: String,
}

/// Images that are loaded (with their metadata, one entry per path) and the
/// paths still loading.
#[derive(Debug)]
pub struct AssetRegistry {
    pub loaded_images: Vec<AssetMetadata>,
    pub loading_assets: Vec<String>,
}

pub open spec fn distinct_paths(v: Seq<AssetMetadata>) -> bool {
    forall|i: int, j: int| 0 <= i < v.len() && 0 <= j < v.len() && i != j ==> (#[trigger] v[i]).path@ != (#[trigger] v[j]).path@
}

pub open spec fn distinct_texts(v: Seq<Seq<char>>) -> bool {
    forall|i: int, j: int| 0 <= i < v.len() && 0 <= j < v.len() && i != j ==> v[i] != v[j]
}

/// The entry registered for path `p`, if any.
pub open spec fn lookup(v: Seq<AssetMetadata>, p: Seq<char>) -> Option<AssetMetadata> {
    if exists|i: int| 0 <= i < v.len() && (#[trigger] v[i]).path@ == p {
        Some(v[choose|i: int| 0 <= i < v.len() && (#[trigger] v[i]).path@ == p])
    } else {
        None
    }
}

pub open spec fn paths_of(v: Seq<AssetMetadata>) -> Seq<Seq<char>> {
    v.map_values(|m: AssetMetadata| m.path@)
}

proof fn lemma_lookup_at(v: Seq<AssetMetadata>, i: int)
    requires
        distinct_paths(v),
        0 <= i < v.len(),
    ensures
        lookup(v, v[i].path@) == Some(v[i]),
{
    let p = v[i].path@;
    assert(exists|k: int| 0 <= k < v.len() && (#[trigger] v[k]).path@ == p);
    let c = choose|k: int| 0 <= k < v.len() && (#[trigger] v[k]).path@ == p;
    if c != i {
        assert(v[c].path@ != v[i].path@);
    }
}

proof fn lemma_lookup_same(v: Seq<AssetMetadata>, w: Seq<AssetMetadata>, p: Seq<char>)
    requires
        distinct_paths(v),
        distinct_paths(w),
        forall|i: int| 0 <= i < v.len() && (#[trigger] v[i]).path@ == p ==> exists|j: int|
            0 <= j < w.len() && w[j] == v[i],
        forall|j: int| 0 <= j < w.len() && (#[trigger] w[j]).path@ == p ==> exists|i: int|
            0 <= i < v.len() && v[i] == w[j],
    ensures
        lookup(w, p) == lookup(v, p),
{
    if exists|i: int| 0 <= i < v.len() && (#[trigger] v[i]).path@ == p {
        let i = choose|i: int| 0 <= i < v.len() && (#[trigger] v[i]).path@ == p;
        let j = choose|j: int| 0 <= j < w.len() && w[j] == v[i];
        lemma_lookup_at(v, i);
        lemma_lookup_at(w, j);
    } else if exists|j: int| 0 <= j < w.len() && (#[trigger] w[j]).path@ == p {
        let j = choose|j: int| 0 <= j < w.len() && (#[trigger] w[j]).path@ == p;
        let i = choose|i: int| 0 <= i < v.len() && v[i] == w[j];
        assert(v[i].path@ == p);
    }
}

/// Position of the entry for `path`.
fn entry_position(v: &Vec<AssetMetadata>, path: &String) -> (r: Option<usize>)
    ensures
        match r {
            Some(i) => i < v@.len() && v@[i as int].path@ == path@,
            None => forall|j: int| 0 <= j < v@.len() ==> (#[trigger] v@[j]).path@ != path@,
        },
{
    let mut i: usize = 0;
    while i < v.len()
        invariant
            i <= v@.len(),
            forall|j: int| 0 <= j < i ==> (#[trigger] v@[j]).path@ != path@,
        decreases v@.len() - i,
    {
        if v[i].path == *path {
            return Some(i);
        }
        i = i + 1;
    }
    None
}

impl AssetRegistry {
    pub open spec fn wf(&self) -> bool {
        &&& distinct_paths(self.loaded_images@)
        &&& distinct_texts(texts(self.loading_assets@))
    }

    pub fn new() -> (r: AssetRegistry)
        ensures
            r.wf(),
            r.loaded_images@.len() == 0,
            r.loading_assets@.len() == 0,
    {
        AssetRegistry { loaded_images: Vec::new(), loading_assets: Vec::new() }
    }

    /// Records `metadata` as the loaded image at its path, replacing any
    /// earlier entry for that path.
    pub fn register_image(&mut self, metadata: AssetMetadata)
        requires
            old(self).wf(),
        ensures
            final(self).wf(),
            forall|p: Seq<char>|
                #[trigger] lookup(final(self).loaded_images@, p) == if p == metadata.path@ {
                    Some(metadata)
                } else {
                    lookup(old(self).loaded_images@, p)
                },
            final(self).loading_assets@ == old(self).loading_assets@,
    {
        let ghost v0 = self.loaded_images@;
        let ghost m = metadata;
        match entry_position(&self.loaded_images, &metadata.path) {
            Some(i) => {
                self.loaded_images.set(i, metadata);
                proof {
                    let w = self.loaded_images@;
                    assert(w == v0.update(i as int, m));
                    assert(distinct_paths(w)) by {
                        assert forall|a: int, b: int| 0 <= a < w.len() && 0 <= b < w.len() && a != b implies (#[trigger] w[a]).path@ != (#[trigger] w[b]).path@ by {
                            if a != i && b != i {
                                assert(v0[a].path@ != v0[b].path@);
                            } else if a == i {
                                assert(v0[i as int].path@ != v0[b].path@);
                            } else {
                                assert(v0[a].path@ != v0[i as int].path@);
                            }
                        }
                    }
                    assert forall|p: Seq<char>| #[trigger] lookup(w, p) == if p == m.path@ {
                        Some(m)
                    } else {
                        lookup(v0, p)
                    } by {
                        if p == m.path@ {
                            lemma_lookup_at(w, i as int);
                        } else {
                            assert forall|a: int| 0 <= a < v0.len() && (#[trigger] v0[a]).path@ == p implies exists|b: int|
                                0 <= b < w.len() && w[b] == v0[a] by {
                                assert(w[a] == v0[a]);
                            }
                            assert forall|b: int| 0 <= b < w.len() && (#[trigger] w[b]).path@ == p implies exists|a: int|
                                0 <= a < v0.len() && v0[a] == w[b] by {
                                assert(w[b] == v0[b]);
                            }
                            lemma_lookup_same(v0, w, p);
                        }
                    }
                }
            },
            None => {
                self.loaded_images.push(metadata);
                proof {
                    let w = self.loaded_images@;
                    assert(w == v0.push(m));
                    assert(distinct_paths(w)) by {
                        assert forall|a: int, b: int| 0 <= a < w.len() && 0 <= b < w.len() && a != b implies (#[trigger] w[a]).path@ != (#[trigger] w[b]).path@ by {
                            if a < v0.len() && b < v0.len() {
                                assert(w[a] == v0[a] && w[b] == v0[b]);
                            } else if a < v0.len() {
                                assert(w[a] == v0[a]);
                            } else {
                                assert(w[b] == v0[b]);
                            }
                        }
                    }
                    assert forall|p: Seq<char>| #[trigger] lookup(w, p) == if p == m.path@ {
                        Some(m)
                    } else {
                        lookup(v0, p)
                    } by {
                        if p == m.path@ {
                            lemma_lookup_at(w, v0.len() as int);
                        } else {
                            assert forall|a: int| 0 <= a < v0.len() && (#[trigger] v0[a]).path@ == p implies exists|b: int|
                                0 <= b < w.len() && w[b] == v0[a] by {
                                assert(w[a] == v0[a]);
                            }
                            assert forall|b: int| 0 <= b < w.len() && (#[trigger] w[b]).path@ == p implies exists|a: int|
                                0 <= a < v0.len() && v0[a] == w[b] by {
                                assert(w[b] == v0[b]);
                            }
                            lemma_lookup_same(v0, w, p);
                        }
                    }
                }
            },
        }
    }

    /// The metadata registered for `path`.
    pub fn get_metadata(&self, path: &String) -> (r: Option<&AssetMetadata>)
        requires
            self.wf(),
        ensures
            r.is_some() == lookup(self.loaded_images@, path@).is_some(),
            r.is_some() ==> *r.unwrap() == lookup(self.loaded_images@, path@).unwrap(),
    {
        match entry_position(&self.loaded_images, path) {
            Some(i) => {
                proof {
                    lemma_lookup_at(self.loaded_images@, i as int);
                }
                Some(&self.loaded_images[i])
            },
            None => None,
        }
    }

    pub fn is_loaded(&self, path: &String) -> (b: bool)
        requires
            self.wf(),
        ensures
            b == lookup(self.loaded_images@, path@).is_some(),
    {
        self.get_metadata(path).is_some()
    }

    pub fn is_loading(&self, path: &String) -> (b: bool)
        ensures
            b == texts(self.loading_assets@).contains(path@),
    {
        position(&self.loading_assets, path).is_some()
    }

    /// Marks `path` as loading (once).
    pub fn start_loading(&mut self, path: String)
        requires
            old(self).wf(),
        ensures
            final(self).wf(),
            texts(final(self).loading_assets@) == if texts(old(self).loading_assets@).contains(path@) {
                texts(old(self).loading_assets@)
            } else {
                texts(old(self).loading_assets@).push(path@)
            },
            final(self).loaded_images@ == old(self).loaded_images@,
    {
        if position(&self.loading_assets, &path).is_none() {
            self.loading_assets.push(path);
            proof {
                let t = texts(self.loading_assets@);
                let t0 = texts(old(self).loading_assets@);
                assert(t =~= t0.push(path@));
                assert forall|i: int, j: int| 0 <= i < t.len() && 0 <= j < t.len() && i != j implies t[i] != t[j] by {
                    if i == t0.len() {
                        assert(t0[j] != path@);
                    } else if j == t0.len() {
                        assert(t0[i] != path@);
                    }
                }
            }
        }
    }

    /// Marks `path` as no longer loading.
    pub fn finish_loading(&mut self, path: &String)
        requires
            old(self).wf(),
        ensures
            final(self).wf(),
            texts(final(self).loading_assets@) == without_first(texts(old(self).loading_assets@), path@),
            !texts(final(self).loading_assets@).contains(path@),
            final(self).loaded_images@ == old(self).loaded_images@,
    {
        match position(&self.loading_assets, path) {
            Some(i) => {
                proof {
                    lemma_first_position(texts(self.loading_assets@), path@, i as int);
                }
                self.loading_assets.remove(i);
                proof {
                    let t0 = texts(old(self).loading_assets@);
                    let t = texts(self.loading_assets@);
                    assert(t =~= t0.remove(i as int));
                    assert forall|a: int, b: int| 0 <= a < t.len() && 0 <= b < t.len() && a != b implies t[a] != t[b] by {
                        let a0 = if a < i { a } else { a + 1 };
                        let b0 = if b < i { b } else { b + 1 };
                        assert(t[a] == t0[a0] && t[b] == t0[b0]);
                    }
                    assert forall|k: int| 0 <= k < t.len() implies t[k] != path@ by {
                        let k0 = if k < i { k } else { k + 1 };
                        assert(t[k] == t0[k0]);
                        assert(t0[i as int] == path@);
                    }
                }
            },
            None => {},
        }
    }

    /// The paths of all loaded images.
    pub fn get_loaded_paths(&self) -> (r: Vec<String>)
        ensures
            texts(r@) == paths_of(self.loaded_images@),
    {
        let mut r: Vec<String> = Vec::new();
        let mut i: usize = 0;
        while i < self.loaded_images.len()
            invariant
                i <= self.loaded_images@.len(),
                r@.len() == i,
                forall|k: int| 0 <= k < i ==> (#[trigger] r@[k])@ == self.loaded_images@[k].path@,
            decreases self.loaded_images@.len() - i,
        {
            r.push(self.loaded_images[i].path.clone());
            i = i + 1;
        }
        assert(texts(r@) =~= paths_of(self.loaded_images@));
        r
    }
}

} // verus!
