//! Shared server state: the cache index that backs deduplication, the
//! registry of uploaded original filenames, and the active-dataset
//! selection.  Each type is an independently synchronizable unit; callers
//! guard each one on its own, so no contract here spans two of them at once.

use vstd::prelude::*;
use vstd::string::StringExecFns;

verus! {

/// First-match lookup in an association list of (key, value) pairs.
pub open spec fn spec_lookup(entries: Seq<(Seq<char>, Seq<char>)>, key: Seq<char>) -> Option<
    Seq<char>,
>
    decreases entries.len(),
{
    if entries.len() == 0 {
        None
    } else if entries.first().0 == key {
        Some(entries.first().1)
    } else {
        spec_lookup(entries.drop_first(), key)
    }
}

/// A lookup misses exactly when no entry carries the key.
pub proof fn lemma_lookup_none_iff_absent(entries: Seq<(Seq<char>, Seq<char>)>, key: Seq<char>)
    ensures
        (spec_lookup(entries, key) is None) <==> (forall|i: int|
            0 <= i < entries.len() ==> entries[i].0 != key),
    decreases entries.len(),
{
    if entries.len() > 0 {
        let rest = entries.drop_first();
        lemma_lookup_none_iff_absent(rest, key);
        if spec_lookup(entries, key) is None {
            assert forall|i: int| 0 <= i < entries.len() implies entries[i].0 != key by {
                if i == 0 {
                    assert(entries[0] == entries.first());
                } else {
                    assert(entries[i] == rest[i - 1]);
                }
            }
        } else {
            if entries.first().0 == key {
                assert(entries[0].0 == key);
            } else {
                assert(!(forall|j: int| 0 <= j < rest.len() ==> rest[j].0 != key));
                let j = choose|j: int| 0 <= j < rest.len() && rest[j].0 == key;
                assert(entries[j + 1] == rest[j]);
            }
        }
    }
}

/// Appending an entry leaves every present key bound as before and binds the
/// new key only where it was absent.
pub proof fn lemma_lookup_push(
    entries: Seq<(Seq<char>, Seq<char>)>,
    key: Seq<char>,
    value: Seq<char>,
    probe: Seq<char>,
)
    ensures
        spec_lookup(entries.push((key, value)), probe) == (if spec_lookup(entries, probe) is Some {
            spec_lookup(entries, probe)
        } else if probe == key {
            Some(value)
        } else {
            None
        }),
    decreases entries.len(),
{
    if entries.len() == 0 {
        assert(entries.push((key, value)).first() == (key, value));
        assert(entries.push((key, value)).drop_first() =~= entries);
    } else {
        assert(entries.push((key, value)).first() == entries.first());
        assert(entries.push((key, value)).drop_first() =~= entries.drop_first().push(
            (key, value),
        ));
        lemma_lookup_push(entries.drop_first(), key, value, probe);
    }
}

/// Lookup that binds each key to its latest entry: what a scan that lets
/// later files shadow earlier ones of the same name arrives at.
pub open spec fn spec_lookup_latest(
    entries: Seq<(Seq<char>, Seq<char>)>,
    key: Seq<char>,
) -> Option<Seq<char>>
    decreases entries.len(),
{
    if entries.len() == 0 {
        None
    } else if entries.last().0 == key {
        Some(entries.last().1)
    } else {
        spec_lookup_latest(entries.drop_last(), key)
    }
}

/// Peeling the latest-match lookup from the front: the front entry binds
/// its key only where no later entry does.
pub proof fn lemma_latest_unfold_front(entries: Seq<(Seq<char>, Seq<char>)>, key: Seq<char>)
    requires
        entries.len() > 0,
    ensures
        spec_lookup_latest(entries, key) == (if spec_lookup_latest(
            entries.drop_first(),
            key,
        ) is Some {
            spec_lookup_latest(entries.drop_first(), key)
        } else if entries.first().0 == key {
            Some(entries.first().1)
        } else {
            None
        }),
    decreases entries.len(),
{
    if entries.len() == 1 {
        assert(entries.drop_first() =~= Seq::<(Seq<char>, Seq<char>)>::empty());
        assert(entries.last() == entries.first());
    } else {
        let t = entries.drop_last();
        lemma_latest_unfold_front(t, key);
        assert(entries.drop_first().last() == entries.last());
        assert(entries.drop_first().drop_last() =~= t.drop_first());
        assert(t.first() == entries.first());
    }
}

/// The in-memory mapping from content hash to stored-archive path: the
/// source of truth for deduplication.  At most one entry stands per hash,
/// and entries are added only after the file they name is durably written.
pub struct CacheIndex {
    entries: Vec<(String, String)>,
}

impl View for CacheIndex {
    type V = Seq<(Seq<char>, Seq<char>)>;

    closed spec fn view(&self) -> Seq<(Seq<char>, Seq<char>)> {
        self.entries.deep_view()
    }
}

impl CacheIndex {
    /// At most one entry per hash.
    pub open spec fn wf(&self) -> bool {
        forall|i: int, j: int| 0 <= i < j < self@.len() ==> self@[i].0 != self@[j].0
    }

    pub fn new() -> (r: CacheIndex)
        ensures
            r@ == Seq::<(Seq<char>, Seq<char>)>::empty(),
            r.wf(),
    {
        let r = CacheIndex { entries: Vec::new() };
        proof {
            assert(r@ =~= Seq::<(Seq<char>, Seq<char>)>::empty());
        }
        r
    }

    pub fn len(&self) -> (n: usize)
        ensures
            n == self@.len(),
    {
        self.entries.len()
    }

    /// Consult the index for a content hash.
    pub fn lookup(&self, hash: &String) -> (r: Option<String>)
        ensures
            match r {
                Some(p) => spec_lookup(self@, hash@) == Some(p@),
                None => spec_lookup(self@, hash@) is None,
            },
    {
        let n = self.entries.len();
        proof {
            assert(self@.skip(0) =~= self@);
        }
        for i in 0..n
            invariant
                n == self.entries.len(),
                self@.len() == n,
                spec_lookup(self@, hash@) == spec_lookup(self@.skip(i as int), hash@),
        {
            proof {
                assert(self@.skip(i as int).first() == self@[i as int]);
                assert(self@.skip(i as int).drop_first() =~= self@.skip(i + 1));
            }
            if self.entries[i].0 == *hash {
                return Some(self.entries[i].1.clone());
            }
        }
        proof {
            assert(self@.skip(n as int) =~= Seq::<(Seq<char>, Seq<char>)>::empty());
        }
        None
    }

    /// Record a newly stored archive under its content hash.  The caller
    /// has already checked that the hash is absent and that the file at
    /// `path` is durably written.
    pub fn insert(&mut self, hash: String, path: String)
        requires
            old(self).wf(),
            spec_lookup(old(self)@, hash@) is None,
        ensures
            final(self)@ == old(self)@.push((hash@, path@)),
            final(self).wf(),
            spec_lookup(final(self)@, hash@) == Some(path@),
            forall|q: Seq<char>|
                q != hash@ ==> #[trigger] spec_lookup(final(self)@, q) == spec_lookup(
                    old(self)@,
                    q,
                ),
    {
        proof {
            lemma_lookup_none_iff_absent(self@, hash@);
        }
        self.entries.push((hash, path));
        proof {
            assert(final(self)@ =~= old(self)@.push((hash@, path@)));
            assert forall|q: Seq<char>| true implies #[trigger] spec_lookup(final(self)@, q) == (
            if spec_lookup(old(self)@, q) is Some {
                spec_lookup(old(self)@, q)
            } else if q == hash@ {
                Some(path@)
            } else {
                None
            }) by {
                lemma_lookup_push(old(self)@, hash@, path@, q);
            }
        }
    }

    /// Forget every entry; part of cache maintenance.
    pub fn clear(&mut self)
        ensures
            final(self)@ == Seq::<(Seq<char>, Seq<char>)>::empty(),
            final(self).wf(),
    {
        self.entries.clear();
        proof {
            assert(final(self)@ =~= Seq::<(Seq<char>, Seq<char>)>::empty());
        }
    }

    /// Rebuild the index from the (hash, path) pairs found by scanning the
    /// storage root at startup.  Only the filenames are consulted: the hash
    /// embedded in each name is trusted as established at write time, and
    /// no content is re-hashed.  The rebuilt index binds exactly the keys
    /// found, each to the path of its latest occurrence in scan order, as
    /// when later files shadow earlier ones of the same name.
    pub fn rebuild(found: &Vec<(String, String)>) -> (r: CacheIndex)
        ensures
            r.wf(),
            forall|k: Seq<char>| #[trigger]
                spec_lookup(r@, k) == spec_lookup_latest(found.deep_view(), k),
    {
        let mut r = CacheIndex::new();
        let n = found.len();
        proof {
            assert(found.deep_view().skip(n as int) =~= Seq::<(Seq<char>, Seq<char>)>::empty());
        }
        let mut i: usize = n;
        while i > 0
            invariant
                i <= n,
                n == found.len(),
                r.wf(),
                forall|k: Seq<char>| #[trigger]
                    spec_lookup(r@, k) == spec_lookup_latest(
                        found.deep_view().skip(i as int),
                        k,
                    ),
            decreases i,
        {
            i = i - 1;
            let ghost rpre = r@;
            let ghost suffix = found.deep_view().skip(i as int);
            let hash = found[i].0.clone();
            let path = found[i].1.clone();
            let present = r.lookup(&hash);
            if present.is_none() {
                r.insert(hash, path);
            }
            proof {
                assert(suffix.first() == found.deep_view()[i as int]);
                assert(suffix.drop_first() =~= found.deep_view().skip(i + 1));
                assert forall|k: Seq<char>| true implies #[trigger] spec_lookup(r@, k)
                    == spec_lookup_latest(suffix, k) by {
                    lemma_latest_unfold_front(suffix, k);
                    if present is None {
                        lemma_lookup_push(rpre, found[i as int].0@, found[i as int].1@, k);
                    }
                }
            }
        }
        proof {
            assert(found.deep_view().skip(0) =~= found.deep_view());
        }
        r
    }
}

/// The registry of uploaded original filenames.  Purely informational:
/// every upload of new content appends one record, the same filename may
/// recur with different paths, and no record is ever overwritten.
pub struct FileRegistry {
    entries: Vec<(String, String)>,
}

impl View for FileRegistry {
    type V = Seq<(Seq<char>, Seq<char>)>;

    closed spec fn view(&self) -> Seq<(Seq<char>, Seq<char>)> {
        self.entries.deep_view()
    }
}

impl FileRegistry {
    pub fn new() -> (r: FileRegistry)
        ensures
            r@ == Seq::<(Seq<char>, Seq<char>)>::empty(),
    {
        let r = FileRegistry { entries: Vec::new() };
        proof {
            assert(r@ =~= Seq::<(Seq<char>, Seq<char>)>::empty());
        }
        r
    }

    pub fn len(&self) -> (n: usize)
        ensures
            n == self@.len(),
    {
        self.entries.len()
    }

    /// Append one record; earlier records with the same filename stay.
    pub fn record(&mut self, name: String, path: String)
        ensures
            final(self)@ == old(self)@.push((name@, path@)),
    {
        self.entries.push((name, path));
        proof {
            assert(final(self)@ =~= old(self)@.push((name@, path@)));
        }
    }

    /// The record at a position, oldest first.
    pub fn get(&self, i: usize) -> (r: (String, String))
        requires
            i < self@.len(),
        ensures
            (r.0@, r.1@) == self@[i as int],
    {
        let entry = &self.entries[i];
        (entry.0.clone(), entry.1.clone())
    }

    /// Forget every record; part of cache maintenance.
    pub fn clear(&mut self)
        ensures
            final(self)@ == Seq::<(Seq<char>, Seq<char>)>::empty(),
    {
        self.entries.clear();
        proof {
            assert(final(self)@ =~= Seq::<(Seq<char>, Seq<char>)>::empty());
        }
    }
}

/// The single dataset that article, browse and search operations act on
/// when the caller names none: the archive most recently uploaded or
/// matched in cache.
pub struct ActiveDataset {
    path: Option<String>,
}

impl View for ActiveDataset {
    type V = Option<Seq<char>>;

    closed spec fn view(&self) -> Option<Seq<char>> {
        match self.path {
            Some(p) => Some(p@),
            None => None,
        }
    }
}

impl ActiveDataset {
    pub fn new() -> (r: ActiveDataset)
        ensures
            r@ is None,
    {
        ActiveDataset { path: None }
    }

    /// Make the archive at `path` the active dataset.
    pub fn select(&mut self, path: String)
        ensures
            final(self)@ == Some(path@),
    {
        self.path = Some(path);
    }

    /// Unset the selection; part of cache maintenance.
    pub fn clear(&mut self)
        ensures
            final(self)@ is None,
    {
        self.path = None;
    }

    /// The currently selected path, if any.
    pub fn current(&self) -> (r: Option<String>)
        ensures
            match r {
                Some(p) => self@ == Some(p@),
                None => self@ is None,
            },
    {
        match &self.path {
            Some(p) => Some(p.clone()),
            None => None,
        }
    }
}

/// The storage path of a content hash under a storage root.
pub open spec fn spec_storage_path(root: Seq<char>, hash: Seq<char>) -> Seq<char> {
    root + "/"@ + hash + ".zim"@
}

/// Derive the deterministic on-disk name for a content hash.
pub fn storage_path(root: &str, hash: &String) -> (r: String)
    ensures
        r@ == spec_storage_path(root@, hash@),
{
    let mut r = String::from_str(root);
    r.append("/");
    r.append(hash.as_str());
    r.append(".zim");
    r
}

/// What an upload must do once its content hash is known: reuse the stored
/// archive on a hit, or write a new file at the derived path on a miss.
pub enum UploadDecision {
    CacheHit { path: String },
    NeedsWrite { path: String },
}

/// Consult the cache index under its own guard and decide the upload's
/// outcome.  A hit performs no storage write; a miss names the exact path
/// the new archive must be written to before any state is updated.
pub fn decide_upload(cache: &CacheIndex, hash: &String, root: &str) -> (d: UploadDecision)
    ensures
        match d {
            UploadDecision::CacheHit { path } => spec_lookup(cache@, hash@) == Some(path@),
            UploadDecision::NeedsWrite { path } => spec_lookup(cache@, hash@) is None && path@
                == spec_storage_path(root@, hash@),
        },
{
    match cache.lookup(hash) {
        Some(p) => UploadDecision::CacheHit { path: p },
        None => UploadDecision::NeedsWrite { path: storage_path(root, hash) },
    }
}

/// Bulk invalidation.  Only when the storage root was deleted in full are
/// the in-memory registries cleared; after a partial failure every entry
/// stays, so nothing in memory names a file that is gone while entries
/// still back files that remain, and the operation can be retried.
pub fn apply_clean(
    cache: &mut CacheIndex,
    files: &mut FileRegistry,
    active: &mut ActiveDataset,
    delete_ok: bool,
) -> (ok: bool)
    ensures
        ok == delete_ok,
        delete_ok ==> final(cache)@ == Seq::<(Seq<char>, Seq<char>)>::empty(),
        delete_ok ==> final(cache).wf(),
        delete_ok ==> final(files)@ == Seq::<(Seq<char>, Seq<char>)>::empty(),
        delete_ok ==> final(active)@ is None,
        !delete_ok ==> final(cache)@ == old(cache)@,
        !delete_ok ==> final(files)@ == old(files)@,
        !delete_ok ==> final(active)@ == old(active)@,
{
    if delete_ok {
        cache.clear();
        files.clear();
        active.clear();
        true
    } else {
        false
    }
}

/// Uploading content already in cache hits the same stored archive: once a
/// hash is bound to a path, looking the hash up again yields that very
/// path, so the repeated upload writes nothing and activates the same
/// archive the first upload did.
pub proof fn lemma_repeat_upload_hits(
    cache0: Seq<(Seq<char>, Seq<char>)>,
    hash: Seq<char>,
    path: Seq<char>,
)
    requires
        spec_lookup(cache0, hash) is None,
    ensures
        spec_lookup(cache0.push((hash, path)), hash) == Some(path),
{
    lemma_lookup_push(cache0, hash, path, hash);
}

/// Two different contents uploaded under one original filename: the cache
/// gains two distinct entries, each hash still bound to its own path, and
/// the registry gains two records, the earlier one intact.
pub proof fn lemma_same_name_never_overwrites(
    cache0: Seq<(Seq<char>, Seq<char>)>,
    files0: Seq<(Seq<char>, Seq<char>)>,
    hash1: Seq<char>,
    path1: Seq<char>,
    hash2: Seq<char>,
    path2: Seq<char>,
    name: Seq<char>,
)
    requires
        hash1 != hash2,
        spec_lookup(cache0, hash1) is None,
        spec_lookup(cache0.push((hash1, path1)), hash2) is None,
    ensures
        spec_lookup(cache0.push((hash1, path1)).push((hash2, path2)), hash1) == Some(path1),
        spec_lookup(cache0.push((hash1, path1)).push((hash2, path2)), hash2) == Some(path2),
        files0.push((name, path1)).push((name, path2)).len() == files0.len() + 2,
        files0.push((name, path1)).push((name, path2))[files0.len() as int] == (name, path1),
        files0.push((name, path1)).push((name, path2))[files0.len() as int + 1] == (name, path2),
{
    lemma_lookup_push(cache0, hash1, path1, hash1);
    lemma_lookup_push(cache0.push((hash1, path1)), hash2, path2, hash1);
    lemma_lookup_push(cache0.push((hash1, path1)), hash2, path2, hash2);
}

/// After a successful clean, every lookup misses, so the next upload of any
/// content decides exactly as on a freshly started process: a miss and a
/// write to the derived path.
pub proof fn lemma_clean_is_fresh(hash: Seq<char>)
    ensures
        spec_lookup(Seq::<(Seq<char>, Seq<char>)>::empty(), hash) is None,
{
}

} // verus!
