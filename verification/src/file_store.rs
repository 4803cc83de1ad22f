//! A snapshot of loadable files, keyed by absolute path. The resolver works
//! against such a snapshot; the process around the library fills one with
//! what the candidate paths of a request yielded on disk.

use vstd::prelude::*;

use crate::filelike::FileLike;
use crate::text::str_eq;

verus! {

/// Loadable files keyed by absolute path; on a duplicate path the first
/// entry wins, as the first successful load would.
pub struct FileStore {
    pub entries: Vec<(String, FileLike)>,
}

/// The entries of a store, each path as its view.
pub open spec fn store_view(entries: Seq<(String, FileLike)>) -> Seq<(Seq<char>, FileLike)> {
    entries.map_values(|p: (String, FileLike)| (p.0@, p.1))
}

/// The file under the first entry whose path is `path`, if any.
pub open spec fn store_lookup(s: Seq<(Seq<char>, FileLike)>, path: Seq<char>) -> Option<FileLike>
    decreases s.len(),
{
    if s.len() == 0 {
        None
    } else if s[0].0 == path {
        Some(s[0].1)
    } else {
        store_lookup(s.subrange(1, s.len() as int), path)
    }
}

impl View for FileStore {
    type V = Seq<(Seq<char>, FileLike)>;

    open spec fn view(&self) -> Seq<(Seq<char>, FileLike)> {
        store_view(self.entries@)
    }
}

/// If the first entry under `path` stands at `i`, lookup finds its file.
pub proof fn lemma_store_lookup_at(s: Seq<(Seq<char>, FileLike)>, path: Seq<char>, i: int)
    requires
        0 <= i < s.len(),
        s[i].0 == path,
        forall|j: int| 0 <= j < i ==> (#[trigger] s[j]).0 != path,
    ensures
        store_lookup(s, path) == Some(s[i].1),
    decreases i,
{
    if i > 0 {
        let tail = s.subrange(1, s.len() as int);
        assert(forall|j: int| 0 <= j < i - 1 ==> (#[trigger] tail[j]).0 != path);
        lemma_store_lookup_at(tail, path, i - 1);
    }
}

/// With no entry under `path`, lookup finds nothing.
pub proof fn lemma_store_lookup_none(s: Seq<(Seq<char>, FileLike)>, path: Seq<char>)
    requires
        forall|j: int| 0 <= j < s.len() ==> (#[trigger] s[j]).0 != path,
    ensures
        store_lookup(s, path) is None,
    decreases s.len(),
{
    if s.len() > 0 {
        lemma_store_lookup_none(s.subrange(1, s.len() as int), path);
    }
}

impl FileStore {
    /// An empty snapshot.
    pub fn new() -> (r: FileStore)
        ensures
            r@ == Seq::<(Seq<char>, FileLike)>::empty(),
    {
        let r = FileStore { entries: Vec::new() };
        proof {
            assert(r@ =~= Seq::<(Seq<char>, FileLike)>::empty());
        }
        r
    }

    /// Records that `path` loads as `file`; an earlier entry under the same
    /// path keeps priority.
    pub fn add(&mut self, path: String, file: FileLike)
        ensures
            final(self)@ == old(self)@.push((path@, file)),
    {
        self.entries.push((path, file));
        proof {
            assert(store_view(self.entries@) =~= store_view(old(self).entries@).push(
                (self.entries@.last().0@, self.entries@.last().1),
            ));
        }
    }

    /// The file recorded under `path`, if any.
    pub fn get(&self, path: &str) -> (r: Option<&FileLike>)
        ensures
            match r {
                Some(f) => store_lookup(self@, path@) == Some(*f),
                None => store_lookup(self@, path@) is None,
            },
    {
        let n = self.entries.len();
        let mut i: usize = 0;
        while i < n
            invariant
                n == self.entries@.len(),
                i <= n,
                forall|j: int| 0 <= j < i ==> (#[trigger] self@[j]).0 != path@,
            decreases n - i,
        {
            let hit = str_eq(self.entries[i].0.as_str(), path);
            if hit {
                proof {
                    lemma_store_lookup_at(self@, path@, i as int);
                }
                return Some(&self.entries[i].1);
            }
            i += 1;
        }
        proof {
            lemma_store_lookup_none(self@, path@);
        }
        None
    }
}

} // verus!
